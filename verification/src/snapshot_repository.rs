//! Repositories with snapshots: they load aggregates from the latest snapshot and the events after
//! it, and offer new snapshots after commands.

use vstd::prelude::*;
use std::marker::PhantomData;
use crate::aggregate::{apply_all, fresh, reaches, Aggregate, AggregateBuilder, Handle};
use crate::codec::{
    decodes, encodes, result_view, Codec, ProjectionEvent, SerializableEvent,
};
use crate::concurrency::{ConcurrencyConflict, ConcurrencyStrategy, Optimistic, Unchecked};
use crate::error::{
    CommandError, OptimisticCommandError, OptimisticSnapshotCommandError, SnapshotCommandError,
};
use crate::id::AggregateId;
use crate::projection::{HandlerError, Projection, ProjectionBuilder, ProjectionError};
use crate::repository::{
    aggregate_of, attempts_after, catch_up, catches_up, expects, rebuilds, store_checked,
    store_unchecked, stores, CodecError, LoadError, LoadedAggregate,
};
use crate::snapshot::{wants_snapshot, Snapshot, SnapshotStore};
use crate::store::{has_version, EventFilter, EventStore, StoredEvent};

verus! {

/// Loading an aggregate with the help of a snapshot may give `result`.
///
/// A snapshot that cannot be loaded counts as none, and all events are replayed. One whose data
/// cannot be decoded is an error.
pub open spec fn restores<S, SS, A>(
    store: S,
    snapshots: SS,
    aggregate_id: <S::Id as AggregateId>::Key,
    result: Result<LoadedAggregate<A>, LoadError<S>>,
) -> bool where
    S: EventStore,
    SS: SnapshotStore<Id = S::Id, Position = S::Position>,
    A: Aggregate<Id = S::Id> + serde::de::DeserializeOwned,
    A::Event: ProjectionEvent<S::Codec>,
 {
    exists|found: Result<Option<Snapshot<S::Position>>, SS::Error>|
        {
            &&& #[trigger] snapshots.finds(A::KIND@, aggregate_id, found)
            &&& match found {
                Ok(Some(snapshot)) => exists|decoded: Result<A, CodecError<S>>|
                    {
                        &&& #[trigger] decodes(store.used_codec(), snapshot.data@, decoded)
                        &&& match decoded {
                            Ok(start) => catches_up(
                                store,
                                aggregate_id,
                                start,
                                Some(snapshot.position),
                                result,
                            ),
                            Err(error) => result matches Err(
                                ProjectionError::SnapshotDeserialize(e),
                            ) && e == error,
                        }
                    },
                _ => rebuilds(store, aggregate_id, result),
            }
        }
}

/// The number of events since the last snapshot, new ones counted.
pub open spec fn events_since(replayed: u64, new_events: nat) -> u64 {
    if replayed + new_events <= u64::MAX {
        (replayed + new_events) as u64
    } else {
        u64::MAX
    }
}

/// Preparing a snapshot before the events of a command are stored may give `result`: the state
/// after the events in serialised form, or `None` where the store wants no snapshot.
pub open spec fn prepares<S, SS, A>(
    store: S,
    snapshots: SS,
    aggregate_id: <S::Id as AggregateId>::Key,
    aggregate: A,
    total: u64,
    events: Seq<A::Event>,
    result: Result<Option<Seq<u8>>, CodecError<S>>,
) -> bool where
    S: EventStore,
    SS: SnapshotStore<Id = S::Id, Position = S::Position>,
    A: Aggregate<Id = S::Id> + serde::Serialize,
 {
    exists|wanted: bool|
        {
            &&& #[trigger] wants_snapshot(snapshots, A::KIND@, aggregate_id, total, wanted)
            &&& if wanted {
                exists|state: A, encoded: Result<Seq<u8>, CodecError<S>>|
                    {
                        &&& #[trigger] encodes(store.used_codec(), state, encoded)
                        &&& reaches(aggregate, events, state)
                        &&& result == match encoded {
                            Ok(bytes) => Ok(Some(bytes)),
                            Err(error) => Err(error),
                        }
                    }
            } else {
                result == Ok::<Option<Seq<u8>>, CodecError<S>>(None)
            }
        }
}

/// A result over an optional vector, seen as a result over an optional sequence.
pub open spec fn bytes_view<E>(r: Result<Option<Vec<u8>>, E>) -> Result<Option<Seq<u8>>, E> {
    match r {
        Ok(Some(bytes)) => Ok(Some(bytes@)),
        Ok(None) => Ok(None),
        Err(error) => Err(error),
    }
}

/// The serialised state after the new events, where the snapshot store wants a snapshot, and the
/// number of events since the last one.
fn maybe_snapshot_bytes<S, SS, A>(
    store: &S,
    snapshots: &SS,
    aggregate_id: &S::Id,
    aggregate: A,
    events_since_snapshot: u64,
    new_events: &Vec<A::Event>,
) -> (r: (Result<Option<Vec<u8>>, CodecError<S>>, u64)) where
    S: EventStore,
    SS: SnapshotStore<Id = S::Id, Position = S::Position>,
    A: Aggregate<Id = S::Id> + serde::Serialize,

    ensures
        r.1 == events_since(events_since_snapshot, new_events@.len()),
        prepares(
            *store,
            *snapshots,
            aggregate_id.key(),
            aggregate,
            r.1,
            new_events@,
            bytes_view(r.0),
        ),
{
    let total: u64 = events_since_snapshot.saturating_add(new_events.len() as u64);
    let wanted = snapshots.should_snapshot(A::KIND, aggregate_id, total);
    assert(wants_snapshot(*snapshots, A::KIND@, aggregate_id.key(), total, wanted));
    if !wanted {
        return (Ok(None), total);
    }
    let mut state = aggregate;
    apply_all(&mut state, new_events);
    let encoded = store.codec().serialize(&state);
    assert(encodes(store.used_codec(), state, result_view(encoded)));
    match encoded {
        Ok(bytes) => (Ok(Some(bytes)), total),
        Err(error) => (Err(error), total),
    }
}

/// An error of a command without snapshots, among those of commands with them.
pub open spec fn with_snapshots<AggregateError, Position, StoreError, CodecError, SnapshotError>(
    error: OptimisticCommandError<AggregateError, Position, StoreError, CodecError>,
) -> OptimisticSnapshotCommandError<
    AggregateError,
    Position,
    StoreError,
    CodecError,
    SnapshotError,
> {
    match error {
        OptimisticCommandError::Aggregate(e) => OptimisticSnapshotCommandError::Aggregate(e),
        OptimisticCommandError::Concurrency(e) => OptimisticSnapshotCommandError::Concurrency(e),
        OptimisticCommandError::Projection(e) => OptimisticSnapshotCommandError::Projection(e),
        OptimisticCommandError::Codec(e) => OptimisticSnapshotCommandError::Codec(e),
        OptimisticCommandError::Store(e) => OptimisticSnapshotCommandError::Store(e),
    }
}

/// Offering a prepared snapshot after the events of a command were stored may give `result` and
/// leave the snapshot store as `after`.
///
/// The snapshot gets the version of the stream as its position.
pub open spec fn offers<S, SS, A>(
    store: S,
    before: SS,
    aggregate_id: <S::Id as AggregateId>::Key,
    total: u64,
    prepared: Option<Seq<u8>>,
    after: SS,
    result: Result<(), OptimisticSnapshotCommandError<
        A::Error,
        S::Position,
        S::Error,
        CodecError<S>,
        SS::Error,
    >>,
) -> bool where
    S: EventStore,
    SS: SnapshotStore<Id = S::Id, Position = S::Position>,
    A: Aggregate<Id = S::Id>,
 {
    match prepared {
        None => after == before && result is Ok,
        Some(data) => exists|reported: Result<Option<S::Position>, S::Error>|
            {
                &&& #[trigger] store.reports(A::KIND@, aggregate_id, reported)
                &&& match reported {
                    Err(error) => {
                        &&& after == before
                        &&& result matches Err(OptimisticSnapshotCommandError::Store(e)) && e
                            == error
                    },
                    Ok(None) => false,
                    Ok(Some(position)) => exists|
                        snapshot: Snapshot<S::Position>,
                        offered: Result<(), SS::Error>,
                    |
                        {
                            &&& snapshot.position == position
                            &&& snapshot.data@ == data
                            &&& #[trigger] before.takes_offer(
                                A::KIND@,
                                aggregate_id,
                                snapshot,
                                total,
                                after,
                                offered,
                            )
                            &&& match offered {
                                Ok(()) => result is Ok,
                                Err(error) => result matches Err(
                                    OptimisticSnapshotCommandError::Snapshot(e),
                                ) && e == error,
                            }
                        },
                }
            },
    }
}

/// Storing the events of a command and then offering a snapshot may give `result` and leave the
/// two stores as `after` and `snapshots_after`.
///
/// The snapshot is prepared first, so that a failure to encode it leaves the stores as they were.
pub open spec fn stores_and_offers<S, SS, A>(
    checked: bool,
    version: Option<S::Position>,
    before: S,
    snapshots_before: SS,
    aggregate_id: <S::Id as AggregateId>::Key,
    loaded: LoadedAggregate<A>,
    events: Seq<A::Event>,
    metadata: S::Metadata,
    after: S,
    snapshots_after: SS,
    result: Result<(), OptimisticSnapshotCommandError<
        A::Error,
        S::Position,
        S::Error,
        CodecError<S>,
        SS::Error,
    >>,
) -> bool where
    S: EventStore,
    S::Metadata: Clone,
    SS: SnapshotStore<Id = S::Id, Position = S::Position>,
    A: Aggregate<Id = S::Id> + serde::Serialize,
    A::Event: SerializableEvent<S::Codec>,
 {
    let total = events_since(loaded.events_since_snapshot, events.len());
    exists|prepared: Result<Option<Seq<u8>>, CodecError<S>>|
        {
            &&& #[trigger] prepares(
                before,
                snapshots_before,
                aggregate_id,
                loaded.aggregate,
                total,
                events,
                prepared,
            )
            &&& match prepared {
                Err(error) => {
                    &&& after == before
                    &&& snapshots_after == snapshots_before
                    &&& result matches Err(OptimisticSnapshotCommandError::Codec(e)) && e == error
                },
                Ok(prepared) => exists|
                    stored: Result<
                        (),
                        OptimisticCommandError<A::Error, S::Position, S::Error, CodecError<S>>,
                    >,
                |
                    {
                        &&& #[trigger] stores::<S, A>(
                            checked,
                            before,
                            aggregate_id,
                            version,
                            events,
                            metadata,
                            after,
                            stored,
                        )
                        &&& match stored {
                            Err(error) => {
                                &&& snapshots_after == snapshots_before
                                &&& result matches Err(e) && e == with_snapshots::<
                                    A::Error,
                                    S::Position,
                                    S::Error,
                                    CodecError<S>,
                                    SS::Error,
                                >(error)
                            },
                            Ok(()) => offers::<S, SS, A>(
                                after,
                                snapshots_before,
                                aggregate_id,
                                total,
                                prepared,
                                snapshots_after,
                                result,
                            ),
                        }
                    },
            }
        }
}

/// Running a command with snapshots that expects a version may give `result` and leave the two
/// stores as `after` and `snapshots_after`.
pub open spec fn runs_with_snapshots<S, SS, A, Cmd>(
    checked: bool,
    version: Option<S::Position>,
    before: S,
    snapshots_before: SS,
    aggregate_id: <S::Id as AggregateId>::Key,
    command: Cmd,
    metadata: S::Metadata,
    after: S,
    snapshots_after: SS,
    result: Result<(), OptimisticSnapshotCommandError<
        A::Error,
        S::Position,
        S::Error,
        CodecError<S>,
        SS::Error,
    >>,
) -> bool where
    S: EventStore,
    S::Metadata: Clone,
    SS: SnapshotStore<Id = S::Id, Position = S::Position>,
    A: Aggregate<Id = S::Id> + Handle<Cmd> + serde::Serialize + serde::de::DeserializeOwned,
    A::Event: ProjectionEvent<S::Codec> + SerializableEvent<S::Codec>,
 {
    exists|loaded: Result<LoadedAggregate<A>, LoadError<S>>|
        {
            &&& #[trigger] restores(before, snapshots_before, aggregate_id, loaded)
            &&& match loaded {
                Err(error) => {
                    &&& after == before
                    &&& snapshots_after == snapshots_before
                    &&& result matches Err(OptimisticSnapshotCommandError::Projection(e)) && e
                        == error
                },
                Ok(loaded) => exists|handled: Result<Seq<A::Event>, A::Error>|
                    {
                        &&& #[trigger] loaded.aggregate.handles(command, handled)
                        &&& match handled {
                            Err(error) => {
                                &&& after == before
                                &&& snapshots_after == snapshots_before
                                &&& result matches Err(
                                    OptimisticSnapshotCommandError::Aggregate(e),
                                ) && e == error
                            },
                            Ok(events) => if events.len() == 0 {
                                after == before && snapshots_after == snapshots_before
                                    && result is Ok
                            } else {
                                stores_and_offers(
                                    checked,
                                    version,
                                    before,
                                    snapshots_before,
                                    aggregate_id,
                                    loaded,
                                    events,
                                    metadata,
                                    after,
                                    snapshots_after,
                                    result,
                                )
                            },
                        }
                    },
            }
        }
}

/// Running a command with snapshots may give `result` and leave the two stores as `after` and
/// `snapshots_after`.
///
/// With version checking the version of the stream is asked for before anything is loaded, so that
/// an event that another writer adds in between leads to a conflict. Where the version cannot be
/// told, the aggregate counts as not rebuilt.
pub open spec fn executes_with_snapshots<S, SS, A, Cmd>(
    checked: bool,
    before: S,
    snapshots_before: SS,
    aggregate_id: <S::Id as AggregateId>::Key,
    command: Cmd,
    metadata: S::Metadata,
    after: S,
    snapshots_after: SS,
    result: Result<(), OptimisticSnapshotCommandError<
        A::Error,
        S::Position,
        S::Error,
        CodecError<S>,
        SS::Error,
    >>,
) -> bool where
    S: EventStore,
    S::Metadata: Clone,
    SS: SnapshotStore<Id = S::Id, Position = S::Position>,
    A: Aggregate<Id = S::Id> + Handle<Cmd> + serde::Serialize + serde::de::DeserializeOwned,
    A::Event: ProjectionEvent<S::Codec> + SerializableEvent<S::Codec>,
 {
    exists|reported: Result<Option<S::Position>, S::Error>|
        {
            &&& #[trigger] expects(checked, before, A::KIND@, aggregate_id, reported)
            &&& match reported {
                Err(error) => {
                    &&& after == before
                    &&& snapshots_after == snapshots_before
                    &&& result matches Err(
                        OptimisticSnapshotCommandError::Projection(ProjectionError::Store(e)),
                    ) && e == error
                },
                Ok(version) => runs_with_snapshots::<S, SS, A, Cmd>(
                    checked,
                    version,
                    before,
                    snapshots_before,
                    aggregate_id,
                    command,
                    metadata,
                    after,
                    snapshots_after,
                    result,
                ),
            }
        }
}

/// The outcome of a command with snapshots but without version checking, among the outcomes of
/// those with both.
pub open spec fn without_snapshot_conflict<
    AggregateError,
    Position,
    StoreError,
    CodecError,
    SnapshotError,
>(
    result: Result<
        (),
        SnapshotCommandError<AggregateError, StoreError, CodecError, SnapshotError>,
    >,
) -> Result<
    (),
    OptimisticSnapshotCommandError<
        AggregateError,
        Position,
        StoreError,
        CodecError,
        SnapshotError,
    >,
> {
    match result {
        Ok(done) => Ok(done),
        Err(SnapshotCommandError::Aggregate(e)) => Err(OptimisticSnapshotCommandError::Aggregate(e)),
        Err(SnapshotCommandError::Projection(e)) => Err(
            OptimisticSnapshotCommandError::Projection(e),
        ),
        Err(SnapshotCommandError::Codec(e)) => Err(OptimisticSnapshotCommandError::Codec(e)),
        Err(SnapshotCommandError::Store(e)) => Err(OptimisticSnapshotCommandError::Store(e)),
        Err(SnapshotCommandError::Snapshot(e)) => Err(OptimisticSnapshotCommandError::Snapshot(e)),
    }
}

/// Repository with snapshots.
///
/// The strategy `C` decides whether commands check the stream version.
pub struct SnapshotRepository<S, SS, C = Optimistic> where
    S: EventStore,
    SS: SnapshotStore<Id = S::Id, Position = S::Position>,
    C: ConcurrencyStrategy,
 {
    store: S,
    snapshots: SS,
    strategy: PhantomData<C>,
}

impl<S, SS> SnapshotRepository<S, SS, Optimistic> where
    S: EventStore,
    SS: SnapshotStore<Id = S::Id, Position = S::Position>,
 {
    /// The repository without version checking: the last writer wins.
    #[must_use]
    pub fn without_concurrency_checking(self) -> (r: SnapshotRepository<S, SS, Unchecked>)
        ensures
            r.store() == self.store(),
            r.snapshots() == self.snapshots(),
    {
        SnapshotRepository { store: self.store, snapshots: self.snapshots, strategy: PhantomData }
    }
}

impl<S, SS, C> SnapshotRepository<S, SS, C> where
    S: EventStore,
    SS: SnapshotStore<Id = S::Id, Position = S::Position>,
    C: ConcurrencyStrategy,
 {
    /// The event store of the repository.
    pub closed spec fn store(&self) -> S {
        self.store
    }

    /// The snapshot store of the repository.
    pub closed spec fn snapshots(&self) -> SS {
        self.snapshots
    }

    /// A repository over an event store and a snapshot store.
    pub(crate) fn over(store: S, snapshots: SS) -> (r: Self)
        ensures
            r.store() == store,
            r.snapshots() == snapshots,
    {
        SnapshotRepository { store, snapshots, strategy: PhantomData }
    }

    /// The event store of the repository.
    #[must_use]
    pub fn event_store(&self) -> (r: &S)
        ensures
            *r == self.store(),
    {
        &self.store
    }

    /// The snapshot store of the repository.
    #[must_use]
    pub fn snapshot_store(&self) -> (r: &SS)
        ensures
            *r == self.snapshots(),
    {
        &self.snapshots
    }

    /// A builder of projections over the events of the repository.
    pub fn build_projection<P>(&self) -> (r: ProjectionBuilder<'_, S, P>) where P: Projection
        ensures
            r.store() == self.store(),
            r.filters() == Seq::<EventFilter<S::Id, S::Position>>::empty(),
            forall|
                stored: StoredEvent<S::Id, S::Position, S::Metadata>,
                before: P,
                after: P,
                result: Result<(), HandlerError<CodecError<S>>>,
            | #[trigger]
                r.responds(stored, before, after, result) == (after == before && result is Ok),
    {
        ProjectionBuilder::new(&self.store)
    }

    /// A builder that loads aggregates of one type.
    pub fn aggregate_builder<A>(&self) -> (r: AggregateBuilder<'_, Self, A>) where
        A: Aggregate<Id = S::Id>,

        ensures
            r.repository() == *self,
    {
        AggregateBuilder::new(self)
    }

    /// Loads an aggregate, from a snapshot where there is one.
    pub fn load<A>(&self, id: &S::Id) -> (r: Result<A, LoadError<S>>) where
        A: Aggregate<Id = S::Id> + serde::de::DeserializeOwned,
        A::Event: ProjectionEvent<S::Codec>,

        ensures
            exists|loaded: Result<LoadedAggregate<A>, LoadError<S>>| #[trigger]
                restores(self.store(), self.snapshots(), id.key(), loaded) && r == aggregate_of(loaded),
    {
        match self.load_aggregate::<A>(id) {
            Ok(loaded) => Ok(loaded.aggregate),
            Err(error) => Err(error),
        }
    }

    /// Loads an aggregate from a snapshot where there is one, and counts the events that were
    /// replayed.
    fn load_aggregate<A>(&self, id: &S::Id) -> (r: Result<
        LoadedAggregate<A>,
        LoadError<S>,
    >) where
        A: Aggregate<Id = S::Id> + serde::de::DeserializeOwned,
        A::Event: ProjectionEvent<S::Codec>,

        ensures
            restores(self.store(), self.snapshots(), id.key(), r),
    {
        let found = self.snapshots.load(A::KIND, id);
        match found {
            Ok(Some(snapshot)) => {
                let decoded: Result<A, CodecError<S>> = self.store.codec().deserialize(
                    snapshot.data.as_slice(),
                );
                assert(decodes(self.store.used_codec(), snapshot.data@, decoded));
                match decoded {
                    Ok(start) => catch_up(&self.store, id, start, Some(snapshot.position)),
                    Err(error) => Err(ProjectionError::SnapshotDeserialize(error)),
                }
            },
            _ => {
                let start = A::default();
                assert(fresh(start));
                catch_up(&self.store, id, start, None)
            },
        }
    }
}

/// Running a command with snapshots `n` times in a row, with a conflict each time, may lead from
/// one pair of stores to the other.
pub open spec fn conflicts_with_snapshots<S, SS, A, Cmd>(
    n: nat,
    before: S,
    snapshots_before: SS,
    aggregate_id: <S::Id as AggregateId>::Key,
    command: Cmd,
    metadata: S::Metadata,
    after: S,
    snapshots_after: SS,
) -> bool where
    S: EventStore,
    S::Metadata: Clone,
    SS: SnapshotStore<Id = S::Id, Position = S::Position>,
    A: Aggregate<Id = S::Id> + Handle<Cmd> + serde::Serialize + serde::de::DeserializeOwned,
    A::Event: ProjectionEvent<S::Codec> + SerializableEvent<S::Codec>,

    decreases n,
{
    if n == 0 {
        after == before && snapshots_after == snapshots_before
    } else {
        exists|middle: S, snapshots_middle: SS, error: ConcurrencyConflict<S::Position>|
            {
                &&& conflicts_with_snapshots::<S, SS, A, Cmd>(
                    (n - 1) as nat,
                    before,
                    snapshots_before,
                    aggregate_id,
                    command,
                    metadata,
                    middle,
                    snapshots_middle,
                )
                &&& #[trigger] executes_with_snapshots::<S, SS, A, Cmd>(
                    true,
                    middle,
                    snapshots_middle,
                    aggregate_id,
                    command,
                    metadata,
                    after,
                    snapshots_after,
                    Err(OptimisticSnapshotCommandError::Concurrency(error)),
                )
            }
    }
}

/// Running a command with snapshots and up to `max_retries` repetitions on conflicts may give
/// `result` and leave the two stores as `after` and `snapshots_after`.
///
/// The number is that of the attempts. An error other than a conflict ends the attempts at once, a
/// conflict only when no repetition is left.
pub open spec fn retries_with_snapshots<S, SS, A, Cmd>(
    max_retries: nat,
    before: S,
    snapshots_before: SS,
    aggregate_id: <S::Id as AggregateId>::Key,
    command: Cmd,
    metadata: S::Metadata,
    after: S,
    snapshots_after: SS,
    result: Result<usize, OptimisticSnapshotCommandError<
        A::Error,
        S::Position,
        S::Error,
        CodecError<S>,
        SS::Error,
    >>,
) -> bool where
    S: EventStore,
    S::Metadata: Clone,
    SS: SnapshotStore<Id = S::Id, Position = S::Position>,
    A: Aggregate<Id = S::Id> + Handle<Cmd> + serde::Serialize + serde::de::DeserializeOwned,
    A::Event: ProjectionEvent<S::Codec> + SerializableEvent<S::Codec>,
 {
    exists|n: nat, middle: S, snapshots_middle: SS|
        {
            &&& n <= max_retries
            &&& #[trigger] conflicts_with_snapshots::<S, SS, A, Cmd>(
                n,
                before,
                snapshots_before,
                aggregate_id,
                command,
                metadata,
                middle,
                snapshots_middle,
            )
            &&& match result {
                Ok(attempts) => attempts == attempts_after(n) && executes_with_snapshots::<
                    S,
                    SS,
                    A,
                    Cmd,
                >(
                    true,
                    middle,
                    snapshots_middle,
                    aggregate_id,
                    command,
                    metadata,
                    after,
                    snapshots_after,
                    Ok(()),
                ),
                Err(error) => (error is Concurrency ==> n == max_retries)
                    && executes_with_snapshots::<S, SS, A, Cmd>(
                    true,
                    middle,
                    snapshots_middle,
                    aggregate_id,
                    command,
                    metadata,
                    after,
                    snapshots_after,
                    Err(error),
                ),
            }
        }
}

/// Why a snapshot could not be offered.
enum OfferError<StoreError, SnapshotError> {
    Store(StoreError),
    Snapshot(SnapshotError),
}

/// The outcome of an offer, among the outcomes of a command.
spec fn offer_outcome<AggregateError, Position, StoreError, CodecError, SnapshotError>(
    result: Result<(), OfferError<StoreError, SnapshotError>>,
) -> Result<
    (),
    OptimisticSnapshotCommandError<
        AggregateError,
        Position,
        StoreError,
        CodecError,
        SnapshotError,
    >,
> {
    match result {
        Ok(done) => Ok(done),
        Err(OfferError::Store(e)) => Err(OptimisticSnapshotCommandError::Store(e)),
        Err(OfferError::Snapshot(e)) => Err(OptimisticSnapshotCommandError::Snapshot(e)),
    }
}

/// Offers a prepared snapshot, after the events of a command were stored.
fn offer_prepared<S, SS, A>(
    store: &S,
    snapshots: &mut SS,
    aggregate_id: &S::Id,
    total: u64,
    prepared: Option<Vec<u8>>,
) -> (r: Result<(), OfferError<S::Error, SS::Error>>) where
    S: EventStore,
    SS: SnapshotStore<Id = S::Id, Position = S::Position>,
    A: Aggregate<Id = S::Id>,

    requires
        has_version(*store, A::KIND@, aggregate_id.key()),
    ensures
        offers::<S, SS, A>(
            *store,
            *old(snapshots),
            aggregate_id.key(),
            total,
            match prepared {
                Some(bytes) => Some(bytes@),
                None => None,
            },
            *final(snapshots),
            offer_outcome(r),
        ),
{
    let data = match prepared {
        Some(data) => data,
        None => return Ok(()),
    };
    let reported = store.stream_version(A::KIND, aggregate_id);
    assert(store.reports(A::KIND@, aggregate_id.key(), reported));
    let position = match reported {
        Ok(Some(position)) => position,
        Ok(None) => vstd::pervasive::unreached(),
        Err(error) => return Err(OfferError::Store(error)),
    };
    let snapshot = Snapshot { position, data };
    match snapshots.offer_snapshot(A::KIND, aggregate_id, snapshot, total) {
        Ok(()) => Ok(()),
        Err(error) => Err(OfferError::Snapshot(error)),
    }
}

impl<S, SS> SnapshotRepository<S, SS, Unchecked> where
    S: EventStore,
    SS: SnapshotStore<Id = S::Id, Position = S::Position>,
 {
    /// Runs a command without version checking, and offers a snapshot where one is wanted.
    ///
    /// The error says whether the aggregate refused the command, could not be rebuilt, whether its
    /// events or the snapshot could not be encoded, or whether one of the stores failed. A failure
    /// of the snapshot store comes after the events were stored.
    pub fn execute_command<A, Cmd>(
        &mut self,
        id: &S::Id,
        command: &Cmd,
        metadata: &S::Metadata,
    ) -> (r: Result<
        (),
        SnapshotCommandError<A::Error, S::Error, CodecError<S>, SS::Error>,
    >) where
        A: Aggregate<Id = S::Id> + Handle<Cmd> + serde::Serialize + serde::de::DeserializeOwned,
        A::Event: ProjectionEvent<S::Codec> + SerializableEvent<S::Codec>,
        S::Metadata: Clone,

        ensures
            executes_with_snapshots::<S, SS, A, Cmd>(
                false,
                old(self).store(),
                old(self).snapshots(),
                id.key(),
                *command,
                *metadata,
                final(self).store(),
                final(self).snapshots(),
                without_snapshot_conflict(r),
            ),
    {
        assert(expects(false, self.store, A::KIND@, id.key(), Ok(None)));
        let loaded = match self.load_aggregate::<A>(id) {
            Ok(loaded) => loaded,
            Err(error) => return Err(SnapshotCommandError::Projection(error)),
        };
        let new_events = match loaded.aggregate.handle(command) {
            Ok(new_events) => new_events,
            Err(error) => return Err(SnapshotCommandError::Aggregate(error)),
        };
        if new_events.is_empty() {
            return Ok(());
        }
        let (prepared, total) = maybe_snapshot_bytes(
            &self.store,
            &self.snapshots,
            id,
            loaded.aggregate,
            loaded.events_since_snapshot,
            &new_events,
        );
        let snapshot_bytes = match prepared {
            Ok(snapshot_bytes) => snapshot_bytes,
            Err(error) => return Err(SnapshotCommandError::Codec(error)),
        };
        let stored = store_unchecked::<S, A>(
            &mut self.store,
            id,
            new_events,
            metadata,
        );
        match stored {
            Ok(()) => {},
            Err(CommandError::Aggregate(error)) => return Err(
                SnapshotCommandError::Aggregate(error),
            ),
            Err(CommandError::Projection(error)) => return Err(
                SnapshotCommandError::Projection(error),
            ),
            Err(CommandError::Codec(error)) => return Err(SnapshotCommandError::Codec(error)),
            Err(CommandError::Store(error)) => return Err(SnapshotCommandError::Store(error)),
        }
        match offer_prepared::<S, SS, A>(
            &self.store,
            &mut self.snapshots,
            id,
            total,
            snapshot_bytes,
        ) {
            Ok(()) => Ok(()),
            Err(OfferError::Store(error)) => Err(SnapshotCommandError::Store(error)),
            Err(OfferError::Snapshot(error)) => Err(SnapshotCommandError::Snapshot(error)),
        }
    }
}

impl<S, SS> SnapshotRepository<S, SS, Optimistic> where
    S: EventStore,
    SS: SnapshotStore<Id = S::Id, Position = S::Position>,
 {
    /// Runs a command with version checking, and offers a snapshot where one is wanted.
    ///
    /// The error is [`OptimisticSnapshotCommandError::Concurrency`] if the stream changed between
    /// loading and committing. A failure of the snapshot store comes after the events were stored.
    pub fn execute_command<A, Cmd>(
        &mut self,
        id: &S::Id,
        command: &Cmd,
        metadata: &S::Metadata,
    ) -> (r: Result<
        (),
        OptimisticSnapshotCommandError<
            A::Error,
            S::Position,
            S::Error,
            CodecError<S>,
            SS::Error,
        >,
    >) where
        A: Aggregate<Id = S::Id> + Handle<Cmd> + serde::Serialize + serde::de::DeserializeOwned,
        A::Event: ProjectionEvent<S::Codec> + SerializableEvent<S::Codec>,
        S::Metadata: Clone,

        ensures
            executes_with_snapshots::<S, SS, A, Cmd>(
                true,
                old(self).store(),
                old(self).snapshots(),
                id.key(),
                *command,
                *metadata,
                final(self).store(),
                final(self).snapshots(),
                r,
            ),
    {
        let reported = self.store.stream_version(A::KIND, id);
        assert(expects(true, self.store, A::KIND@, id.key(), reported));
        let version = match reported {
            Ok(version) => version,
            Err(error) => return Err(
                OptimisticSnapshotCommandError::Projection(ProjectionError::Store(error)),
            ),
        };
        let loaded = match self.load_aggregate::<A>(id) {
            Ok(loaded) => loaded,
            Err(error) => return Err(OptimisticSnapshotCommandError::Projection(error)),
        };
        let new_events = match loaded.aggregate.handle(command) {
            Ok(new_events) => new_events,
            Err(error) => return Err(OptimisticSnapshotCommandError::Aggregate(error)),
        };
        if new_events.is_empty() {
            return Ok(());
        }
        let (prepared, total) = maybe_snapshot_bytes(
            &self.store,
            &self.snapshots,
            id,
            loaded.aggregate,
            loaded.events_since_snapshot,
            &new_events,
        );
        let snapshot_bytes = match prepared {
            Ok(snapshot_bytes) => snapshot_bytes,
            Err(error) => return Err(OptimisticSnapshotCommandError::Codec(error)),
        };
        let stored = store_checked::<S, A>(
            &mut self.store,
            id,
            version,
            new_events,
            metadata,
        );
        match stored {
            Ok(()) => {},
            Err(OptimisticCommandError::Aggregate(error)) => return Err(
                OptimisticSnapshotCommandError::Aggregate(error),
            ),
            Err(OptimisticCommandError::Concurrency(conflict)) => return Err(
                OptimisticSnapshotCommandError::Concurrency(conflict),
            ),
            Err(OptimisticCommandError::Projection(error)) => return Err(
                OptimisticSnapshotCommandError::Projection(error),
            ),
            Err(OptimisticCommandError::Codec(error)) => return Err(
                OptimisticSnapshotCommandError::Codec(error),
            ),
            Err(OptimisticCommandError::Store(error)) => return Err(
                OptimisticSnapshotCommandError::Store(error),
            ),
        }
        match offer_prepared::<S, SS, A>(
            &self.store,
            &mut self.snapshots,
            id,
            total,
            snapshot_bytes,
        ) {
            Ok(()) => Ok(()),
            Err(OfferError::Store(error)) => Err(OptimisticSnapshotCommandError::Store(error)),
            Err(OfferError::Snapshot(error)) => Err(
                OptimisticSnapshotCommandError::Snapshot(error),
            ),
        }
    }

    /// Runs a command, again up to `max_retries` times while there are conflicts.
    ///
    /// The result is the number of attempts. An error other than a conflict is returned at once, a
    /// conflict when no attempt is left.
    pub fn execute_with_retry<A, Cmd>(
        &mut self,
        id: &S::Id,
        command: &Cmd,
        metadata: &S::Metadata,
        max_retries: usize,
    ) -> (r: Result<
        usize,
        OptimisticSnapshotCommandError<
            A::Error,
            S::Position,
            S::Error,
            CodecError<S>,
            SS::Error,
        >,
    >) where
        A: Aggregate<Id = S::Id> + Handle<Cmd> + serde::Serialize + serde::de::DeserializeOwned,
        A::Event: ProjectionEvent<S::Codec> + SerializableEvent<S::Codec>,
        S::Metadata: Clone,

        ensures
            retries_with_snapshots::<S, SS, A, Cmd>(
                max_retries as nat,
                old(self).store(),
                old(self).snapshots(),
                id.key(),
                *command,
                *metadata,
                final(self).store(),
                final(self).snapshots(),
                r,
            ),
    {
        for attempt in 0..max_retries
            invariant
                conflicts_with_snapshots::<S, SS, A, Cmd>(
                    attempt as nat,
                    old(self).store(),
                    old(self).snapshots(),
                    id.key(),
                    *command,
                    *metadata,
                    self.store(),
                    self.snapshots(),
                ),
        {
            let ghost middle = self.store();
            let ghost snapshots_middle = self.snapshots();
            match self.execute_command::<A, Cmd>(id, command, metadata) {
                Ok(()) => {
                    assert(conflicts_with_snapshots::<S, SS, A, Cmd>(
                        attempt as nat,
                        old(self).store(),
                        old(self).snapshots(),
                        id.key(),
                        *command,
                        *metadata,
                        middle,
                        snapshots_middle,
                    ));
                    return Ok(attempt + 1);
                },
                Err(OptimisticSnapshotCommandError::Concurrency(_)) => {},
                Err(error) => {
                    assert(conflicts_with_snapshots::<S, SS, A, Cmd>(
                        attempt as nat,
                        old(self).store(),
                        old(self).snapshots(),
                        id.key(),
                        *command,
                        *metadata,
                        middle,
                        snapshots_middle,
                    ));
                    return Err(error);
                },
            }
        }
        match self.execute_command::<A, Cmd>(id, command, metadata) {
            Ok(()) => Ok(max_retries.saturating_add(1)),
            Err(error) => Err(error),
        }
    }
}

} // verus!
