//! Repositories: load aggregates, run commands on them, and append the events that follow.

use vstd::prelude::*;
use std::marker::PhantomData;
use crate::aggregate::{
    apply_stored_events, fresh, replays, Aggregate, AggregateBuilder, Handle,
};
use crate::codec::{Codec, ProjectionEvent, SerializableEvent};
use crate::concurrency::{ConcurrencyConflict, ConcurrencyStrategy, Optimistic, Unchecked};
use crate::id::AggregateId;
use crate::projection::{HandlerError, Projection, ProjectionBuilder, ProjectionError};
pub use crate::error::{
    CommandError, OptimisticCommandError, OptimisticSnapshotCommandError, SnapshotCommandError,
};
use crate::snapshot::SnapshotStore;
pub use crate::snapshot_repository::SnapshotRepository;
use crate::store::{
    has_version, instance_filters, store_failure, AppendError, EventFilter, EventStore,
    PersistableEvent, StoredEvent, Transaction,
};

verus! {

/// Error of loading an aggregate.
pub type LoadError<S> = ProjectionError<
    <S as EventStore>::Error,
    <<S as EventStore>::Codec as Codec>::Error,
>;

/// Error of a codec of a store.
pub type CodecError<S> = <<S as EventStore>::Codec as Codec>::Error;

/// An aggregate as it was loaded.
pub struct LoadedAggregate<A> {
    pub aggregate: A,
    /// The number of events that were replayed.
    pub events_since_snapshot: u64,
}

/// The filters may load the stored events, which lead from `start` to the loaded aggregate.
pub open spec fn caught_up<S: EventStore, A: Aggregate<Id = S::Id>>(
    store: S,
    start: A,
    filters: Seq<EventFilter<S::Id, S::Position>>,
    stored: Seq<StoredEvent<S::Id, S::Position, S::Metadata>>,
    loaded: LoadedAggregate<A>,
) -> bool where A::Event: ProjectionEvent<S::Codec> {
    &&& store.loads(filters, Ok(stored))
    &&& replays(store.used_codec(), start, stored, Ok(loaded.aggregate))
    &&& loaded.events_since_snapshot == stored.len()
}

/// Replaying what the filters load, on the state `start`, may give `result`.
pub open spec fn replayed<S: EventStore, A: Aggregate<Id = S::Id>>(
    store: S,
    start: A,
    filters: Seq<EventFilter<S::Id, S::Position>>,
    result: Result<LoadedAggregate<A>, LoadError<S>>,
) -> bool where A::Event: ProjectionEvent<S::Codec> {
    match result {
        Ok(loaded) => exists|stored: Seq<StoredEvent<S::Id, S::Position, S::Metadata>>|
            #[trigger] caught_up(store, start, filters, stored, loaded),
        Err(ProjectionError::Store(error)) => store.loads(filters, Err(error)),
        Err(ProjectionError::EventDecode(error)) => exists|
            stored: Seq<StoredEvent<S::Id, S::Position, S::Metadata>>,
        |
            #[trigger] store.loads(filters, Ok(stored)) && replays(
                store.used_codec(),
                start,
                stored,
                Err(error),
            ),
        Err(_) => false,
    }
}

/// Replaying the stored events of an aggregate instance after a position, on the state `start`,
/// may give `result`.
pub open spec fn catches_up<S: EventStore, A: Aggregate<Id = S::Id>>(
    store: S,
    aggregate_id: <S::Id as AggregateId>::Key,
    start: A,
    after: Option<S::Position>,
    result: Result<LoadedAggregate<A>, LoadError<S>>,
) -> bool where A::Event: ProjectionEvent<S::Codec> {
    exists|filters: Seq<EventFilter<S::Id, S::Position>>|
        {
            &&& #[trigger] instance_filters(
                A::Event::EVENT_KINDS@,
                A::KIND@,
                aggregate_id,
                after,
                filters,
            )
            &&& replayed(store, start, filters, result)
        }
}

/// Loading an aggregate by a full replay may give `result`.
pub open spec fn rebuilds<S: EventStore, A: Aggregate<Id = S::Id>>(
    store: S,
    aggregate_id: <S::Id as AggregateId>::Key,
    result: Result<LoadedAggregate<A>, LoadError<S>>,
) -> bool where A::Event: ProjectionEvent<S::Codec> {
    exists|start: A| #[trigger] fresh(start) && catches_up(store, aggregate_id, start, None, result)
}

/// The aggregate of a loading result.
pub open spec fn aggregate_of<A, E>(loaded: Result<LoadedAggregate<A>, E>) -> Result<
    A,
    E,
> {
    match loaded {
        Ok(loaded) => Ok(loaded.aggregate),
        Err(error) => Err(error),
    }
}

/// The filters that load the events of an aggregate instance.
pub(crate) fn aggregate_event_filters<S, E>(
    aggregate_kind: &str,
    aggregate_id: &S::Id,
    after: Option<S::Position>,
) -> (r: Vec<EventFilter<S::Id, S::Position>>) where S: EventStore, E: ProjectionEvent<S::Codec>
    ensures
        instance_filters(E::EVENT_KINDS@, aggregate_kind@, aggregate_id.key(), after, r@),
{
    let kinds: &'static [&'static str] = E::EVENT_KINDS;
    let mut filters: Vec<EventFilter<S::Id, S::Position>> = Vec::new();
    for i in 0..kinds.len()
        invariant
            kinds@ == E::EVENT_KINDS@,
            instance_filters(
                kinds@.take(i as int),
                aggregate_kind@,
                aggregate_id.key(),
                after,
                filters@,
            ),
    {
        let mut filter = EventFilter::for_instance(
            kinds[i],
            aggregate_kind,
            aggregate_id.duplicate(),
        );
        if let Some(position) = after {
            filter = filter.after(position);
        }
        filters.push(filter);
    }
    assert(kinds@.take(kinds@.len() as int) =~= kinds@);
    filters
}

/// Replays the stored events of an aggregate instance after a position, on the state `start`.
pub(crate) fn catch_up<S, A>(
    store: &S,
    aggregate_id: &S::Id,
    start: A,
    after: Option<S::Position>,
) -> (r: Result<LoadedAggregate<A>, LoadError<S>>) where
    S: EventStore,
    A: Aggregate<Id = S::Id>,
    A::Event: ProjectionEvent<S::Codec>,

    ensures
        catches_up(*store, aggregate_id.key(), start, after, r),
{
    let filters = aggregate_event_filters::<S, A::Event>(A::KIND, aggregate_id, after);
    let r = replay(store, start, &filters);
    assert(replayed(*store, start, filters@, r));
    r
}

/// Replays what the filters load, on the state `start`.
fn replay<S, A>(
    store: &S,
    start: A,
    filters: &Vec<EventFilter<S::Id, S::Position>>,
) -> (r: Result<LoadedAggregate<A>, LoadError<S>>) where
    S: EventStore,
    A: Aggregate<Id = S::Id>,
    A::Event: ProjectionEvent<S::Codec>,

    ensures
        replayed(*store, start, filters@, r),
{
    match store.load_events(filters.as_slice()) {
        Err(error) => Err(ProjectionError::Store(error)),
        Ok(events) => {
            let ghost stored = events@;
            assert(store.loads(filters@, Ok(stored)));
            let mut aggregate = start;
            match apply_stored_events(&mut aggregate, store.codec(), &events) {
                Err(error) => Err(ProjectionError::EventDecode(error)),
                Ok(()) => {
                    let loaded = LoadedAggregate {
                        aggregate,
                        events_since_snapshot: events.len() as u64,
                    };
                    assert(caught_up(*store, start, filters@, stored, loaded));
                    let r: Result<LoadedAggregate<A>, LoadError<S>> = Ok(loaded);
                    assert(r->Ok_0 == loaded);
                    r
                },
            }
        },
    }
}

/// The events may be written down as the batch, one by one, each with a clone of the metadata.
pub open spec fn written_as<E: SerializableEvent<C>, C: Codec, M: Clone>(
    codec: C,
    events: Seq<E>,
    metadata: M,
    batch: Seq<PersistableEvent<M>>,
) -> bool {
    &&& batch.len() == events.len()
    &&& forall|i: int|
        0 <= i < events.len() ==> {
            &&& events[i].persists(codec, Ok(((#[trigger] batch[i]).kind@, batch[i].data@)))
            &&& cloned(metadata, batch[i].metadata)
        }
}

/// Writing the events down, each with a clone of the metadata, may give `result`: the batch, or
/// the error of the first event that cannot be written.
pub open spec fn writes_down<E: SerializableEvent<C>, C: Codec, M: Clone>(
    codec: C,
    events: Seq<E>,
    metadata: M,
    result: Result<Seq<PersistableEvent<M>>, C::Error>,
) -> bool {
    match result {
        Ok(batch) => written_as(codec, events, metadata, batch),
        Err(error) => exists|n: int, batch: Seq<PersistableEvent<M>>|
            {
                &&& 0 <= n < events.len()
                &&& #[trigger] written_as(codec, events.take(n), metadata, batch)
                &&& events[n].persists(codec, Err(error))
            },
    }
}

/// Adds the events to the batch of a transaction.
fn append_all<S, C, E>(
    tx: &mut Transaction<'_, S, C>,
    events: Vec<E>,
    metadata: &S::Metadata,
) -> (r: Result<(), CodecError<S>>) where
    S: EventStore,
    S::Metadata: Clone,
    C: ConcurrencyStrategy,
    E: SerializableEvent<S::Codec>,

    requires
        old(tx).events@.len() == 0,
    ensures
        *final(tx).store == *old(tx).store,
        *final(final(tx).store) == *final(old(tx).store),
        final(tx).aggregate_kind == old(tx).aggregate_kind,
        final(tx).aggregate_id == old(tx).aggregate_id,
        final(tx).expected_version == old(tx).expected_version,
        match r {
            Ok(()) => writes_down(
                old(tx).store.used_codec(),
                events@,
                *metadata,
                Ok(final(tx).events@),
            ),
            Err(error) => writes_down(
                old(tx).store.used_codec(),
                events@,
                *metadata,
                Err(error),
            ),
        },
{
    let ghost codec = tx.store.used_codec();
    for event in it: events
        invariant
            it.seq() == events@,
            codec == old(tx).store.used_codec(),
            *tx.store == *old(tx).store,
            *final(tx.store) == *final(old(tx).store),
            tx.aggregate_kind == old(tx).aggregate_kind,
            tx.aggregate_id == old(tx).aggregate_id,
            tx.expected_version == old(tx).expected_version,
            written_as(codec, events@.take(it.index()), *metadata, tx.events@),
    {
        let ghost n = it.index();
        let ghost before = tx.events@;
        match tx.append(event, metadata.clone()) {
            Ok(()) => {
                proof {
                    let after = tx.events@;
                    let head = events@.take(n);
                    let next = events@.take(n + 1);
                    assert forall|i: int| 0 <= i < next.len() implies {
                        &&& next[i].persists(
                            codec,
                            Ok(((#[trigger] after[i]).kind@, after[i].data@)),
                        )
                        &&& cloned(*metadata, after[i].metadata)
                    } by {
                        if i < n {
                            assert(after[i] == before[i]);
                            assert(head[i].persists(codec, Ok((before[i].kind@, before[i].data@))));
                        }
                    }
                }
            },
            Err(error) => {
                assert(written_as(codec, events@.take(n), *metadata, before));
                return Err(error);
            },
        }
    }
    assert(events@.take(events@.len() as int) =~= events@);
    Ok(())
}

/// Committing a batch may give `result` and leave the store as `after`.
///
/// With version checking the stream must still have the version that was loaded, or be new where
/// none was; without, the batch is appended in any case.
pub open spec fn commits<S: EventStore>(
    checked: bool,
    before: S,
    aggregate_kind: Seq<char>,
    aggregate_id: <S::Id as AggregateId>::Key,
    version: Option<S::Position>,
    batch: Seq<PersistableEvent<S::Metadata>>,
    after: S,
    result: Result<(), AppendError<S::Position, S::Error>>,
) -> bool {
    if checked {
        Transaction::<S, Optimistic>::commits(
            before,
            aggregate_kind,
            aggregate_id,
            version,
            batch,
            after,
            result,
        )
    } else {
        before.appends(aggregate_kind, aggregate_id, None, batch, after, result)
    }
}

/// Writing the events of a command to the stream of an aggregate instance may give `result` and
/// leave the store as `after`.
pub open spec fn stores<S: EventStore, A: Aggregate<Id = S::Id>>(
    checked: bool,
    before: S,
    aggregate_id: <S::Id as AggregateId>::Key,
    version: Option<S::Position>,
    events: Seq<A::Event>,
    metadata: S::Metadata,
    after: S,
    result: Result<(), OptimisticCommandError<A::Error, S::Position, S::Error, CodecError<S>>>,
) -> bool where A::Event: SerializableEvent<S::Codec>, S::Metadata: Clone {
    exists|written: Result<Seq<PersistableEvent<S::Metadata>>, CodecError<S>>|
        {
            &&& #[trigger] writes_down(before.used_codec(), events, metadata, written)
            &&& match written {
                Err(error) => {
                    &&& after == before
                    &&& result matches Err(OptimisticCommandError::Codec(e)) && e == error
                },
                Ok(batch) => exists|done: Result<(), AppendError<S::Position, S::Error>>|
                    {
                        &&& #[trigger] commits(
                            checked,
                            before,
                            A::KIND@,
                            aggregate_id,
                            version,
                            batch,
                            after,
                            done,
                        )
                        &&& match done {
                            Ok(()) => result is Ok,
                            Err(AppendError::Conflict(conflict)) => result matches Err(
                                OptimisticCommandError::Concurrency(e),
                            ) && e == conflict,
                            Err(AppendError::Store(error)) => result matches Err(
                                OptimisticCommandError::Store(e),
                            ) && e == error,
                        }
                    },
            }
        }
}

/// The version that a command is to find when it commits may be `reported`.
///
/// With version checking it is the version of the stream; without, the store is not asked.
pub open spec fn expects<S: EventStore>(
    checked: bool,
    store: S,
    aggregate_kind: Seq<char>,
    aggregate_id: <S::Id as AggregateId>::Key,
    reported: Result<Option<S::Position>, S::Error>,
) -> bool {
    if checked {
        store.reports(aggregate_kind, aggregate_id, reported)
    } else {
        reported == Ok::<Option<S::Position>, S::Error>(None)
    }
}

/// Running a command that expects a version may give `result` and leave the store as `after`.
///
/// The aggregate is rebuilt by a full replay and handles the command. A command that is refused,
/// or that brings about no events, changes nothing; the events of any other are stored.
pub open spec fn runs<S: EventStore, A: Aggregate<Id = S::Id> + Handle<Cmd>, Cmd>(
    checked: bool,
    version: Option<S::Position>,
    before: S,
    aggregate_id: <S::Id as AggregateId>::Key,
    command: Cmd,
    metadata: S::Metadata,
    after: S,
    result: Result<(), OptimisticCommandError<A::Error, S::Position, S::Error, CodecError<S>>>,
) -> bool where
    A::Event: ProjectionEvent<S::Codec> + SerializableEvent<S::Codec>,
    S::Metadata: Clone,
 {
    exists|loaded: Result<LoadedAggregate<A>, LoadError<S>>|
        {
            &&& #[trigger] rebuilds(before, aggregate_id, loaded)
            &&& match loaded {
                Err(error) => {
                    &&& after == before
                    &&& result matches Err(OptimisticCommandError::Projection(e)) && e == error
                },
                Ok(loaded) => exists|handled: Result<Seq<A::Event>, A::Error>|
                    {
                        &&& #[trigger] loaded.aggregate.handles(command, handled)
                        &&& match handled {
                            Err(error) => {
                                &&& after == before
                                &&& result matches Err(OptimisticCommandError::Aggregate(e)) && e
                                    == error
                            },
                            Ok(events) => if events.len() == 0 {
                                after == before && result is Ok
                            } else {
                                stores::<S, A>(
                                    checked,
                                    before,
                                    aggregate_id,
                                    version,
                                    events,
                                    metadata,
                                    after,
                                    result,
                                )
                            },
                        }
                    },
            }
        }
}

/// Running a command may give `result` and leave the store as `after`.
///
/// With version checking the version of the stream is asked for before the events are loaded, so
/// that an event that another writer adds in between leads to a conflict. Where the version cannot
/// be told, the aggregate counts as not rebuilt.
pub open spec fn executes<S: EventStore, A: Aggregate<Id = S::Id> + Handle<Cmd>, Cmd>(
    checked: bool,
    before: S,
    aggregate_id: <S::Id as AggregateId>::Key,
    command: Cmd,
    metadata: S::Metadata,
    after: S,
    result: Result<(), OptimisticCommandError<A::Error, S::Position, S::Error, CodecError<S>>>,
) -> bool where
    A::Event: ProjectionEvent<S::Codec> + SerializableEvent<S::Codec>,
    S::Metadata: Clone,
 {
    exists|reported: Result<Option<S::Position>, S::Error>|
        {
            &&& #[trigger] expects(checked, before, A::KIND@, aggregate_id, reported)
            &&& match reported {
                Err(error) => {
                    &&& after == before
                    &&& result matches Err(
                        OptimisticCommandError::Projection(ProjectionError::Store(e)),
                    ) && e == error
                },
                Ok(version) => runs::<S, A, Cmd>(
                    checked,
                    version,
                    before,
                    aggregate_id,
                    command,
                    metadata,
                    after,
                    result,
                ),
            }
        }
}

/// The outcome of a command without version checking, among the outcomes of those with it.
pub open spec fn without_conflict<AggregateError, Position, StoreError, CodecError>(
    result: Result<(), CommandError<AggregateError, StoreError, CodecError>>,
) -> Result<(), OptimisticCommandError<AggregateError, Position, StoreError, CodecError>> {
    match result {
        Ok(done) => Ok(done),
        Err(CommandError::Aggregate(error)) => Err(OptimisticCommandError::Aggregate(error)),
        Err(CommandError::Projection(error)) => Err(OptimisticCommandError::Projection(error)),
        Err(CommandError::Codec(error)) => Err(OptimisticCommandError::Codec(error)),
        Err(CommandError::Store(error)) => Err(OptimisticCommandError::Store(error)),
    }
}

/// Writes the events of a command to the stream of an aggregate instance, without version checking.
pub(crate) fn store_unchecked<S, A>(
    store: &mut S,
    aggregate_id: &S::Id,
    events: Vec<A::Event>,
    metadata: &S::Metadata,
) -> (r: Result<(), CommandError<A::Error, S::Error, CodecError<S>>>) where
    S: EventStore,
    S::Metadata: Clone,
    A: Aggregate<Id = S::Id>,
    A::Event: SerializableEvent<S::Codec>,

    ensures
        stores::<S, A>(
            false,
            *old(store),
            aggregate_id.key(),
            None,
            events@,
            *metadata,
            *final(store),
            without_conflict(r),
        ),
        r is Ok && events@.len() > 0 ==> has_version(*final(store), A::KIND@, aggregate_id.key()),
{
    let mut tx = store.begin::<Unchecked>(A::KIND, aggregate_id.duplicate(), None);
    match append_all(&mut tx, events, metadata) {
        Err(error) => {
            return Err(CommandError::Codec(error));
        },
        Ok(()) => {},
    }
    let ghost batch = tx.events@;
    match tx.commit() {
        Ok(()) => {
            assert(commits(
                false,
                *old(store),
                A::KIND@,
                aggregate_id.key(),
                None,
                batch,
                *store,
                Ok(()),
            ));
            Ok(())
        },
        Err(error) => {
            assert(commits(
                false,
                *old(store),
                A::KIND@,
                aggregate_id.key(),
                None,
                batch,
                *store,
                Err(AppendError::Store(error)),
            ));
            Err(CommandError::Store(error))
        },
    }
}

/// Writes the events of a command to the stream of an aggregate instance, unless its version is no
/// longer the expected one.
pub(crate) fn store_checked<S, A>(
    store: &mut S,
    aggregate_id: &S::Id,
    version: Option<S::Position>,
    events: Vec<A::Event>,
    metadata: &S::Metadata,
) -> (r: Result<(), OptimisticCommandError<A::Error, S::Position, S::Error, CodecError<S>>>) where
    S: EventStore,
    S::Metadata: Clone,
    A: Aggregate<Id = S::Id>,
    A::Event: SerializableEvent<S::Codec>,

    ensures
        stores::<S, A>(
            true,
            *old(store),
            aggregate_id.key(),
            version,
            events@,
            *metadata,
            *final(store),
            r,
        ),
        r is Ok && events@.len() > 0 ==> has_version(*final(store), A::KIND@, aggregate_id.key()),
{
    let mut tx = store.begin::<Optimistic>(A::KIND, aggregate_id.duplicate(), version);
    match append_all(&mut tx, events, metadata) {
        Err(error) => {
            return Err(OptimisticCommandError::Codec(error));
        },
        Ok(()) => {},
    }
    let ghost batch = tx.events@;
    let done = tx.commit();
    assert(commits(true, *old(store), A::KIND@, aggregate_id.key(), version, batch, *store, done));
    match done {
        Ok(()) => Ok(()),
        Err(AppendError::Conflict(conflict)) => Err(OptimisticCommandError::Concurrency(conflict)),
        Err(AppendError::Store(error)) => Err(OptimisticCommandError::Store(error)),
    }
}

/// Running a command `n` times in a row, with a conflict each time, may lead from one store to the
/// other.
pub open spec fn conflicts<S: EventStore, A: Aggregate<Id = S::Id> + Handle<Cmd>, Cmd>(
    n: nat,
    before: S,
    aggregate_id: <S::Id as AggregateId>::Key,
    command: Cmd,
    metadata: S::Metadata,
    after: S,
) -> bool where
    A::Event: ProjectionEvent<S::Codec> + SerializableEvent<S::Codec>,
    S::Metadata: Clone,

    decreases n,
{
    if n == 0 {
        after == before
    } else {
        exists|middle: S, error: ConcurrencyConflict<S::Position>|
            {
                &&& conflicts::<S, A, Cmd>(
                    (n - 1) as nat,
                    before,
                    aggregate_id,
                    command,
                    metadata,
                    middle,
                )
                &&& #[trigger] executes::<S, A, Cmd>(
                    true,
                    middle,
                    aggregate_id,
                    command,
                    metadata,
                    after,
                    Err(OptimisticCommandError::Concurrency(error)),
                )
            }
    }
}

/// The number of attempts where `n` of them met a conflict and the next did not, or the largest
/// `usize` where it does not fit.
pub open spec fn attempts_after(n: nat) -> usize {
    if n < usize::MAX {
        (n + 1) as usize
    } else {
        usize::MAX
    }
}

/// Running a command with up to `max_retries` repetitions on conflicts may give `result` and leave
/// the store as `after`.
///
/// The number is that of the attempts. An error other than a conflict ends the attempts at once, a
/// conflict only when no repetition is left.
pub open spec fn retries<S: EventStore, A: Aggregate<Id = S::Id> + Handle<Cmd>, Cmd>(
    max_retries: nat,
    before: S,
    aggregate_id: <S::Id as AggregateId>::Key,
    command: Cmd,
    metadata: S::Metadata,
    after: S,
    result: Result<usize, OptimisticCommandError<A::Error, S::Position, S::Error, CodecError<S>>>,
) -> bool where
    A::Event: ProjectionEvent<S::Codec> + SerializableEvent<S::Codec>,
    S::Metadata: Clone,
 {
    exists|n: nat, middle: S|
        {
            &&& n <= max_retries
            &&& #[trigger] conflicts::<S, A, Cmd>(
                n,
                before,
                aggregate_id,
                command,
                metadata,
                middle,
            )
            &&& match result {
                Ok(attempts) => attempts == attempts_after(n) && executes::<S, A, Cmd>(
                    true,
                    middle,
                    aggregate_id,
                    command,
                    metadata,
                    after,
                    Ok(()),
                ),
                Err(error) => (error is Concurrency ==> n == max_retries) && executes::<S, A, Cmd>(
                    true,
                    middle,
                    aggregate_id,
                    command,
                    metadata,
                    after,
                    Err(error),
                ),
            }
        }
}

/// Repository without snapshots.
///
/// The strategy `C` decides whether commands check the stream version.
pub struct Repository<S, C = Optimistic> where S: EventStore, C: ConcurrencyStrategy {
    store: S,
    strategy: PhantomData<C>,
}

impl<S, C> Repository<S, C> where S: EventStore, C: ConcurrencyStrategy {
    /// The event store of the repository.
    pub closed spec fn store(&self) -> S {
        self.store
    }
}

impl<S> Repository<S, Optimistic> where S: EventStore {
    /// A repository over an event store, with version checking.
    #[must_use]
    pub fn new(store: S) -> (r: Self)
        ensures
            r.store() == store,
    {
        Repository { store, strategy: PhantomData }
    }

    /// The repository without version checking: the last writer wins.
    #[must_use]
    pub fn without_concurrency_checking(self) -> (r: Repository<S, Unchecked>)
        ensures
            r.store() == self.store(),
    {
        Repository { store: self.store, strategy: PhantomData }
    }
}

impl<S, C> Repository<S, C> where S: EventStore, C: ConcurrencyStrategy {
    /// The event store of the repository.
    #[must_use]
    pub fn event_store(&self) -> (r: &S)
        ensures
            *r == self.store(),
    {
        &self.store
    }

    /// The repository with a snapshot store.
    #[must_use]
    pub fn with_snapshots<SS>(self, snapshots: SS) -> (r: SnapshotRepository<S, SS, C>) where
        SS: SnapshotStore<Id = S::Id, Position = S::Position>,

        ensures
            r.store() == self.store(),
            r.snapshots() == snapshots,
    {
        SnapshotRepository::over(self.store, snapshots)
    }

    /// A builder of projections over the events of the repository.
    pub fn build_projection<P>(&self) -> (r: ProjectionBuilder<'_, S, P>) where P: Projection
        ensures
            r.store() == self.store(),
            r.filters() == Seq::<EventFilter<S::Id, S::Position>>::empty(),
            forall|
                stored: StoredEvent<S::Id, S::Position, S::Metadata>,
                before: P,
                after: P,
                result: Result<(), HandlerError<CodecError<S>>>,
            | #[trigger]
                r.responds(stored, before, after, result) == (after == before && result is Ok),
    {
        ProjectionBuilder::new(&self.store)
    }

    /// A builder that loads aggregates of one type.
    pub fn aggregate_builder<A>(&self) -> (r: AggregateBuilder<'_, Self, A>) where
        A: Aggregate<Id = S::Id>,

        ensures
            r.repository() == *self,
    {
        AggregateBuilder::new(self)
    }

    /// Loads an aggregate by replaying all its events.
    pub fn load<A>(&self, id: &S::Id) -> (r: Result<A, LoadError<S>>) where
        A: Aggregate<Id = S::Id>,
        A::Event: ProjectionEvent<S::Codec>,

        ensures
            exists|loaded: Result<LoadedAggregate<A>, LoadError<S>>| #[trigger]
                rebuilds(self.store(), id.key(), loaded) && r == aggregate_of(loaded),
    {
        match self.load_aggregate::<A>(id) {
            Ok(loaded) => Ok(loaded.aggregate),
            Err(error) => Err(error),
        }
    }

    /// Appends an event as it is to a stream, without version checking.
    pub(crate) fn append_raw(
        &mut self,
        aggregate_kind: &str,
        aggregate_id: &S::Id,
        event: PersistableEvent<S::Metadata>,
    ) -> (r: Result<(), S::Error>)
        ensures
            old(self).store().appends(
                aggregate_kind@,
                aggregate_id.key(),
                None,
                seq![event],
                final(self).store(),
                store_failure(r),
            ),
    {
        let mut events: Vec<PersistableEvent<S::Metadata>> = Vec::new();
        events.push(event);
        assert(events@ =~= seq![event]);
        match self.store.append(aggregate_kind, aggregate_id, None, events) {
            Ok(done) => Ok(done),
            Err(AppendError::Store(error)) => Err(error),
            Err(AppendError::Conflict(_)) => vstd::pervasive::unreached(),
        }
    }

    /// Loads an aggregate by replaying all its events, and counts them.
    fn load_aggregate<A>(&self, id: &S::Id) -> (r: Result<
        LoadedAggregate<A>,
        LoadError<S>,
    >) where A: Aggregate<Id = S::Id>, A::Event: ProjectionEvent<S::Codec>
        ensures
            rebuilds(self.store(), id.key(), r),
    {
        let start = A::default();
        assert(fresh(start));
        catch_up(&self.store, id, start, None)
    }
}

impl<S> Repository<S, Unchecked> where S: EventStore {
    /// Runs a command without version checking: the last writer wins.
    ///
    /// The error says whether the aggregate refused the command, could not be rebuilt, or whether
    /// its events could not be encoded or persisted.
    pub fn execute_command<A, Cmd>(
        &mut self,
        id: &S::Id,
        command: &Cmd,
        metadata: &S::Metadata,
    ) -> (r: Result<(), CommandError<A::Error, S::Error, CodecError<S>>>) where
        A: Aggregate<Id = S::Id> + Handle<Cmd>,
        A::Event: ProjectionEvent<S::Codec> + SerializableEvent<S::Codec>,
        S::Metadata: Clone,

        ensures
            executes::<S, A, Cmd>(
                false,
                old(self).store(),
                id.key(),
                *command,
                *metadata,
                final(self).store(),
                without_conflict(r),
            ),
    {
        assert(expects(false, self.store, A::KIND@, id.key(), Ok(None)));
        let loaded = match self.load_aggregate::<A>(id) {
            Ok(loaded) => loaded,
            Err(error) => return Err(CommandError::Projection(error)),
        };
        let new_events = match loaded.aggregate.handle(command) {
            Ok(new_events) => new_events,
            Err(error) => return Err(CommandError::Aggregate(error)),
        };
        if new_events.is_empty() {
            return Ok(());
        }
        store_unchecked::<S, A>(&mut self.store, id, new_events, metadata)
    }
}

impl<S> Repository<S, Optimistic> where S: EventStore {
    /// Runs a command with version checking.
    ///
    /// The error is [`OptimisticCommandError::Concurrency`] if the stream changed between loading
    /// and committing.
    pub fn execute_command<A, Cmd>(
        &mut self,
        id: &S::Id,
        command: &Cmd,
        metadata: &S::Metadata,
    ) -> (r: Result<
        (),
        OptimisticCommandError<A::Error, S::Position, S::Error, CodecError<S>>,
    >) where
        A: Aggregate<Id = S::Id> + Handle<Cmd>,
        A::Event: ProjectionEvent<S::Codec> + SerializableEvent<S::Codec>,
        S::Metadata: Clone,

        ensures
            executes::<S, A, Cmd>(
                true,
                old(self).store(),
                id.key(),
                *command,
                *metadata,
                final(self).store(),
                r,
            ),
    {
        let reported = self.store.stream_version(A::KIND, id);
        assert(expects(true, self.store, A::KIND@, id.key(), reported));
        let version = match reported {
            Ok(version) => version,
            Err(error) => return Err(
                OptimisticCommandError::Projection(ProjectionError::Store(error)),
            ),
        };
        let loaded = match self.load_aggregate::<A>(id) {
            Ok(loaded) => loaded,
            Err(error) => return Err(OptimisticCommandError::Projection(error)),
        };
        let new_events = match loaded.aggregate.handle(command) {
            Ok(new_events) => new_events,
            Err(error) => return Err(OptimisticCommandError::Aggregate(error)),
        };
        if new_events.is_empty() {
            return Ok(());
        }
        store_checked::<S, A>(&mut self.store, id, version, new_events, metadata)
    }

    /// Runs a command, again up to `max_retries` times while there are conflicts.
    ///
    /// The result is the number of attempts. An error other than a conflict is returned at once, a
    /// conflict when no attempt is left.
    pub fn execute_with_retry<A, Cmd>(
        &mut self,
        id: &S::Id,
        command: &Cmd,
        metadata: &S::Metadata,
        max_retries: usize,
    ) -> (r: Result<
        usize,
        OptimisticCommandError<A::Error, S::Position, S::Error, CodecError<S>>,
    >) where
        A: Aggregate<Id = S::Id> + Handle<Cmd>,
        A::Event: ProjectionEvent<S::Codec> + SerializableEvent<S::Codec>,
        S::Metadata: Clone,

        ensures
            retries::<S, A, Cmd>(
                max_retries as nat,
                old(self).store(),
                id.key(),
                *command,
                *metadata,
                final(self).store(),
                r,
            ),
    {
        for attempt in 0..max_retries
            invariant
                conflicts::<S, A, Cmd>(
                    attempt as nat,
                    old(self).store(),
                    id.key(),
                    *command,
                    *metadata,
                    self.store(),
                ),
        {
            let ghost middle = self.store();
            match self.execute_command::<A, Cmd>(id, command, metadata) {
                Ok(()) => {
                    assert(conflicts::<S, A, Cmd>(
                        attempt as nat,
                        old(self).store(),
                        id.key(),
                        *command,
                        *metadata,
                        middle,
                    ));
                    return Ok(attempt + 1);
                },
                Err(OptimisticCommandError::Concurrency(_)) => {},
                Err(error) => {
                    assert(conflicts::<S, A, Cmd>(
                        attempt as nat,
                        old(self).store(),
                        id.key(),
                        *command,
                        *metadata,
                        middle,
                    ));
                    return Err(error);
                },
            }
        }
        match self.execute_command::<A, Cmd>(id, command, metadata) {
            Ok(()) => Ok(max_retries.saturating_add(1)),
            Err(error) => Err(error),
        }
    }
}

} // verus!
