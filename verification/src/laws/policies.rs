//! Laws of taking snapshots: when one is taken, what it holds, and what comes of a command with
//! snapshots.

use vstd::prelude::*;
use std::convert::Infallible;
use crate::aggregate::{reaches, Aggregate, Handle};
use crate::codec::{decodes, encodes, Codec, ProjectionEvent, SerializableEvent};
use crate::concurrency::ConcurrencyConflict;
use crate::id::AggregateId;
use crate::inmemory::{InMemoryError, InMemoryEventStore};
use crate::laws::inmemory::lemma_stream_last;
use crate::laws::snapshots::{lemma_effect, took_effect};
use crate::projection::ProjectionError;
use crate::repository::{
    attempts_after, catches_up, expects, rebuilds, stores, CodecError, LoadError, LoadedAggregate,
    OptimisticCommandError, OptimisticSnapshotCommandError, SnapshotCommandError,
};
use crate::snapshot::{
    wants_snapshot, InMemorySnapshotStore, NoSnapshots, Snapshot, SnapshotPolicy, SnapshotStore,
};
use crate::snapshot_repository::{
    bytes_view, conflicts_with_snapshots, events_since, executes_with_snapshots, offers, prepares,
    restores, retries_with_snapshots, runs_with_snapshots, stores_and_offers, with_snapshots,
    without_snapshot_conflict,
};
use crate::store::{EventStore, PersistableEvent};

verus! {

/// The policies: one calls for a snapshot after any number of events, one after at least as many as
/// it was made with, and one after none.
pub proof fn law_policy_thresholds(events: u64, n: u64)
    ensures
        SnapshotPolicy::Always.calls_for(events),
        SnapshotPolicy::EveryNEvents(n).calls_for(events) <==> events >= n,
        !SnapshotPolicy::Never.calls_for(events),
{
}

/// Whether the in-memory snapshot store answers that a snapshot should be taken depends on its policy
/// and the number of events alone.
pub proof fn law_answer_follows_the_policy<Id: AggregateId, Pos: Clone>(
    snapshots: InMemorySnapshotStore<Id, Pos>,
    aggregate_kind: &str,
    aggregate_id: &Id,
    events: u64,
    answer: bool,
)
    requires
        call_ensures(
            <InMemorySnapshotStore<Id, Pos> as SnapshotStore>::should_snapshot,
            (&snapshots, aggregate_kind, aggregate_id, events),
            answer,
        ),
    ensures
        snapshots.policy() is Always ==> answer,
        snapshots.policy() matches SnapshotPolicy::EveryNEvents(n) ==> (answer <==> events >= n),
        snapshots.policy() is Never ==> !answer,
{
}

/// A store that keeps no snapshots wants none and finds none, and an offer leaves it as it was.
pub proof fn law_no_snapshots_wants_and_finds_none<Id: AggregateId, Pos>(
    snapshots: NoSnapshots<Id, Pos>,
    aggregate_kind: &str,
    aggregate_id: &Id,
    events: u64,
    answer: bool,
    found: Result<Option<Snapshot<Pos>>, Infallible>,
    snapshot: Snapshot<Pos>,
    after: NoSnapshots<Id, Pos>,
    result: Result<(), Infallible>,
)
    ensures
        call_ensures(
            <NoSnapshots<Id, Pos> as SnapshotStore>::should_snapshot,
            (&snapshots, aggregate_kind, aggregate_id, events),
            answer,
        ) ==> !answer,
        snapshots.finds(aggregate_kind@, aggregate_id.key(), found) ==> found matches Ok(None),
        snapshots.takes_offer(
            aggregate_kind@,
            aggregate_id.key(),
            snapshot,
            events,
            after,
            result,
        ) ==> after == snapshots && result is Ok,
{
}

/// What is found after an offer: for the instance that it was for, the snapshot that was offered if
/// the policy calls for it after that many events, with its data and its position; in every other
/// case what was found before.
pub proof fn law_offer_is_found_where_the_policy_calls_for_it<Id: AggregateId, Pos: Clone>(
    before: InMemorySnapshotStore<Id, Pos>,
    aggregate_kind: Seq<char>,
    aggregate_id: <Id as AggregateId>::Key,
    snapshot: Snapshot<Pos>,
    events: u64,
    after: InMemorySnapshotStore<Id, Pos>,
    result: Result<(), Infallible>,
    other_kind: Seq<char>,
    other_id: <Id as AggregateId>::Key,
    found: Result<Option<Snapshot<Pos>>, Infallible>,
)
    requires
        before.takes_offer(
            aggregate_kind,
            aggregate_id,
            snapshot,
            events,
            after,
            result,
        ),
        after.finds(other_kind, other_id, found),
    ensures
        result is Ok,
        after.policy() == before.policy(),
        ({
            let due = match before.policy() {
                SnapshotPolicy::Always => true,
                SnapshotPolicy::EveryNEvents(n) => events >= n,
                SnapshotPolicy::Never => false,
            };
            if due && other_kind == aggregate_kind && other_id == aggregate_id {
                &&& found matches Ok(Some(kept))
                &&& found->Ok_0->Some_0.data@ == snapshot.data@
                &&& cloned(snapshot.position, found->Ok_0->Some_0.position)
            } else {
                before.finds(other_kind, other_id, found)
            }
        }),
{
}

/// A snapshot store that holds nothing finds nothing.
pub proof fn law_empty_store_finds_nothing<Id: AggregateId, Pos: Clone>(
    snapshots: InMemorySnapshotStore<Id, Pos>,
    aggregate_kind: Seq<char>,
    aggregate_id: <Id as AggregateId>::Key,
    found: Result<Option<Snapshot<Pos>>, Infallible>,
)
    requires
        snapshots.snapshots() == Map::<
            (Seq<char>, <Id as AggregateId>::Key),
            Snapshot<Pos>,
        >::empty(),
        snapshots.finds(aggregate_kind, aggregate_id, found),
    ensures
        found matches Ok(None),
{
}

/// Two lookups of one instance in one store find the same.
pub proof fn law_lookups_agree<Id: AggregateId>(
    snapshots: InMemorySnapshotStore<Id, u64>,
    aggregate_kind: Seq<char>,
    aggregate_id: <Id as AggregateId>::Key,
    first: Result<Option<Snapshot<u64>>, Infallible>,
    second: Result<Option<Snapshot<u64>>, Infallible>,
)
    requires
        snapshots.finds(aggregate_kind, aggregate_id, first),
        snapshots.finds(aggregate_kind, aggregate_id, second),
    ensures
        first is Ok,
        second is Ok,
        first->Ok_0 is Some <==> second->Ok_0 is Some,
        first->Ok_0 is Some ==> {
            &&& first->Ok_0->Some_0.position == second->Ok_0->Some_0.position
            &&& first->Ok_0->Some_0.data@ == second->Ok_0->Some_0.data@
        },
{
}

/// The events since the last snapshot are those that were replayed and the new ones together, as far
/// as the number can be told.
pub proof fn law_events_since_is_the_sum(replayed: u64, new_events: nat)
    ensures
        replayed + new_events <= u64::MAX ==> events_since(replayed, new_events) == replayed
            + new_events,
        u64::MAX < replayed + new_events ==> events_since(replayed, new_events) == u64::MAX,
{
}

/// Loading with snapshots: a snapshot that is found and can be decoded is where the replay starts, and
/// only events after its position are replayed on it; one that cannot be decoded is the error; where
/// none is found, or looking fails, everything is replayed from the beginning.
pub proof fn law_restoring_starts_at_the_snapshot<S, SS, A>(
    store: S,
    snapshots: SS,
    aggregate_id: <S::Id as AggregateId>::Key,
    result: Result<LoadedAggregate<A>, LoadError<S>>,
) where
    S: EventStore,
    SS: SnapshotStore<Id = S::Id, Position = S::Position>,
    A: Aggregate<Id = S::Id> + serde::de::DeserializeOwned,
    A::Event: ProjectionEvent<S::Codec>,

    requires
        restores(store, snapshots, aggregate_id, result),
    ensures
        ({
            ||| exists|snapshot: Snapshot<S::Position>, state: A|
                {
                    &&& #[trigger] snapshots.finds(A::KIND@, aggregate_id, Ok(Some(snapshot)))
                    &&& #[trigger] decodes(store.used_codec(), snapshot.data@, Ok(state))
                    &&& catches_up(store, aggregate_id, state, Some(snapshot.position), result)
                }
            ||| exists|snapshot: Snapshot<S::Position>, error: CodecError<S>|
                {
                    &&& #[trigger] snapshots.finds(A::KIND@, aggregate_id, Ok(Some(snapshot)))
                    &&& #[trigger] decodes::<S::Codec, A>(
                        store.used_codec(),
                        snapshot.data@,
                        Err(error),
                    )
                    &&& result matches Err(ProjectionError::SnapshotDeserialize(e)) && e == error
                }
            ||| (snapshots.finds(A::KIND@, aggregate_id, Ok(None)) || exists|error: SS::Error|
                #[trigger] snapshots.finds(A::KIND@, aggregate_id, Err(error))) && rebuilds(
                store,
                aggregate_id,
                result,
            )
        }),
{
    let found = choose|found: Result<Option<Snapshot<S::Position>>, SS::Error>|
        {
            &&& #[trigger] snapshots.finds(A::KIND@, aggregate_id, found)
            &&& match found {
                Ok(Some(snapshot)) => exists|decoded: Result<A, CodecError<S>>|
                    {
                        &&& #[trigger] decodes(store.used_codec(), snapshot.data@, decoded)
                        &&& match decoded {
                            Ok(start) => catches_up(
                                store,
                                aggregate_id,
                                start,
                                Some(snapshot.position),
                                result,
                            ),
                            Err(error) => result matches Err(
                                ProjectionError::SnapshotDeserialize(e),
                            ) && e == error,
                        }
                    },
                _ => rebuilds(store, aggregate_id, result),
            }
        };
    match found {
        Ok(Some(snapshot)) => {
            assert(snapshots.finds(A::KIND@, aggregate_id, Ok(Some(snapshot))));
            let decoded = choose|decoded: Result<A, CodecError<S>>|
                {
                    &&& #[trigger] decodes(store.used_codec(), snapshot.data@, decoded)
                    &&& match decoded {
                        Ok(start) => catches_up(
                            store,
                            aggregate_id,
                            start,
                            Some(snapshot.position),
                            result,
                        ),
                        Err(error) => result matches Err(ProjectionError::SnapshotDeserialize(e))
                            && e == error,
                    }
                };
            match decoded {
                Ok(state) => {
                    assert(decodes(store.used_codec(), snapshot.data@, Ok(state)));
                },
                Err(error) => {
                    assert(decodes::<S::Codec, A>(
                        store.used_codec(),
                        snapshot.data@,
                        Err(error),
                    ));
                },
            }
        },
        Ok(None) => {},
        Err(error) => {
            assert(snapshots.finds(A::KIND@, aggregate_id, Err(error)));
        },
    }
}

/// A prepared snapshot is the encoded state after all events of the command, and one is prepared
/// exactly where the snapshot store wants it. The error is that of encoding this state.
pub proof fn law_prepared_snapshot_is_the_state_after_the_events<S, SS, A>(
    store: S,
    snapshots: SS,
    aggregate_id: <S::Id as AggregateId>::Key,
    aggregate: A,
    total: u64,
    events: Seq<A::Event>,
    result: Result<Option<Seq<u8>>, CodecError<S>>,
) where
    S: EventStore,
    SS: SnapshotStore<Id = S::Id, Position = S::Position>,
    A: Aggregate<Id = S::Id> + serde::Serialize,

    requires
        prepares(store, snapshots, aggregate_id, aggregate, total, events, result),
    ensures
        match result {
            Ok(None) => wants_snapshot(snapshots, A::KIND@, aggregate_id, total, false),
            Ok(Some(bytes)) => {
                &&& wants_snapshot(snapshots, A::KIND@, aggregate_id, total, true)
                &&& exists|state: A| #[trigger]
                    encodes(store.used_codec(), state, Ok(bytes)) && reaches(
                        aggregate,
                        events,
                        state,
                    )
            },
            Err(error) => {
                &&& wants_snapshot(snapshots, A::KIND@, aggregate_id, total, true)
                &&& exists|state: A| #[trigger]
                    encodes(store.used_codec(), state, Err(error)) && reaches(
                        aggregate,
                        events,
                        state,
                    )
            },
        },
{
    let wanted = choose|wanted: bool|
        {
            &&& #[trigger] wants_snapshot(snapshots, A::KIND@, aggregate_id, total, wanted)
            &&& if wanted {
                exists|state: A, encoded: Result<Seq<u8>, CodecError<S>>|
                    {
                        &&& #[trigger] encodes(store.used_codec(), state, encoded)
                        &&& reaches(aggregate, events, state)
                        &&& result == match encoded {
                            Ok(bytes) => Ok(Some(bytes)),
                            Err(error) => Err(error),
                        }
                    }
            } else {
                result == Ok::<Option<Seq<u8>>, CodecError<S>>(None)
            }
        };
    if wanted {
        let (state, encoded) = choose|state: A, encoded: Result<Seq<u8>, CodecError<S>>|
            {
                &&& #[trigger] encodes(store.used_codec(), state, encoded)
                &&& reaches(aggregate, events, state)
                &&& result == match encoded {
                    Ok(bytes) => Ok(Some(bytes)),
                    Err(error) => Err(error),
                }
            };
        match result {
            Ok(Some(bytes)) => {
                assert(encoded == Ok::<Seq<u8>, CodecError<S>>(bytes));
                assert(encodes(store.used_codec(), state, Ok(bytes)));
            },
            Ok(None) => {},
            Err(error) => {
                assert(encoded == Err::<Seq<u8>, CodecError<S>>(error));
                assert(encodes(store.used_codec(), state, Err(error)));
            },
        }
    }
}

/// A prepared snapshot is offered once, with its data and the version that the event store tells, as
/// of that many events; what comes of it is the answer of the snapshot store, or the event store's
/// failure to tell the version, which leaves the snapshot store as it was. Nothing is offered where
/// nothing was prepared.
pub proof fn law_snapshot_is_offered_at_the_stream_version<S, SS, A>(
    store: S,
    before: SS,
    aggregate_id: <S::Id as AggregateId>::Key,
    total: u64,
    prepared: Option<Seq<u8>>,
    after: SS,
    result: Result<(), OptimisticSnapshotCommandError<
        A::Error,
        S::Position,
        S::Error,
        CodecError<S>,
        SS::Error,
    >>,
) where
    S: EventStore,
    SS: SnapshotStore<Id = S::Id, Position = S::Position>,
    A: Aggregate<Id = S::Id>,

    requires
        offers::<S, SS, A>(store, before, aggregate_id, total, prepared, after, result),
    ensures
        prepared is None ==> after == before && result is Ok,
        prepared is Some ==> match result {
            Err(OptimisticSnapshotCommandError::Store(error)) => after == before && store.reports(
                A::KIND@,
                aggregate_id,
                Err(error),
            ),
            Ok(_) => exists|snapshot: Snapshot<S::Position>|
                {
                    &&& snapshot.data@ == prepared->Some_0
                    &&& store.reports(A::KIND@, aggregate_id, Ok(Some(snapshot.position)))
                    &&& #[trigger] before.takes_offer(
                        A::KIND@,
                        aggregate_id,
                        snapshot,
                        total,
                        after,
                        Ok(()),
                    )
                },
            Err(OptimisticSnapshotCommandError::Snapshot(error)) => exists|
                snapshot: Snapshot<S::Position>,
            |
                {
                    &&& snapshot.data@ == prepared->Some_0
                    &&& store.reports(A::KIND@, aggregate_id, Ok(Some(snapshot.position)))
                    &&& #[trigger] before.takes_offer(
                        A::KIND@,
                        aggregate_id,
                        snapshot,
                        total,
                        after,
                        Err(error),
                    )
                },
            Err(_) => false,
        },
{
    if let Some(data) = prepared {
        let reported = choose|reported: Result<Option<S::Position>, S::Error>|
            {
                &&& #[trigger] store.reports(A::KIND@, aggregate_id, reported)
                &&& match reported {
                    Err(error) => {
                        &&& after == before
                        &&& result matches Err(OptimisticSnapshotCommandError::Store(e)) && e
                            == error
                    },
                    Ok(None) => false,
                    Ok(Some(position)) => exists|
                        snapshot: Snapshot<S::Position>,
                        offered: Result<(), SS::Error>,
                    |
                        {
                            &&& snapshot.position == position
                            &&& snapshot.data@ == data
                            &&& #[trigger] before.takes_offer(
                                A::KIND@,
                                aggregate_id,
                                snapshot,
                                total,
                                after,
                                offered,
                            )
                            &&& match offered {
                                Ok(()) => result is Ok,
                                Err(error) => result matches Err(
                                    OptimisticSnapshotCommandError::Snapshot(e),
                                ) && e == error,
                            }
                        },
                }
            };
        if let Ok(Some(position)) = reported {
            let (snapshot, offered) = choose|
                snapshot: Snapshot<S::Position>,
                offered: Result<(), SS::Error>,
            |
                {
                    &&& snapshot.position == position
                    &&& snapshot.data@ == data
                    &&& #[trigger] before.takes_offer(
                        A::KIND@,
                        aggregate_id,
                        snapshot,
                        total,
                        after,
                        offered,
                    )
                    &&& match offered {
                        Ok(()) => result is Ok,
                        Err(error) => result matches Err(
                            OptimisticSnapshotCommandError::Snapshot(e),
                        ) && e == error,
                    }
                };
            match offered {
                Ok(unit) => {
                    assert(unit == ());
                    assert(before.takes_offer(
                        A::KIND@,
                        aggregate_id,
                        snapshot,
                        total,
                        after,
                        Ok(()),
                    ));
                },
                Err(error) => {
                    assert(before.takes_offer(
                        A::KIND@,
                        aggregate_id,
                        snapshot,
                        total,
                        after,
                        Err(error),
                    ));
                },
            }
        }
    }
}

/// An error of a command without snapshots keeps its kind and its cause among those with them.
pub proof fn law_error_is_kept_among_snapshot_errors<
    AggregateError,
    Position,
    StoreError,
    CodecError,
    SnapshotError,
>(error: OptimisticCommandError<AggregateError, Position, StoreError, CodecError>)
    ensures
        match (
            error,
            with_snapshots::<AggregateError, Position, StoreError, CodecError, SnapshotError>(
                error,
            ),
        ) {
            (
                OptimisticCommandError::Aggregate(e),
                OptimisticSnapshotCommandError::Aggregate(seen),
            ) => seen == e,
            (
                OptimisticCommandError::Concurrency(e),
                OptimisticSnapshotCommandError::Concurrency(seen),
            ) => seen == e,
            (
                OptimisticCommandError::Projection(e),
                OptimisticSnapshotCommandError::Projection(seen),
            ) => seen == e,
            (OptimisticCommandError::Codec(e), OptimisticSnapshotCommandError::Codec(seen)) => seen
                == e,
            (OptimisticCommandError::Store(e), OptimisticSnapshotCommandError::Store(seen)) => seen
                == e,
            _ => false,
        },
{
}

/// The outcome of a command with snapshots and without version checking stays what it is when it is
/// seen among those of commands with both.
pub proof fn law_unchecked_snapshot_outcome_is_kept<
    AggregateError,
    Position,
    StoreError,
    CodecError,
    SnapshotError,
>(
    result: Result<
        (),
        SnapshotCommandError<AggregateError, StoreError, CodecError, SnapshotError>,
    >,
)
    ensures
        match (
            result,
            without_snapshot_conflict::<
                AggregateError,
                Position,
                StoreError,
                CodecError,
                SnapshotError,
            >(result),
        ) {
            (Ok(_), Ok(_)) => true,
            (
                Err(SnapshotCommandError::Aggregate(e)),
                Err(OptimisticSnapshotCommandError::Aggregate(seen)),
            ) => seen == e,
            (
                Err(SnapshotCommandError::Projection(e)),
                Err(OptimisticSnapshotCommandError::Projection(seen)),
            ) => seen == e,
            (
                Err(SnapshotCommandError::Codec(e)),
                Err(OptimisticSnapshotCommandError::Codec(seen)),
            ) => seen == e,
            (
                Err(SnapshotCommandError::Store(e)),
                Err(OptimisticSnapshotCommandError::Store(seen)),
            ) => seen == e,
            (
                Err(SnapshotCommandError::Snapshot(e)),
                Err(OptimisticSnapshotCommandError::Snapshot(seen)),
            ) => seen == e,
            _ => false,
        },
{
}

/// Prepared bytes are seen whole.
pub proof fn law_prepared_bytes_are_seen_whole<E>(result: Result<Option<Vec<u8>>, E>)
    ensures
        match (result, bytes_view(result)) {
            (Ok(Some(bytes)), Ok(Some(seen))) => seen == bytes@,
            (Ok(None), Ok(None)) => true,
            (Err(error), Err(seen)) => seen == error,
            _ => false,
        },
{
}

/// Storing the events of a command with a snapshot goes in this order: the snapshot is prepared, for
/// the number of events that were replayed and are new; the events are stored; the snapshot is
/// offered. A step that fails ends it with its error, and nothing of the later steps is done.
///
/// The witness is what came of preparing.
pub proof fn law_snapshot_is_prepared_before_and_offered_after_storing<S, SS, A>(
    checked: bool,
    version: Option<S::Position>,
    before: S,
    snapshots_before: SS,
    aggregate_id: <S::Id as AggregateId>::Key,
    loaded: LoadedAggregate<A>,
    events: Seq<A::Event>,
    metadata: S::Metadata,
    after: S,
    snapshots_after: SS,
    result: Result<(), OptimisticSnapshotCommandError<
        A::Error,
        S::Position,
        S::Error,
        CodecError<S>,
        SS::Error,
    >>,
) -> (prepared: Result<Option<Seq<u8>>, CodecError<S>>) where
    S: EventStore,
    S::Metadata: Clone,
    SS: SnapshotStore<Id = S::Id, Position = S::Position>,
    A: Aggregate<Id = S::Id> + serde::Serialize,
    A::Event: SerializableEvent<S::Codec>,

    requires
        stores_and_offers(
            checked,
            version,
            before,
            snapshots_before,
            aggregate_id,
            loaded,
            events,
            metadata,
            after,
            snapshots_after,
            result,
        ),
        loaded.events_since_snapshot + events.len() <= u64::MAX,
    ensures
        prepares(
            before,
            snapshots_before,
            aggregate_id,
            loaded.aggregate,
            (loaded.events_since_snapshot + events.len()) as u64,
            events,
            prepared,
        ),
        prepared matches Err(error) ==> {
            &&& after == before
            &&& snapshots_after == snapshots_before
            &&& result matches Err(OptimisticSnapshotCommandError::Codec(e)) && e == error
        },
        prepared is Ok ==> {
            ||| stores::<S, A>(
                checked,
                before,
                aggregate_id,
                version,
                events,
                metadata,
                after,
                Ok(()),
            ) && offers::<S, SS, A>(
                after,
                snapshots_before,
                aggregate_id,
                (loaded.events_since_snapshot + events.len()) as u64,
                prepared->Ok_0,
                snapshots_after,
                result,
            )
            ||| snapshots_after == snapshots_before && exists|
                error: OptimisticCommandError<A::Error, S::Position, S::Error, CodecError<S>>,
            |
                {
                    &&& #[trigger] stores::<S, A>(
                        checked,
                        before,
                        aggregate_id,
                        version,
                        events,
                        metadata,
                        after,
                        Err(error),
                    )
                    &&& result is Err
                    &&& result->Err_0 == with_snapshots::<
                        A::Error,
                        S::Position,
                        S::Error,
                        CodecError<S>,
                        SS::Error,
                    >(error)
                }
        },
{
    let total = events_since(loaded.events_since_snapshot, events.len());
    let prepared = choose|prepared: Result<Option<Seq<u8>>, CodecError<S>>|
        {
            &&& #[trigger] prepares(
                before,
                snapshots_before,
                aggregate_id,
                loaded.aggregate,
                total,
                events,
                prepared,
            )
            &&& match prepared {
                Err(error) => {
                    &&& after == before
                    &&& snapshots_after == snapshots_before
                    &&& result matches Err(OptimisticSnapshotCommandError::Codec(e)) && e == error
                },
                Ok(prepared) => exists|
                    stored: Result<
                        (),
                        OptimisticCommandError<A::Error, S::Position, S::Error, CodecError<S>>,
                    >,
                |
                    {
                        &&& #[trigger] stores::<S, A>(
                            checked,
                            before,
                            aggregate_id,
                            version,
                            events,
                            metadata,
                            after,
                            stored,
                        )
                        &&& match stored {
                            Err(error) => {
                                &&& snapshots_after == snapshots_before
                                &&& result matches Err(e) && e == with_snapshots::<
                                    A::Error,
                                    S::Position,
                                    S::Error,
                                    CodecError<S>,
                                    SS::Error,
                                >(error)
                            },
                            Ok(()) => offers::<S, SS, A>(
                                after,
                                snapshots_before,
                                aggregate_id,
                                total,
                                prepared,
                                snapshots_after,
                                result,
                            ),
                        }
                    },
            }
        };
    if let Ok(bytes) = prepared {
        let stored = choose|
            stored: Result<
                (),
                OptimisticCommandError<A::Error, S::Position, S::Error, CodecError<S>>,
            >,
        |
            {
                &&& #[trigger] stores::<S, A>(
                    checked,
                    before,
                    aggregate_id,
                    version,
                    events,
                    metadata,
                    after,
                    stored,
                )
                &&& match stored {
                    Err(error) => {
                        &&& snapshots_after == snapshots_before
                        &&& result matches Err(e) && e == with_snapshots::<
                            A::Error,
                            S::Position,
                            S::Error,
                            CodecError<S>,
                            SS::Error,
                        >(error)
                    },
                    Ok(()) => offers::<S, SS, A>(
                        after,
                        snapshots_before,
                        aggregate_id,
                        total,
                        bytes,
                        snapshots_after,
                        result,
                    ),
                }
            };
        match stored {
            Ok(unit) => {
                assert(unit == ());
            },
            Err(error) => {
                assert(stores::<S, A>(
                    checked,
                    before,
                    aggregate_id,
                    version,
                    events,
                    metadata,
                    after,
                    Err(error),
                ));
            },
        }
    }
    prepared
}

/// What came of a command with snapshots, by its result: a refusal is the handler's answer to a loaded
/// state, a failure to rebuild is that of loading or of asking for the version, and everything else
/// comes of storing the events that the handler answered a loaded state with, and of the snapshot.
/// Neither store changes unless there are events.
pub proof fn law_snapshot_command_outcome_is_explained<S, SS, A, Cmd>(
    checked: bool,
    before: S,
    snapshots_before: SS,
    aggregate_id: <S::Id as AggregateId>::Key,
    command: Cmd,
    metadata: S::Metadata,
    after: S,
    snapshots_after: SS,
    result: Result<(), OptimisticSnapshotCommandError<
        A::Error,
        S::Position,
        S::Error,
        CodecError<S>,
        SS::Error,
    >>,
) where
    S: EventStore,
    S::Metadata: Clone,
    SS: SnapshotStore<Id = S::Id, Position = S::Position>,
    A: Aggregate<Id = S::Id> + Handle<Cmd> + serde::Serialize + serde::de::DeserializeOwned,
    A::Event: ProjectionEvent<S::Codec> + SerializableEvent<S::Codec>,

    requires
        executes_with_snapshots::<S, SS, A, Cmd>(
            checked,
            before,
            snapshots_before,
            aggregate_id,
            command,
            metadata,
            after,
            snapshots_after,
            result,
        ),
    ensures
        match result {
            Err(OptimisticSnapshotCommandError::Aggregate(error)) => {
                ||| {
                    &&& after == before
                    &&& snapshots_after == snapshots_before
                    &&& exists|loaded: LoadedAggregate<A>| #[trigger]
                        restores(before, snapshots_before, aggregate_id, Ok(loaded))
                            && loaded.aggregate.handles(command, Err(error))
                }
                ||| snapshot_command_stored::<S, SS, A, Cmd>(
                    checked,
                    before,
                    snapshots_before,
                    aggregate_id,
                    command,
                    metadata,
                    after,
                    snapshots_after,
                    result,
                )
            },
            Err(OptimisticSnapshotCommandError::Projection(error)) => {
                ||| {
                    &&& after == before
                    &&& snapshots_after == snapshots_before
                    &&& restores::<S, SS, A>(before, snapshots_before, aggregate_id, Err(error)) || (
                    checked && (error matches ProjectionError::Store(e) && before.reports(
                        A::KIND@,
                        aggregate_id,
                        Err(e),
                    )))
                }
                ||| snapshot_command_stored::<S, SS, A, Cmd>(
                    checked,
                    before,
                    snapshots_before,
                    aggregate_id,
                    command,
                    metadata,
                    after,
                    snapshots_after,
                    result,
                )
            },
            _ => {
                ||| snapshot_command_stored::<S, SS, A, Cmd>(
                    checked,
                    before,
                    snapshots_before,
                    aggregate_id,
                    command,
                    metadata,
                    after,
                    snapshots_after,
                    result,
                )
                ||| {
                    &&& result is Ok
                    &&& after == before
                    &&& snapshots_after == snapshots_before
                    &&& exists|loaded: LoadedAggregate<A>, events: Seq<A::Event>|
                        {
                            &&& #[trigger] restores(
                                before,
                                snapshots_before,
                                aggregate_id,
                                Ok(loaded),
                            )
                            &&& #[trigger] loaded.aggregate.handles(command, Ok(events))
                            &&& events.len() == 0
                        }
                }
            },
        },
{
    let reported = choose|reported: Result<Option<S::Position>, S::Error>|
        {
            &&& #[trigger] expects(checked, before, A::KIND@, aggregate_id, reported)
            &&& match reported {
                Err(error) => {
                    &&& after == before
                    &&& snapshots_after == snapshots_before
                    &&& result matches Err(
                        OptimisticSnapshotCommandError::Projection(ProjectionError::Store(e)),
                    ) && e == error
                },
                Ok(version) => runs_with_snapshots::<S, SS, A, Cmd>(
                    checked,
                    version,
                    before,
                    snapshots_before,
                    aggregate_id,
                    command,
                    metadata,
                    after,
                    snapshots_after,
                    result,
                ),
            }
        };
    if let Ok(version) = reported {
        assert(expects(checked, before, A::KIND@, aggregate_id, Ok(version)));
        lemma_run::<S, SS, A, Cmd>(
            checked,
            version,
            before,
            snapshots_before,
            aggregate_id,
            command,
            metadata,
            after,
            snapshots_after,
            result,
        );
    }
}

/// The events that the handler answered a loaded state with were stored, and a snapshot prepared and
/// offered, against the version that was expected.
pub open spec fn snapshot_command_stored<S, SS, A, Cmd>(
    checked: bool,
    before: S,
    snapshots_before: SS,
    aggregate_id: <S::Id as AggregateId>::Key,
    command: Cmd,
    metadata: S::Metadata,
    after: S,
    snapshots_after: SS,
    result: Result<(), OptimisticSnapshotCommandError<
        A::Error,
        S::Position,
        S::Error,
        CodecError<S>,
        SS::Error,
    >>,
) -> bool where
    S: EventStore,
    S::Metadata: Clone,
    SS: SnapshotStore<Id = S::Id, Position = S::Position>,
    A: Aggregate<Id = S::Id> + Handle<Cmd> + serde::Serialize + serde::de::DeserializeOwned,
    A::Event: ProjectionEvent<S::Codec> + SerializableEvent<S::Codec>,
 {
    exists|loaded: LoadedAggregate<A>, events: Seq<A::Event>, version: Option<S::Position>|
        {
            &&& #[trigger] restores(before, snapshots_before, aggregate_id, Ok(loaded))
            &&& #[trigger] loaded.aggregate.handles(command, Ok(events))
            &&& events.len() > 0
            &&& #[trigger] expects(checked, before, A::KIND@, aggregate_id, Ok(version))
            &&& stores_and_offers(
                checked,
                version,
                before,
                snapshots_before,
                aggregate_id,
                loaded,
                events,
                metadata,
                after,
                snapshots_after,
                result,
            )
        }
}

/// What came of a run, from the state that was loaded and the handler's answer to it.
proof fn lemma_run<S, SS, A, Cmd>(
    checked: bool,
    version: Option<S::Position>,
    before: S,
    snapshots_before: SS,
    aggregate_id: <S::Id as AggregateId>::Key,
    command: Cmd,
    metadata: S::Metadata,
    after: S,
    snapshots_after: SS,
    result: Result<(), OptimisticSnapshotCommandError<
        A::Error,
        S::Position,
        S::Error,
        CodecError<S>,
        SS::Error,
    >>,
) where
    S: EventStore,
    S::Metadata: Clone,
    SS: SnapshotStore<Id = S::Id, Position = S::Position>,
    A: Aggregate<Id = S::Id> + Handle<Cmd> + serde::Serialize + serde::de::DeserializeOwned,
    A::Event: ProjectionEvent<S::Codec> + SerializableEvent<S::Codec>,

    requires
        expects(checked, before, A::KIND@, aggregate_id, Ok(version)),
        runs_with_snapshots::<S, SS, A, Cmd>(
            checked,
            version,
            before,
            snapshots_before,
            aggregate_id,
            command,
            metadata,
            after,
            snapshots_after,
            result,
        ),
    ensures
        ({
            ||| snapshot_command_stored::<S, SS, A, Cmd>(
                checked,
                before,
                snapshots_before,
                aggregate_id,
                command,
                metadata,
                after,
                snapshots_after,
                result,
            )
            ||| {
                &&& after == before
                &&& snapshots_after == snapshots_before
                &&& match result {
                    Ok(_) => exists|loaded: LoadedAggregate<A>, events: Seq<A::Event>|
                        {
                            &&& #[trigger] restores(
                                before,
                                snapshots_before,
                                aggregate_id,
                                Ok(loaded),
                            )
                            &&& #[trigger] loaded.aggregate.handles(command, Ok(events))
                            &&& events.len() == 0
                        },
                    Err(OptimisticSnapshotCommandError::Aggregate(error)) => exists|
                        loaded: LoadedAggregate<A>,
                    | #[trigger]
                        restores(before, snapshots_before, aggregate_id, Ok(loaded))
                            && loaded.aggregate.handles(command, Err(error)),
                    Err(OptimisticSnapshotCommandError::Projection(error)) => restores::<S, SS, A>(
                        before,
                        snapshots_before,
                        aggregate_id,
                        Err(error),
                    ),
                    Err(_) => false,
                }
            }
        }),
{
    let loaded = choose|loaded: Result<LoadedAggregate<A>, LoadError<S>>|
        {
            &&& #[trigger] restores(before, snapshots_before, aggregate_id, loaded)
            &&& match loaded {
                Err(error) => {
                    &&& after == before
                    &&& snapshots_after == snapshots_before
                    &&& result matches Err(OptimisticSnapshotCommandError::Projection(e)) && e
                        == error
                },
                Ok(loaded) => exists|handled: Result<Seq<A::Event>, A::Error>|
                    {
                        &&& #[trigger] loaded.aggregate.handles(command, handled)
                        &&& match handled {
                            Err(error) => {
                                &&& after == before
                                &&& snapshots_after == snapshots_before
                                &&& result matches Err(
                                    OptimisticSnapshotCommandError::Aggregate(e),
                                ) && e == error
                            },
                            Ok(events) => if events.len() == 0 {
                                after == before && snapshots_after == snapshots_before
                                    && result is Ok
                            } else {
                                stores_and_offers(
                                    checked,
                                    version,
                                    before,
                                    snapshots_before,
                                    aggregate_id,
                                    loaded,
                                    events,
                                    metadata,
                                    after,
                                    snapshots_after,
                                    result,
                                )
                            },
                        }
                    },
            }
        };
    match loaded {
        Err(error) => {
            assert(restores::<S, SS, A>(before, snapshots_before, aggregate_id, Err(error)));
        },
        Ok(state) => {
            assert(restores(before, snapshots_before, aggregate_id, Ok(state)));
            let handled = choose|handled: Result<Seq<A::Event>, A::Error>|
                {
                    &&& #[trigger] state.aggregate.handles(command, handled)
                    &&& match handled {
                        Err(error) => {
                            &&& after == before
                            &&& snapshots_after == snapshots_before
                            &&& result matches Err(OptimisticSnapshotCommandError::Aggregate(e))
                                && e == error
                        },
                        Ok(events) => if events.len() == 0 {
                            after == before && snapshots_after == snapshots_before && result is Ok
                        } else {
                            stores_and_offers(
                                checked,
                                version,
                                before,
                                snapshots_before,
                                aggregate_id,
                                state,
                                events,
                                metadata,
                                after,
                                snapshots_after,
                                result,
                            )
                        },
                    }
                };
            match handled {
                Err(error) => {
                    assert(state.aggregate.handles(command, Err(error)));
                },
                Ok(events) => {
                    assert(state.aggregate.handles(command, Ok(events)));
                },
            }
        },
    }
}

/// What the in-memory snapshot store wants follows its policy.
proof fn lemma_wants_follow_the_policy<Id: AggregateId, Pos: Clone>(
    snapshots: InMemorySnapshotStore<Id, Pos>,
    aggregate_kind: Seq<char>,
    aggregate_id: <Id as AggregateId>::Key,
    events: u64,
    answer: bool,
)
    requires
        wants_snapshot(snapshots, aggregate_kind, aggregate_id, events, answer),
    ensures
        answer == match snapshots.policy() {
            SnapshotPolicy::Always => true,
            SnapshotPolicy::EveryNEvents(n) => events >= n,
            SnapshotPolicy::Never => false,
        },
{
    let (kind, id) = choose|kind: &str, id: &Id|
        {
            &&& kind@ == aggregate_kind
            &&& id.key() == aggregate_id
            &&& #[trigger] call_ensures(
                <InMemorySnapshotStore<Id, Pos> as SnapshotStore>::should_snapshot,
                (&snapshots, kind, id, events),
                answer,
            )
        };
    law_answer_follows_the_policy(snapshots, kind, id, events, answer);
}

/// After a command that stored events in the in-memory store, there is a snapshot exactly where the
/// policy asks for one after the events that were replayed and the new ones together: then it is at
/// the last position and holds the loaded state with the new events applied. Otherwise, and for every
/// other instance, the snapshots are what they were.
///
/// The witnesses are the loaded aggregate that handled the command, and its events.
pub proof fn law_snapshot_after_command<Id, C, M, A, Cmd>(
    checked: bool,
    before: InMemoryEventStore<Id, C, M>,
    snapshots_before: InMemorySnapshotStore<Id, u64>,
    aggregate_id: <Id as AggregateId>::Key,
    command: Cmd,
    metadata: M,
    after: InMemoryEventStore<Id, C, M>,
    snapshots_after: InMemorySnapshotStore<Id, u64>,
    result: Result<
        (),
        OptimisticSnapshotCommandError<A::Error, u64, InMemoryError, C::Error, Infallible>,
    >,
) -> (r: (LoadedAggregate<A>, Seq<A::Event>)) where
    Id: AggregateId,
    C: Codec,
    M: Clone,
    A: Aggregate<Id = Id> + Handle<Cmd> + serde::Serialize + serde::de::DeserializeOwned,
    A::Event: ProjectionEvent<C> + SerializableEvent<C>,

    requires
        executes_with_snapshots::<
            InMemoryEventStore<Id, C, M>,
            InMemorySnapshotStore<Id, u64>,
            A,
            Cmd,
        >(
            checked,
            before,
            snapshots_before,
            aggregate_id,
            command,
            metadata,
            after,
            snapshots_after,
            result,
        ),
        after != before,
    ensures
        restores(before, snapshots_before, aggregate_id, Ok(r.0)),
        r.0.aggregate.handles(command, Ok(r.1)),
        after.log().len() == before.log().len() + r.1.len(),
        r.0.events_since_snapshot + r.1.len() <= u64::MAX ==> {
            let due = match snapshots_before.policy() {
                SnapshotPolicy::Always => true,
                SnapshotPolicy::EveryNEvents(n) => r.0.events_since_snapshot + r.1.len() >= n,
                SnapshotPolicy::Never => false,
            };
            let key = (A::KIND@, aggregate_id);
            &&& due ==> {
                &&& snapshots_after.snapshots().dom().contains(key)
                &&& snapshots_after.snapshots()[key].position == after.log().len() - 1
                &&& exists|state: A| #[trigger]
                    encodes(
                        before.made_with(),
                        state,
                        Ok(snapshots_after.snapshots()[key].data@),
                    ) && reaches(r.0.aggregate, r.1, state)
            }
            &&& forall|other: (Seq<char>, <Id as AggregateId>::Key)|
                due && other == key || (#[trigger] snapshots_after.snapshots().dom().contains(other)
                    == snapshots_before.snapshots().dom().contains(other)
                    && snapshots_after.snapshots()[other] == snapshots_before.snapshots()[other])
        },
{
    lemma_effect::<Id, C, M, InMemorySnapshotStore<Id, u64>, A, Cmd>(
        checked,
        before,
        snapshots_before,
        aggregate_id,
        command,
        metadata,
        after,
        snapshots_after,
        result,
    );
    let (loaded, events, batch, prepared) = choose|
        loaded: LoadedAggregate<A>,
        events: Seq<A::Event>,
        batch: Seq<PersistableEvent<M>>,
        prepared: Option<Seq<u8>>,
    | #[trigger]
        took_effect(
            before,
            snapshots_before,
            aggregate_id,
            metadata,
            after,
            snapshots_after,
            result,
            loaded,
            events,
            batch,
            prepared,
        ) && loaded.aggregate.handles(command, Ok(events));
    after.positions();
    lemma_stream_last(after.log(), (A::KIND@, aggregate_id));
    let total = events_since(loaded.events_since_snapshot, events.len());
    law_prepared_snapshot_is_the_state_after_the_events(
        before,
        snapshots_before,
        aggregate_id,
        loaded.aggregate,
        total,
        events,
        Ok(prepared),
    );
    law_snapshot_is_offered_at_the_stream_version::<
        InMemoryEventStore<Id, C, M>,
        InMemorySnapshotStore<Id, u64>,
        A,
    >(after, snapshots_before, aggregate_id, total, prepared, snapshots_after, result);
    let key = (A::KIND@, aggregate_id);
    let due = match snapshots_before.policy() {
        SnapshotPolicy::Always => true,
        SnapshotPolicy::EveryNEvents(n) => total >= n,
        SnapshotPolicy::Never => false,
    };
    lemma_wants_follow_the_policy(
        snapshots_before,
        A::KIND@,
        aggregate_id,
        total,
        prepared is Some,
    );
    assert(due == prepared is Some);
    if let Some(bytes) = prepared {
        let last = (after.log().len() - 1) as u64;
        assert(after.reports(A::KIND@, aggregate_id, Ok(Some(last))));
        let snapshot = choose|snapshot: Snapshot<u64>|
            {
                &&& snapshot.data@ == bytes
                &&& after.reports(A::KIND@, aggregate_id, Ok(Some(snapshot.position)))
                &&& #[trigger] snapshots_before.takes_offer(
                    A::KIND@,
                    aggregate_id,
                    snapshot,
                    total,
                    snapshots_after,
                    Ok(()),
                )
            };
        assert(snapshot.position == last);
        assert(snapshots_after.snapshots() == snapshots_before.snapshots().insert(key, snapshot));
        assert(snapshots_after.snapshots()[key] == snapshot);
        let state = choose|state: A| #[trigger]
            encodes(before.used_codec(), state, Ok(bytes)) && reaches(
                loaded.aggregate,
                events,
                state,
            );
        assert(encodes(
            before.made_with(),
            state,
            Ok(snapshots_after.snapshots()[key].data@),
        ));
    } else {
        assert(snapshots_after.snapshots() == snapshots_before.snapshots());
    }
    (loaded, events)
}

/// Conflicts in a row, as the stores between them.
proof fn lemma_conflicts_in_a_row<S, SS, A, Cmd>(
    n: nat,
    before: S,
    snapshots_before: SS,
    aggregate_id: <S::Id as AggregateId>::Key,
    command: Cmd,
    metadata: S::Metadata,
    after: S,
    snapshots_after: SS,
) -> (r: (Seq<(S, SS)>, Seq<ConcurrencyConflict<S::Position>>)) where
    S: EventStore,
    S::Metadata: Clone,
    SS: SnapshotStore<Id = S::Id, Position = S::Position>,
    A: Aggregate<Id = S::Id> + Handle<Cmd> + serde::Serialize + serde::de::DeserializeOwned,
    A::Event: ProjectionEvent<S::Codec> + SerializableEvent<S::Codec>,

    requires
        conflicts_with_snapshots::<S, SS, A, Cmd>(
            n,
            before,
            snapshots_before,
            aggregate_id,
            command,
            metadata,
            after,
            snapshots_after,
        ),
    ensures
        r.0.len() == n + 1,
        r.1.len() == n,
        r.0[0] == (before, snapshots_before),
        r.0[n as int] == (after, snapshots_after),
        forall|i: int|
            0 <= i < n ==> executes_with_snapshots::<S, SS, A, Cmd>(
                true,
                r.0[i].0,
                r.0[i].1,
                aggregate_id,
                command,
                metadata,
                r.0[i + 1].0,
                r.0[i + 1].1,
                Err(OptimisticSnapshotCommandError::Concurrency(#[trigger] r.1[i])),
            ),
    decreases n,
{
    if n == 0 {
        (seq![(before, snapshots_before)], Seq::empty())
    } else {
        let (middle, snapshots_middle, error) = choose|
            middle: S,
            snapshots_middle: SS,
            error: ConcurrencyConflict<S::Position>,
        |
            {
                &&& conflicts_with_snapshots::<S, SS, A, Cmd>(
                    (n - 1) as nat,
                    before,
                    snapshots_before,
                    aggregate_id,
                    command,
                    metadata,
                    middle,
                    snapshots_middle,
                )
                &&& #[trigger] executes_with_snapshots::<S, SS, A, Cmd>(
                    true,
                    middle,
                    snapshots_middle,
                    aggregate_id,
                    command,
                    metadata,
                    after,
                    snapshots_after,
                    Err(OptimisticSnapshotCommandError::Concurrency(error)),
                )
            };
        let (earlier, found) = lemma_conflicts_in_a_row::<S, SS, A, Cmd>(
            (n - 1) as nat,
            before,
            snapshots_before,
            aggregate_id,
            command,
            metadata,
            middle,
            snapshots_middle,
        );
        let between = earlier.push((after, snapshots_after));
        let all = found.push(error);
        assert forall|i: int| 0 <= i < n implies executes_with_snapshots::<S, SS, A, Cmd>(
            true,
            between[i].0,
            between[i].1,
            aggregate_id,
            command,
            metadata,
            between[i + 1].0,
            between[i + 1].1,
            Err(OptimisticSnapshotCommandError::Concurrency(#[trigger] all[i])),
        ) by {
            if i < n - 1 {
                assert(all[i] == found[i]);
                assert(between[i] == earlier[i] && between[i + 1] == earlier[i + 1]);
            } else {
                assert(between[i] == (middle, snapshots_middle));
                assert(between[i + 1] == (after, snapshots_after));
            }
        }
        (between, all)
    }
}

/// A command with retries and snapshots is a row of attempts, each on the stores that the one before
/// left: all but the last ended in a conflict, the last decides. There are at most as many retries as
/// allowed; a conflict is the outcome only where all were used, and success counts the attempts.
///
/// The witnesses are the stores that the attempts began with, and the conflicts that they met.
pub proof fn law_snapshot_retry_is_a_row_of_attempts<S, SS, A, Cmd>(
    max_retries: nat,
    before: S,
    snapshots_before: SS,
    aggregate_id: <S::Id as AggregateId>::Key,
    command: Cmd,
    metadata: S::Metadata,
    after: S,
    snapshots_after: SS,
    result: Result<usize, OptimisticSnapshotCommandError<
        A::Error,
        S::Position,
        S::Error,
        CodecError<S>,
        SS::Error,
    >>,
) -> (r: (Seq<(S, SS)>, Seq<ConcurrencyConflict<S::Position>>)) where
    S: EventStore,
    S::Metadata: Clone,
    SS: SnapshotStore<Id = S::Id, Position = S::Position>,
    A: Aggregate<Id = S::Id> + Handle<Cmd> + serde::Serialize + serde::de::DeserializeOwned,
    A::Event: ProjectionEvent<S::Codec> + SerializableEvent<S::Codec>,

    requires
        retries_with_snapshots::<S, SS, A, Cmd>(
            max_retries,
            before,
            snapshots_before,
            aggregate_id,
            command,
            metadata,
            after,
            snapshots_after,
            result,
        ),
    ensures
        1 <= r.0.len() <= max_retries + 1,
        r.1.len() == r.0.len() - 1,
        r.0[0] == (before, snapshots_before),
        forall|i: int|
            0 <= i < r.1.len() ==> executes_with_snapshots::<S, SS, A, Cmd>(
                true,
                r.0[i].0,
                r.0[i].1,
                aggregate_id,
                command,
                metadata,
                r.0[i + 1].0,
                r.0[i + 1].1,
                Err(OptimisticSnapshotCommandError::Concurrency(#[trigger] r.1[i])),
            ),
        match result {
            Ok(attempts) => {
                &&& r.0.len() <= usize::MAX ==> attempts == r.0.len()
                &&& executes_with_snapshots::<S, SS, A, Cmd>(
                    true,
                    r.0.last().0,
                    r.0.last().1,
                    aggregate_id,
                    command,
                    metadata,
                    after,
                    snapshots_after,
                    Ok(()),
                )
            },
            Err(error) => {
                &&& error is Concurrency ==> r.0.len() == max_retries + 1
                &&& executes_with_snapshots::<S, SS, A, Cmd>(
                    true,
                    r.0.last().0,
                    r.0.last().1,
                    aggregate_id,
                    command,
                    metadata,
                    after,
                    snapshots_after,
                    Err(error),
                )
            },
        },
{
    let (n, middle, snapshots_middle) = choose|n: nat, middle: S, snapshots_middle: SS|
        {
            &&& n <= max_retries
            &&& #[trigger] conflicts_with_snapshots::<S, SS, A, Cmd>(
                n,
                before,
                snapshots_before,
                aggregate_id,
                command,
                metadata,
                middle,
                snapshots_middle,
            )
            &&& match result {
                Ok(attempts) => attempts == attempts_after(n) && executes_with_snapshots::<
                    S,
                    SS,
                    A,
                    Cmd,
                >(
                    true,
                    middle,
                    snapshots_middle,
                    aggregate_id,
                    command,
                    metadata,
                    after,
                    snapshots_after,
                    Ok(()),
                ),
                Err(error) => (error is Concurrency ==> n == max_retries)
                    && executes_with_snapshots::<S, SS, A, Cmd>(
                    true,
                    middle,
                    snapshots_middle,
                    aggregate_id,
                    command,
                    metadata,
                    after,
                    snapshots_after,
                    Err(error),
                ),
            }
        };
    lemma_conflicts_in_a_row::<S, SS, A, Cmd>(
        n,
        before,
        snapshots_before,
        aggregate_id,
        command,
        metadata,
        middle,
        snapshots_middle,
    )
}

} // verus!
