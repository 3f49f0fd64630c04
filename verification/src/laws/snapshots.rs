//! Laws of snapshots: what is kept, and that loading from a snapshot is a full replay.

use vstd::prelude::*;
use std::convert::Infallible;
use crate::aggregate::{fresh, reaches, read_as, reads_as, replays, Aggregate, Handle};
use crate::codec::{decodes, encodes, Codec, ProjectionEvent, SerializableEvent};
use crate::id::AggregateId;
use crate::inmemory::{extended, InMemoryError, InMemoryEventStore};
use crate::laws::commands::{
    law_replay_in_parts, lemma_caught_up, lemma_copies_read_alike, lemma_history_extended,
    lemma_load_after_append, reads_only_as, round_trips,
};
use crate::laws::history::{history, lemma_instance_selection, of_history};
use crate::laws::inmemory::lemma_stream_last;
use crate::projection::{among, ProjectionError};
use crate::repository::{
    aggregate_of, catches_up, caught_up, expects, rebuilds, replayed, stores, written_as, LoadError,
    LoadedAggregate, OptimisticCommandError, OptimisticSnapshotCommandError,
};
use crate::snapshot_repository::{
    events_since, executes_with_snapshots, offers, prepares, restores, retries_with_snapshots,
    runs_with_snapshots, stores_and_offers,
};
use crate::snapshot::{InMemorySnapshotStore, Snapshot, SnapshotPolicy, SnapshotStore};
use crate::store::{
    copied, instance_filters, EventFilter, EventStore, PersistableEvent, StoredEvent,
};

verus! {

/// Where no snapshot can be loaded, because there is none or because the snapshot store fails, an
/// aggregate is loaded by a full replay.
pub proof fn law_without_snapshot_all_is_replayed<S, SS, A>(
    store: S,
    snapshots: SS,
    aggregate_id: <S::Id as AggregateId>::Key,
    result: Result<LoadedAggregate<A>, LoadError<S>>,
) where
    S: EventStore,
    SS: SnapshotStore<Id = S::Id, Position = S::Position>,
    A: Aggregate<Id = S::Id> + serde::de::DeserializeOwned,
    A::Event: ProjectionEvent<S::Codec>,

    requires
        restores(store, snapshots, aggregate_id, result),
        forall|snapshot: Snapshot<S::Position>|
            !#[trigger] snapshots.finds(A::KIND@, aggregate_id, Ok(Some(snapshot))),
    ensures
        rebuilds(store, aggregate_id, result),
{
}

/// A snapshot whose data cannot be decoded is reported, and not passed over.
pub proof fn law_corrupt_snapshot_is_reported<S, SS, A>(
    store: S,
    snapshots: SS,
    aggregate_id: <S::Id as AggregateId>::Key,
    result: Result<LoadedAggregate<A>, LoadError<S>>,
) where
    S: EventStore,
    SS: SnapshotStore<Id = S::Id, Position = S::Position>,
    A: Aggregate<Id = S::Id> + serde::de::DeserializeOwned,
    A::Event: ProjectionEvent<S::Codec>,

    requires
        restores(store, snapshots, aggregate_id, result),
        forall|found: Result<Option<Snapshot<S::Position>>, SS::Error>| #[trigger]
            snapshots.finds(A::KIND@, aggregate_id, found) ==> (found matches Ok(Some(snapshot))
                && forall|state: A|
                !#[trigger] decodes(store.used_codec(), snapshot.data@, Ok(state))),
    ensures
        result matches Err(ProjectionError::SnapshotDeserialize(_)),
{
}

/// A snapshot that the policy calls for is found again after it was offered, and no other one.
pub proof fn law_offered_snapshot_is_found<Id: AggregateId, Pos: Clone>(
    before: InMemorySnapshotStore<Id, Pos>,
    aggregate_kind: Seq<char>,
    aggregate_id: <Id as AggregateId>::Key,
    snapshot: Snapshot<Pos>,
    events_since_last_snapshot: u64,
    after: InMemorySnapshotStore<Id, Pos>,
    result: Result<(), Infallible>,
    found: Result<Option<Snapshot<Pos>>, Infallible>,
)
    requires
        before.takes_offer(
            aggregate_kind,
            aggregate_id,
            snapshot,
            events_since_last_snapshot,
            after,
            result,
        ),
        before.policy().calls_for(events_since_last_snapshot),
        after.finds(aggregate_kind, aggregate_id, found),
    ensures
        found matches Ok(Some(kept)) && kept.is_copy_of(snapshot),
{
}

/// An offer that the policy declines changes nothing that is found.
pub proof fn law_declined_snapshot_is_not_kept<Id: AggregateId, Pos: Clone>(
    before: InMemorySnapshotStore<Id, Pos>,
    aggregate_kind: Seq<char>,
    aggregate_id: <Id as AggregateId>::Key,
    snapshot: Snapshot<Pos>,
    events_since_last_snapshot: u64,
    after: InMemorySnapshotStore<Id, Pos>,
    result: Result<(), Infallible>,
    other_kind: Seq<char>,
    other_id: <Id as AggregateId>::Key,
    found: Result<Option<Snapshot<Pos>>, Infallible>,
)
    requires
        before.takes_offer(
            aggregate_kind,
            aggregate_id,
            snapshot,
            events_since_last_snapshot,
            after,
            result,
        ),
        !before.policy().calls_for(events_since_last_snapshot),
    ensures
        result is Ok,
        after.finds(other_kind, other_id, found) == before.finds(other_kind, other_id, found),
{
}

/// An offer for one aggregate instance changes nothing that is found for another.
pub proof fn law_other_snapshots_are_kept<Id: AggregateId, Pos: Clone>(
    before: InMemorySnapshotStore<Id, Pos>,
    aggregate_kind: Seq<char>,
    aggregate_id: <Id as AggregateId>::Key,
    snapshot: Snapshot<Pos>,
    events_since_last_snapshot: u64,
    after: InMemorySnapshotStore<Id, Pos>,
    result: Result<(), Infallible>,
    other_kind: Seq<char>,
    other_id: <Id as AggregateId>::Key,
    found: Result<Option<Snapshot<Pos>>, Infallible>,
)
    requires
        before.takes_offer(
            aggregate_kind,
            aggregate_id,
            snapshot,
            events_since_last_snapshot,
            after,
            result,
        ),
        (other_kind, other_id) != (aggregate_kind, aggregate_id),
    ensures
        after.finds(other_kind, other_id, found) == before.finds(other_kind, other_id, found),
{
}

/// Replaying the history up to a position of the log may give the state.
pub open spec fn faithful<Id, C, M, A>(
    store: InMemoryEventStore<Id, C, M>,
    aggregate_id: <Id as AggregateId>::Key,
    position: u64,
    state: A,
) -> bool where
    Id: AggregateId,
    C: Codec,
    M: Clone,
    A: Aggregate<Id = Id>,
    A::Event: ProjectionEvent<C>,
 {
    &&& position < store.log().len()
    &&& exists|start: A, events: Seq<A::Event>|
        {
            &&& #[trigger] fresh(start)
            &&& #[trigger] read_as(
                store.made_with(),
                history(
                    store.log().take(position + 1),
                    A::Event::EVENT_KINDS@,
                    (A::KIND@, aggregate_id),
                ),
                events,
            )
            &&& reaches(start, events, state)
        }
}

/// What leads to a state at a position, and what comes after it, are together what a full replay
/// loads.
proof fn lemma_history_in_parts<Id, C, M, A>(
    store: InMemoryEventStore<Id, C, M>,
    aggregate_id: <Id as AggregateId>::Key,
    position: u64,
    filters: Seq<EventFilter<Id, u64>>,
    late_stored: Seq<StoredEvent<Id, u64, M>>,
) -> (r: (Seq<EventFilter<Id, u64>>, Seq<StoredEvent<Id, u64, M>>)) where
    Id: AggregateId,
    C: Codec,
    M: Clone,
    A: Aggregate<Id = Id>,
    A::Event: ProjectionEvent<C>,

    requires
        position < store.log().len(),
        instance_filters(
            A::Event::EVENT_KINDS@,
            A::KIND@,
            aggregate_id,
            Some(position),
            filters,
        ),
        store.loads(filters, Ok(late_stored)),
    ensures
        instance_filters(A::Event::EVENT_KINDS@, A::KIND@, aggregate_id, None, r.0),
        store.loads(r.0, Ok(r.1)),
        copied(
            history(store.log(), A::Event::EVENT_KINDS@, (A::KIND@, aggregate_id)),
            r.1,
        ),
        r.1 == history(
            store.log().take(position + 1),
            A::Event::EVENT_KINDS@,
            (A::KIND@, aggregate_id),
        ) + late_stored,
{
    let log = store.log();
    let kinds = A::Event::EVENT_KINDS@;
    let key = (A::KIND@, aggregate_id);
    let early = history(log.take(position + 1), kinds, key);
    let late = history(log.skip(position + 1), kinds, key);
    store.positions();
    lemma_instance_selection(log, kinds, A::KIND@, aggregate_id, Some(position), filters);
    assert(log =~= log.take(position + 1) + log.skip(position + 1));
    Seq::filter_distributes_over_add(
        log.take(position + 1),
        log.skip(position + 1),
        |event: StoredEvent<Id, u64, M>| of_history(kinds, key, event),
    );
    let stored = early + late_stored;
    assert(copied(early + late, stored)) by {
        assert forall|i: int| 0 <= i < stored.len() implies (#[trigger] stored[i]).is_copy_of(
            (early + late)[i],
        ) by {
            if i >= early.len() {
                assert(late_stored[i - early.len()].is_copy_of(late[i - early.len()]));
            }
        }
    }
    let all_filters = Seq::new(
        filters.len(),
        |i: int| EventFilter { after_position: None::<u64>, ..filters[i] },
    );
    assert(instance_filters(kinds, A::KIND@, aggregate_id, None, all_filters)) by {
        assert forall|i: int| 0 <= i < all_filters.len() implies {
            &&& (#[trigger] all_filters[i]).event_kind@ == kinds[i]@
            &&& all_filters[i].aggregate_kind matches Some(kind) && kind@ == A::KIND@
            &&& all_filters[i].aggregate_id matches Some(id) && id.key() == aggregate_id
            &&& all_filters[i].after_position == None::<u64>
        } by {
            assert(filters[i].event_kind@ == kinds[i]@);
        }
    }
    lemma_instance_selection(log, kinds, A::KIND@, aggregate_id, None, all_filters);
    assert(log.skip(0) =~= log);
    (all_filters, stored)
}

/// Events read back in two parts are read back in one.
proof fn lemma_read_in_parts<E, C, Id, Pos, M>(
    codec: C,
    first: Seq<StoredEvent<Id, Pos, M>>,
    first_events: Seq<E>,
    second: Seq<StoredEvent<Id, Pos, M>>,
    second_events: Seq<E>,
) where C: Codec, E: ProjectionEvent<C>
    requires
        read_as(codec, first, first_events),
        read_as(codec, second, second_events),
    ensures
        read_as(codec, first + second, first_events + second_events),
{
    let stored = first + second;
    let events = first_events + second_events;
    assert forall|i: int| 0 <= i < stored.len() implies reads_as(
        codec,
        stored[i],
        #[trigger] events[i],
    ) by {
        if i < first.len() {
            assert(reads_as(codec, first[i], first_events[i]));
        } else {
            assert(reads_as(codec, second[i - first.len()], second_events[i - first.len()]));
        }
    }
}

/// The events lead to the state: they may be read back, and replaying them on a state to begin with
/// may give it.
pub open spec fn leads_to<S: EventStore, A: Aggregate<Id = S::Id>>(
    store: S,
    early: Seq<StoredEvent<S::Id, S::Position, S::Metadata>>,
    state: A,
) -> bool where A::Event: ProjectionEvent<S::Codec> {
    exists|start: A, events: Seq<A::Event>|
        {
            &&& #[trigger] fresh(start)
            &&& #[trigger] read_as(store.used_codec(), early, events)
            &&& reaches(start, events, state)
        }
}

/// Events that lead to a state, by the states and events that show it.
proof fn lemma_leads_to<S: EventStore, A: Aggregate<Id = S::Id>>(
    store: S,
    early: Seq<StoredEvent<S::Id, S::Position, S::Metadata>>,
    state: A,
    start: A,
    events: Seq<A::Event>,
) where A::Event: ProjectionEvent<S::Codec>
    requires
        fresh(start),
        read_as(store.used_codec(), early, events),
        reaches(start, events, state),
    ensures
        leads_to(store, early, state),
{
}

/// Loading all events of the aggregate instance may give `early` followed by `late`.
pub open spec fn loads_in_parts<S: EventStore, A: Aggregate<Id = S::Id>>(
    store: S,
    aggregate_id: <S::Id as AggregateId>::Key,
    early: Seq<StoredEvent<S::Id, S::Position, S::Metadata>>,
    late: Seq<StoredEvent<S::Id, S::Position, S::Metadata>>,
) -> bool where A::Event: ProjectionEvent<S::Codec> {
    &&& early.len() + late.len() <= u64::MAX
    &&& exists|filters: Seq<EventFilter<S::Id, S::Position>>|
        #[trigger] instance_filters(
            A::Event::EVENT_KINDS@,
            A::KIND@,
            aggregate_id,
            None,
            filters,
        ) && store.loads(filters, Ok(early + late))
}

/// There is a state to begin with, and loading all events of the aggregate instance may fail with the
/// error.
pub open spec fn fails_to_load<S: EventStore, A: Aggregate<Id = S::Id>>(
    store: S,
    aggregate_id: <S::Id as AggregateId>::Key,
    error: S::Error,
) -> bool where A::Event: ProjectionEvent<S::Codec> {
    &&& exists|start: A| fresh(start)
    &&& exists|filters: Seq<EventFilter<S::Id, S::Position>>|
        #[trigger] instance_filters(
            A::Event::EVENT_KINDS@,
            A::KIND@,
            aggregate_id,
            None,
            filters,
        ) && store.loads(filters, Err(error))
}

/// The state is that of the aggregate instance at the position: whatever is loaded after the
/// position is the rest of what is loaded in all, and the events before that rest lead to the state.
/// A failure to load the rest is one to load all.
pub open spec fn state_at<S: EventStore, A: Aggregate<Id = S::Id>>(
    store: S,
    aggregate_id: <S::Id as AggregateId>::Key,
    position: S::Position,
    state: A,
) -> bool where A::Event: ProjectionEvent<S::Codec> {
    forall|
        filters: Seq<EventFilter<S::Id, S::Position>>,
        result: Result<Seq<StoredEvent<S::Id, S::Position, S::Metadata>>, S::Error>,
    |
        #![trigger
            instance_filters(
                A::Event::EVENT_KINDS@,
                A::KIND@,
                aggregate_id,
                Some(position),
                filters,
            ),
            store.loads(filters, result)]
        instance_filters(
            A::Event::EVENT_KINDS@,
            A::KIND@,
            aggregate_id,
            Some(position),
            filters,
        ) && store.loads(filters, result) ==> match result {
            Ok(late) => exists|early: Seq<StoredEvent<S::Id, S::Position, S::Metadata>>| #[trigger]
                loads_in_parts::<S, A>(store, aggregate_id, early, late) && leads_to(
                    store,
                    early,
                    state,
                ),
            Err(error) => fails_to_load::<S, A>(store, aggregate_id, error),
        }
}

/// Catching up from the state at a position gives what a full replay may give: the same state, or
/// the same error. The witness is that replay.
pub proof fn law_catching_up_is_full_replay<S, A>(
    store: S,
    aggregate_id: <S::Id as AggregateId>::Key,
    position: S::Position,
    state: A,
    result: Result<LoadedAggregate<A>, LoadError<S>>,
) -> (full: Result<LoadedAggregate<A>, LoadError<S>>) where
    S: EventStore,
    A: Aggregate<Id = S::Id>,
    A::Event: ProjectionEvent<S::Codec>,

    requires
        state_at(store, aggregate_id, position, state),
        catches_up(store, aggregate_id, state, Some(position), result),
    ensures
        rebuilds(store, aggregate_id, full),
        aggregate_of(full) == aggregate_of(result),
{
    let codec = store.used_codec();
    let kinds = A::Event::EVENT_KINDS@;
    let filters = choose|filters: Seq<EventFilter<S::Id, S::Position>>| #[trigger]
        instance_filters(kinds, A::KIND@, aggregate_id, Some(position), filters) && replayed(
            store,
            state,
            filters,
            result,
        );
    match result {
        Ok(loaded) => {
            let late = choose|late: Seq<StoredEvent<S::Id, S::Position, S::Metadata>>| #[trigger]
                caught_up(store, state, filters, late, loaded);
            assert(store.loads(filters, Ok(late)));
            let early = choose|early: Seq<StoredEvent<S::Id, S::Position, S::Metadata>>| #[trigger]
                loads_in_parts::<S, A>(store, aggregate_id, early, late) && leads_to(
                    store,
                    early,
                    state,
                );
            let all_filters = choose|all_filters: Seq<EventFilter<S::Id, S::Position>>| #[trigger]
                instance_filters(kinds, A::KIND@, aggregate_id, None, all_filters) && store.loads(
                    all_filters,
                    Ok(early + late),
                );
            let (start, early_events) = choose|start: A, events: Seq<A::Event>|
                {
                    &&& #[trigger] fresh(start)
                    &&& #[trigger] read_as(codec, early, events)
                    &&& reaches(start, events, state)
                };
            let late_events = choose|events: Seq<A::Event>| #[trigger]
                read_as(codec, late, events) && reaches(state, events, loaded.aggregate);
            law_replay_in_parts(start, early_events, state, late_events, loaded.aggregate);
            lemma_read_in_parts(codec, early, early_events, late, late_events);
            let whole = LoadedAggregate {
                aggregate: loaded.aggregate,
                events_since_snapshot: (early.len() + late.len()) as u64,
            };
            assert(replays(codec, start, early + late, Ok(whole.aggregate)));
            assert(caught_up(store, start, all_filters, early + late, whole));
            let full: Result<LoadedAggregate<A>, LoadError<S>> = Ok(whole);
            assert(full->Ok_0 == whole);
            assert(replayed(store, start, all_filters, full));
            assert(catches_up(store, aggregate_id, start, None, full));
            full
        },
        Err(ProjectionError::Store(error)) => {
            assert(store.loads(filters, Err(error)));
            let all_filters = choose|all_filters: Seq<EventFilter<S::Id, S::Position>>| #[trigger]
                instance_filters(kinds, A::KIND@, aggregate_id, None, all_filters) && store.loads(
                    all_filters,
                    Err(error),
                );
            let start = choose|start: A| fresh(start);
            assert(replayed(store, start, all_filters, result));
            assert(catches_up(store, aggregate_id, start, None, result));
            result
        },
        Err(ProjectionError::EventDecode(error)) => {
            let late = choose|late: Seq<StoredEvent<S::Id, S::Position, S::Metadata>>| #[trigger]
                store.loads(filters, Ok(late)) && replays(codec, state, late, Err(error));
            let early = choose|early: Seq<StoredEvent<S::Id, S::Position, S::Metadata>>| #[trigger]
                loads_in_parts::<S, A>(store, aggregate_id, early, late) && leads_to(
                    store,
                    early,
                    state,
                );
            let all_filters = choose|all_filters: Seq<EventFilter<S::Id, S::Position>>| #[trigger]
                instance_filters(kinds, A::KIND@, aggregate_id, None, all_filters) && store.loads(
                    all_filters,
                    Ok(early + late),
                );
            let (start, early_events) = choose|start: A, events: Seq<A::Event>|
                {
                    &&& #[trigger] fresh(start)
                    &&& #[trigger] read_as(codec, early, events)
                    &&& reaches(start, events, state)
                };
            let (n, late_events) = choose|n: int, events: Seq<A::Event>|
                {
                    &&& 0 <= n < late.len()
                    &&& #[trigger] read_as(codec, late.take(n), events)
                    &&& A::Event::restores(late[n].kind@, late[n].data@, codec, Err(error))
                };
            lemma_read_in_parts(codec, early, early_events, late.take(n), late_events);
            let stored = early + late;
            let m = early.len() + n;
            assert(stored.take(m) =~= early + late.take(n));
            assert(stored[m] == late[n]);
            assert(replays(codec, start, stored, Err::<A, _>(error)));
            assert(replayed(store, start, all_filters, result));
            assert(catches_up(store, aggregate_id, start, None, result));
            result
        },
        Err(_) => result,
    }
}

/// Every state that a snapshot of the aggregate instance may be decoded to is the state at the
/// snapshot's position.
pub open spec fn holds_states<S, SS, A>(
    store: S,
    snapshots: SS,
    aggregate_id: <S::Id as AggregateId>::Key,
) -> bool where
    S: EventStore,
    SS: SnapshotStore<Id = S::Id, Position = S::Position>,
    A: Aggregate<Id = S::Id> + serde::de::DeserializeOwned,
    A::Event: ProjectionEvent<S::Codec>,
 {
    forall|snapshot: Snapshot<S::Position>, state: A|
        #![trigger
            snapshots.finds(A::KIND@, aggregate_id, Ok(Some(snapshot))),
            decodes(store.used_codec(), snapshot.data@, Ok(state))]
        snapshots.finds(A::KIND@, aggregate_id, Ok(Some(snapshot))) && decodes(
            store.used_codec(),
            snapshot.data@,
            Ok(state),
        ) ==> state_at(store, aggregate_id, snapshot.position, state)
}

/// Loading with snapshots gives what a full replay of the same event store may give: the same state,
/// or the same error. This holds of any event store and any snapshot store, where each snapshot that
/// is found holds the state at its position. Only a snapshot that cannot be decoded makes a
/// difference. The witness is that replay.
pub proof fn law_loading_with_snapshots_is_full_replay<S, SS, A>(
    store: S,
    snapshots: SS,
    aggregate_id: <S::Id as AggregateId>::Key,
    result: Result<LoadedAggregate<A>, LoadError<S>>,
) -> (full: Result<LoadedAggregate<A>, LoadError<S>>) where
    S: EventStore,
    SS: SnapshotStore<Id = S::Id, Position = S::Position>,
    A: Aggregate<Id = S::Id> + serde::de::DeserializeOwned,
    A::Event: ProjectionEvent<S::Codec>,

    requires
        restores(store, snapshots, aggregate_id, result),
        holds_states::<S, SS, A>(store, snapshots, aggregate_id),
        !(result matches Err(ProjectionError::SnapshotDeserialize(_))),
    ensures
        rebuilds(store, aggregate_id, full),
        aggregate_of(full) == aggregate_of(result),
{
    if rebuilds(store, aggregate_id, result) {
        result
    } else {
        let (snapshot, state) = choose|snapshot: Snapshot<S::Position>, state: A|
            {
                &&& #[trigger] snapshots.finds(A::KIND@, aggregate_id, Ok(Some(snapshot)))
                &&& #[trigger] decodes(store.used_codec(), snapshot.data@, Ok(state))
                &&& catches_up(store, aggregate_id, state, Some(snapshot.position), result)
            };
        law_catching_up_is_full_replay(store, aggregate_id, snapshot.position, state, result)
    }
}

/// Every state that a snapshot of the aggregate instance may be decoded to is one that replaying the
/// history up to the snapshot's position may give.
pub open spec fn faithful_snapshots<Id, C, M, SS, A>(
    store: InMemoryEventStore<Id, C, M>,
    snapshots: SS,
    aggregate_id: <Id as AggregateId>::Key,
) -> bool where
    Id: AggregateId,
    C: Codec,
    M: Clone,
    SS: SnapshotStore<Id = Id, Position = u64>,
    A: Aggregate<Id = Id> + serde::de::DeserializeOwned,
    A::Event: ProjectionEvent<C>,
 {
    forall|snapshot: Snapshot<u64>, state: A|
        #![trigger
            snapshots.finds(A::KIND@, aggregate_id, Ok(Some(snapshot))),
            decodes(store.made_with(), snapshot.data@, Ok(state))]
        snapshots.finds(A::KIND@, aggregate_id, Ok(Some(snapshot))) && decodes(
            store.made_with(),
            snapshot.data@,
            Ok(state),
        ) ==> faithful(store, aggregate_id, snapshot.position, state)
}

/// In the in-memory event store, a state that replaying the history up to a position may give is the
/// state at that position.
pub proof fn law_replayed_state_is_state_at<Id, C, M, A>(
    store: InMemoryEventStore<Id, C, M>,
    aggregate_id: <Id as AggregateId>::Key,
    position: u64,
    state: A,
) where
    Id: AggregateId,
    C: Codec,
    M: Clone,
    A: Aggregate<Id = Id>,
    A::Event: ProjectionEvent<C>,

    requires
        faithful(store, aggregate_id, position, state),
    ensures
        state_at(store, aggregate_id, position, state),
{
    let kinds = A::Event::EVENT_KINDS@;
    let key = (A::KIND@, aggregate_id);
    let early = history(store.log().take(position + 1), kinds, key);
    let (start, events) = choose|start: A, events: Seq<A::Event>|
        {
            &&& #[trigger] fresh(start)
            &&& #[trigger] read_as(store.made_with(), early, events)
            &&& reaches(start, events, state)
        };
    lemma_leads_to(store, early, state, start, events);
    assert forall|
        filters: Seq<EventFilter<Id, u64>>,
        result: Result<Seq<StoredEvent<Id, u64, M>>, InMemoryError>,
    |
        #![trigger
            instance_filters(kinds, A::KIND@, aggregate_id, Some(position), filters),
            store.loads(filters, result)]
        instance_filters(kinds, A::KIND@, aggregate_id, Some(position), filters) && store.loads(
            filters,
            result,
        ) implies (result matches Ok(late) && loads_in_parts::<InMemoryEventStore<Id, C, M>, A>(
        store,
        aggregate_id,
        early,
        late,
    )) by {
        let late = result->Ok_0;
        let (all_filters, stored) = lemma_history_in_parts::<Id, C, M, A>(
            store,
            aggregate_id,
            position,
            filters,
            late,
        );
        store.positions();
        store.log().lemma_filter_len(
            |event: StoredEvent<Id, u64, M>| of_history(kinds, key, event),
        );
        assert(stored.len() == early.len() + late.len());
    }
}

/// Snapshots of the in-memory event store that are faithful hold the states at their positions.
proof fn lemma_faithful_snapshots_hold_states<Id, C, M, SS, A>(
    store: InMemoryEventStore<Id, C, M>,
    snapshots: SS,
    aggregate_id: <Id as AggregateId>::Key,
) where
    Id: AggregateId,
    C: Codec,
    M: Clone,
    SS: SnapshotStore<Id = Id, Position = u64>,
    A: Aggregate<Id = Id> + serde::de::DeserializeOwned,
    A::Event: ProjectionEvent<C>,

    requires
        faithful_snapshots::<Id, C, M, SS, A>(store, snapshots, aggregate_id),
    ensures
        holds_states::<InMemoryEventStore<Id, C, M>, SS, A>(store, snapshots, aggregate_id),
{
    assert forall|snapshot: Snapshot<u64>, state: A|
        #![trigger
            snapshots.finds(A::KIND@, aggregate_id, Ok(Some(snapshot))),
            decodes(store.made_with(), snapshot.data@, Ok(state))]
        snapshots.finds(A::KIND@, aggregate_id, Ok(Some(snapshot))) && decodes(
            store.made_with(),
            snapshot.data@,
            Ok(state),
        ) implies state_at(store, aggregate_id, snapshot.position, state) by {
        law_replayed_state_is_state_at(store, aggregate_id, snapshot.position, state);
    }
}

/// The state at a position stays that state when the log grows.
proof fn lemma_faithful_extended<Id, C, M, A>(
    before: InMemoryEventStore<Id, C, M>,
    after: InMemoryEventStore<Id, C, M>,
    aggregate_id: <Id as AggregateId>::Key,
    position: u64,
    state: A,
) where
    Id: AggregateId,
    C: Codec,
    M: Clone,
    A: Aggregate<Id = Id>,
    A::Event: ProjectionEvent<C>,

    requires
        faithful(before, aggregate_id, position, state),
        after.made_with() == before.made_with(),
        before.log().len() <= after.log().len(),
        forall|i: int| 0 <= i < before.log().len() ==> #[trigger] after.log()[i] == before.log()[i],
    ensures
        faithful(after, aggregate_id, position, state),
{
    assert(after.log().take(position + 1) =~= before.log().take(position + 1));
}

/// A command with snapshots took effect: its events, written down as `batch`, were appended, and
/// the snapshot that was prepared for them, if any, was offered.
pub open spec fn took_effect<Id, C, M, SS, A>(
    before: InMemoryEventStore<Id, C, M>,
    snapshots_before: SS,
    aggregate_id: <Id as AggregateId>::Key,
    metadata: M,
    after: InMemoryEventStore<Id, C, M>,
    snapshots_after: SS,
    result: Result<
        (),
        OptimisticSnapshotCommandError<A::Error, u64, InMemoryError, C::Error, SS::Error>,
    >,
    loaded: LoadedAggregate<A>,
    events: Seq<A::Event>,
    batch: Seq<PersistableEvent<M>>,
    prepared: Option<Seq<u8>>,
) -> bool where
    Id: AggregateId,
    C: Codec,
    M: Clone,
    SS: SnapshotStore<Id = Id, Position = u64>,
    A: Aggregate<Id = Id> + serde::Serialize + serde::de::DeserializeOwned,
    A::Event: ProjectionEvent<C> + SerializableEvent<C>,
 {
    let total = events_since(loaded.events_since_snapshot, events.len());
    &&& restores(before, snapshots_before, aggregate_id, Ok(loaded))
    &&& events.len() > 0
    &&& written_as(before.made_with(), events, metadata, batch)
    &&& after.made_with() == before.made_with()
    &&& extended(before.log(), A::KIND@, aggregate_id, batch, after.log())
    &&& prepares(
        before,
        snapshots_before,
        aggregate_id,
        loaded.aggregate,
        total,
        events,
        Ok(prepared),
    )
    &&& offers::<InMemoryEventStore<Id, C, M>, SS, A>(
        after,
        snapshots_before,
        aggregate_id,
        total,
        prepared,
        snapshots_after,
        result,
    )
}

/// A command with snapshots either leaves both stores as they were, or takes effect.
pub(crate) proof fn lemma_effect<Id, C, M, SS, A, Cmd>(
    checked: bool,
    before: InMemoryEventStore<Id, C, M>,
    snapshots_before: SS,
    aggregate_id: <Id as AggregateId>::Key,
    command: Cmd,
    metadata: M,
    after: InMemoryEventStore<Id, C, M>,
    snapshots_after: SS,
    result: Result<
        (),
        OptimisticSnapshotCommandError<A::Error, u64, InMemoryError, C::Error, SS::Error>,
    >,
) where
    Id: AggregateId,
    C: Codec,
    M: Clone,
    SS: SnapshotStore<Id = Id, Position = u64>,
    A: Aggregate<Id = Id> + Handle<Cmd> + serde::Serialize + serde::de::DeserializeOwned,
    A::Event: ProjectionEvent<C> + SerializableEvent<C>,

    requires
        executes_with_snapshots::<InMemoryEventStore<Id, C, M>, SS, A, Cmd>(
            checked,
            before,
            snapshots_before,
            aggregate_id,
            command,
            metadata,
            after,
            snapshots_after,
            result,
        ),
        !(after == before && snapshots_after == snapshots_before),
    ensures
        exists|
            loaded: LoadedAggregate<A>,
            events: Seq<A::Event>,
            batch: Seq<PersistableEvent<M>>,
            prepared: Option<Seq<u8>>,
        | #[trigger]
            took_effect(
                before,
                snapshots_before,
                aggregate_id,
                metadata,
                after,
                snapshots_after,
                result,
                loaded,
                events,
                batch,
                prepared,
            ) && loaded.aggregate.handles(command, Ok(events)),
{
    let version = choose|version: Option<u64>|
        #[trigger] expects(checked, before, A::KIND@, aggregate_id, Ok(version))
            && runs_with_snapshots::<InMemoryEventStore<Id, C, M>, SS, A, Cmd>(
            checked,
            version,
            before,
            snapshots_before,
            aggregate_id,
            command,
            metadata,
            after,
            snapshots_after,
            result,
        );
    let (loaded, events) = choose|loaded: LoadedAggregate<A>, events: Seq<A::Event>|
        {
            &&& #[trigger] restores(before, snapshots_before, aggregate_id, Ok(loaded))
            &&& #[trigger] loaded.aggregate.handles(command, Ok(events))
            &&& events.len() > 0
            &&& stores_and_offers(
                checked,
                version,
                before,
                snapshots_before,
                aggregate_id,
                loaded,
                events,
                metadata,
                after,
                snapshots_after,
                result,
            )
        };
    let total = events_since(loaded.events_since_snapshot, events.len());
    let prepared = choose|prepared: Option<Seq<u8>>|
        {
            &&& #[trigger] prepares(
                before,
                snapshots_before,
                aggregate_id,
                loaded.aggregate,
                total,
                events,
                Ok(prepared),
            )
            &&& exists|
                stored: Result<(), OptimisticCommandError<A::Error, u64, InMemoryError, C::Error>>,
            |
                #[trigger] stores::<InMemoryEventStore<Id, C, M>, A>(
                    checked,
                    before,
                    aggregate_id,
                    version,
                    events,
                    metadata,
                    after,
                    stored,
                ) && stored is Ok && offers::<InMemoryEventStore<Id, C, M>, SS, A>(
                    after,
                    snapshots_before,
                    aggregate_id,
                    total,
                    prepared,
                    snapshots_after,
                    result,
                )
        };
    let batch = choose|batch: Seq<PersistableEvent<M>>| #[trigger]
        written_as(before.made_with(), events, metadata, batch) && extended(
            before.log(),
            A::KIND@,
            aggregate_id,
            batch,
            after.log(),
        );
    assert(took_effect(
        before,
        snapshots_before,
        aggregate_id,
        metadata,
        after,
        snapshots_after,
        result,
        loaded,
        events,
        batch,
        prepared,
    ));
}

/// A state that was encoded is decoded, if at all, as that state.
pub open spec fn state_round_trips<A, C>(codec: C) -> bool where
    C: Codec,
    A: serde::Serialize + serde::de::DeserializeOwned,
 {
    forall|state: A, bytes: Seq<u8>, decoded: A|
        #![trigger encodes(codec, state, Ok(bytes)), decodes(codec, bytes, Ok(decoded))]
        encodes(codec, state, Ok(bytes)) && decodes(codec, bytes, Ok(decoded)) ==> decoded == state
}

/// Where a state is one that loading may give, and the events of a command were appended, the
/// state with these events applied is the state at the last position.
proof fn lemma_new_state_faithful<Id, C, M, A>(
    before: InMemoryEventStore<Id, C, M>,
    aggregate_id: <Id as AggregateId>::Key,
    metadata: M,
    after: InMemoryEventStore<Id, C, M>,
    full: LoadedAggregate<A>,
    events: Seq<A::Event>,
    batch: Seq<PersistableEvent<M>>,
    state: A,
) where
    Id: AggregateId,
    C: Codec,
    M: Clone,
    A: Aggregate<Id = Id>,
    A::Event: ProjectionEvent<C> + SerializableEvent<C>,

    requires
        rebuilds(before, aggregate_id, Ok(full)),
        events.len() > 0,
        written_as(before.made_with(), events, metadata, batch),
        after.made_with() == before.made_with(),
        extended(before.log(), A::KIND@, aggregate_id, batch, after.log()),
        round_trips::<A::Event, C>(before.made_with()),
        reaches(full.aggregate, events, state),
    ensures
        faithful(after, aggregate_id, (after.log().len() - 1) as u64, state),
{
    let codec = before.made_with();
    let kinds = A::Event::EVENT_KINDS@;
    let key = (A::KIND@, aggregate_id);
    let start = choose|start: A| #[trigger]
        fresh(start) && catches_up(before, aggregate_id, start, None, Ok(full));
    let (filters, stored) = lemma_caught_up(before, aggregate_id, start, None, full);
    assert(before.log().skip(0) =~= before.log());
    let early = history(before.log(), kinds, key);
    let early_events = choose|events: Seq<A::Event>| #[trigger]
        read_as(codec, stored, events) && reaches(start, events, full.aggregate);
    lemma_copies_read_alike(codec, early, stored, early_events);
    assert forall|i: int| 0 <= i < batch.len() implies among(kinds, (#[trigger] batch[i]).kind@) by {
        assert(events[i].persists(codec, Ok((batch[i].kind@, batch[i].data@))));
    }
    lemma_history_extended(before.log(), A::KIND@, aggregate_id, batch, after.log(), kinds);
    let whole = history(after.log(), kinds, key);
    let all_events = early_events + events;
    assert(read_as(codec, whole, all_events)) by {
        assert forall|i: int| 0 <= i < whole.len() implies reads_as(
            codec,
            whole[i],
            #[trigger] all_events[i],
        ) by {
            if i < early.len() {
                assert(reads_as(codec, early[i], early_events[i]));
            } else {
                let k = i - early.len();
                assert(whole[i] == after.log()[before.log().len() + k]);
                assert(events[k].persists(codec, Ok((batch[k].kind@, batch[k].data@))));
                assert(reads_only_as(codec, batch[k].kind@, batch[k].data@, events[k]));
            }
        }
    }
    law_replay_in_parts(start, early_events, full.aggregate, events, state);
    after.positions();
    let position = (after.log().len() - 1) as u64;
    assert(after.log().take(position + 1) =~= after.log());
    assert(read_as(codec, history(after.log().take(position + 1), kinds, key), all_events));
}

/// Commands keep the snapshots faithful: whatever a command does, and whether it succeeds or not,
/// every snapshot of the aggregate instance still holds the state at its position.
///
/// This holds of event types that read back as they were written, and of states that are decoded
/// as they were encoded.
pub proof fn law_snapshots_stay_faithful<Id, C, M, A, Cmd>(
    checked: bool,
    before: InMemoryEventStore<Id, C, M>,
    snapshots_before: InMemorySnapshotStore<Id, u64>,
    aggregate_id: <Id as AggregateId>::Key,
    command: Cmd,
    metadata: M,
    after: InMemoryEventStore<Id, C, M>,
    snapshots_after: InMemorySnapshotStore<Id, u64>,
    result: Result<
        (),
        OptimisticSnapshotCommandError<A::Error, u64, InMemoryError, C::Error, Infallible>,
    >,
) where
    Id: AggregateId,
    C: Codec,
    M: Clone,
    A: Aggregate<Id = Id> + Handle<Cmd> + serde::Serialize + serde::de::DeserializeOwned,
    A::Event: ProjectionEvent<C> + SerializableEvent<C>,

    requires
        executes_with_snapshots::<
            InMemoryEventStore<Id, C, M>,
            InMemorySnapshotStore<Id, u64>,
            A,
            Cmd,
        >(
            checked,
            before,
            snapshots_before,
            aggregate_id,
            command,
            metadata,
            after,
            snapshots_after,
            result,
        ),
        faithful_snapshots::<Id, C, M, InMemorySnapshotStore<Id, u64>, A>(
            before,
            snapshots_before,
            aggregate_id,
        ),
        round_trips::<A::Event, C>(before.made_with()),
        state_round_trips::<A, C>(before.made_with()),
    ensures
        faithful_snapshots::<Id, C, M, InMemorySnapshotStore<Id, u64>, A>(
            after,
            snapshots_after,
            aggregate_id,
        ),
{
    if !(after == before && snapshots_after == snapshots_before) {
        lemma_effect::<Id, C, M, InMemorySnapshotStore<Id, u64>, A, Cmd>(
            checked,
            before,
            snapshots_before,
            aggregate_id,
            command,
            metadata,
            after,
            snapshots_after,
            result,
        );
        let (loaded, events, batch, prepared) = choose|
            loaded: LoadedAggregate<A>,
            events: Seq<A::Event>,
            batch: Seq<PersistableEvent<M>>,
            prepared: Option<Seq<u8>>,
        | #[trigger]
            took_effect(
                before,
                snapshots_before,
                aggregate_id,
                metadata,
                after,
                snapshots_after,
                result,
                loaded,
                events,
                batch,
                prepared,
            );
        let codec = before.made_with();
        let key = (A::KIND@, aggregate_id);
        assert forall|snapshot: Snapshot<u64>, state: A|
            #![trigger
                snapshots_after.finds(A::KIND@, aggregate_id, Ok(Some(snapshot))),
                decodes(codec, snapshot.data@, Ok(state))]
            snapshots_after.finds(A::KIND@, aggregate_id, Ok(Some(snapshot))) && decodes(
                codec,
                snapshot.data@,
                Ok(state),
            ) implies faithful(after, aggregate_id, snapshot.position, state) by {
            if snapshots_after.snapshots() == snapshots_before.snapshots() {
                assert(snapshots_before.finds(A::KIND@, aggregate_id, Ok(Some(snapshot))));
                lemma_faithful_extended(before, after, aggregate_id, snapshot.position, state);
            } else {
                let bytes = prepared->Some_0;
                let kept = snapshots_after.snapshots()[key];
                after.positions();
                lemma_stream_last(after.log(), (A::KIND@, aggregate_id));
                assert(kept.data@ == bytes);
                assert(kept.position == after.log().len() - 1);
                let new_state = choose|new_state: A| #[trigger]
                    encodes(codec, new_state, Ok(bytes)) && reaches(
                        loaded.aggregate,
                        events,
                        new_state,
                    );
                assert(state == new_state);
                lemma_faithful_snapshots_hold_states::<
                    Id,
                    C,
                    M,
                    InMemorySnapshotStore<Id, u64>,
                    A,
                >(before, snapshots_before, aggregate_id);
                let full = law_loading_with_snapshots_is_full_replay(
                    before,
                    snapshots_before,
                    aggregate_id,
                    Ok(loaded),
                );
                lemma_new_state_faithful(
                    before,
                    aggregate_id,
                    metadata,
                    after,
                    full->Ok_0,
                    events,
                    batch,
                    state,
                );
            }
        }
    }
}

/// After a command that stored events, the policy decides on a snapshot by the number of events
/// since the last one: where it calls for one, there is a snapshot at the last position; where it
/// does not, the snapshots are as they were. Snapshots of other aggregate instances are kept.
///
/// The witnesses are the loaded aggregate that handled the command, and its events.
pub proof fn law_policy_decides<Id, C, M, A, Cmd>(
    checked: bool,
    before: InMemoryEventStore<Id, C, M>,
    snapshots_before: InMemorySnapshotStore<Id, u64>,
    aggregate_id: <Id as AggregateId>::Key,
    command: Cmd,
    metadata: M,
    after: InMemoryEventStore<Id, C, M>,
    snapshots_after: InMemorySnapshotStore<Id, u64>,
    result: Result<
        (),
        OptimisticSnapshotCommandError<A::Error, u64, InMemoryError, C::Error, Infallible>,
    >,
) -> (r: (LoadedAggregate<A>, Seq<A::Event>)) where
    Id: AggregateId,
    C: Codec,
    M: Clone,
    A: Aggregate<Id = Id> + Handle<Cmd> + serde::Serialize + serde::de::DeserializeOwned,
    A::Event: ProjectionEvent<C> + SerializableEvent<C>,

    requires
        executes_with_snapshots::<
            InMemoryEventStore<Id, C, M>,
            InMemorySnapshotStore<Id, u64>,
            A,
            Cmd,
        >(
            checked,
            before,
            snapshots_before,
            aggregate_id,
            command,
            metadata,
            after,
            snapshots_after,
            result,
        ),
        after != before,
    ensures
        restores(before, snapshots_before, aggregate_id, Ok(r.0)),
        r.0.aggregate.handles(command, Ok(r.1)),
        ({
            let total = events_since(r.0.events_since_snapshot, r.1.len());
            let key = (A::KIND@, aggregate_id);
            if snapshots_before.policy().calls_for(total) {
                &&& snapshots_after.snapshots().dom().contains(key)
                &&& snapshots_after.snapshots()[key].position == after.log().len() - 1
                &&& snapshots_after.snapshots() == snapshots_before.snapshots().insert(
                    key,
                    snapshots_after.snapshots()[key],
                )
            } else {
                snapshots_after.snapshots() == snapshots_before.snapshots()
            }
        }),
{
    lemma_effect::<Id, C, M, InMemorySnapshotStore<Id, u64>, A, Cmd>(
        checked,
        before,
        snapshots_before,
        aggregate_id,
        command,
        metadata,
        after,
        snapshots_after,
        result,
    );
    let (loaded, events, batch, prepared) = choose|
        loaded: LoadedAggregate<A>,
        events: Seq<A::Event>,
        batch: Seq<PersistableEvent<M>>,
        prepared: Option<Seq<u8>>,
    | #[trigger]
        took_effect(
            before,
            snapshots_before,
            aggregate_id,
            metadata,
            after,
            snapshots_after,
            result,
            loaded,
            events,
            batch,
            prepared,
        ) && loaded.aggregate.handles(command, Ok(events));
    after.positions();
    lemma_stream_last(after.log(), (A::KIND@, aggregate_id));
    (loaded, events)
}

/// Under the policy to take no snapshots, no command changes the snapshot store.
pub proof fn law_never_policy_keeps_snapshots<Id, C, M, A, Cmd>(
    checked: bool,
    before: InMemoryEventStore<Id, C, M>,
    snapshots_before: InMemorySnapshotStore<Id, u64>,
    aggregate_id: <Id as AggregateId>::Key,
    command: Cmd,
    metadata: M,
    after: InMemoryEventStore<Id, C, M>,
    snapshots_after: InMemorySnapshotStore<Id, u64>,
    result: Result<
        (),
        OptimisticSnapshotCommandError<A::Error, u64, InMemoryError, C::Error, Infallible>,
    >,
) where
    Id: AggregateId,
    C: Codec,
    M: Clone,
    A: Aggregate<Id = Id> + Handle<Cmd> + serde::Serialize + serde::de::DeserializeOwned,
    A::Event: ProjectionEvent<C> + SerializableEvent<C>,

    requires
        executes_with_snapshots::<
            InMemoryEventStore<Id, C, M>,
            InMemorySnapshotStore<Id, u64>,
            A,
            Cmd,
        >(
            checked,
            before,
            snapshots_before,
            aggregate_id,
            command,
            metadata,
            after,
            snapshots_after,
            result,
        ),
        snapshots_before.policy() == SnapshotPolicy::Never,
    ensures
        snapshots_after == snapshots_before,
{
    if !(after == before && snapshots_after == snapshots_before) {
        lemma_effect::<Id, C, M, InMemorySnapshotStore<Id, u64>, A, Cmd>(
            checked,
            before,
            snapshots_before,
            aggregate_id,
            command,
            metadata,
            after,
            snapshots_after,
            result,
        );
    }
}

/// A failed command leaves both in-memory stores as they were.
pub proof fn law_failed_command_changes_neither_store<Id, C, M, A, Cmd>(
    checked: bool,
    before: InMemoryEventStore<Id, C, M>,
    snapshots_before: InMemorySnapshotStore<Id, u64>,
    aggregate_id: <Id as AggregateId>::Key,
    command: Cmd,
    metadata: M,
    after: InMemoryEventStore<Id, C, M>,
    snapshots_after: InMemorySnapshotStore<Id, u64>,
    result: Result<
        (),
        OptimisticSnapshotCommandError<A::Error, u64, InMemoryError, C::Error, Infallible>,
    >,
) where
    Id: AggregateId,
    C: Codec,
    M: Clone,
    A: Aggregate<Id = Id> + Handle<Cmd> + serde::Serialize + serde::de::DeserializeOwned,
    A::Event: ProjectionEvent<C> + SerializableEvent<C>,

    requires
        executes_with_snapshots::<
            InMemoryEventStore<Id, C, M>,
            InMemorySnapshotStore<Id, u64>,
            A,
            Cmd,
        >(
            checked,
            before,
            snapshots_before,
            aggregate_id,
            command,
            metadata,
            after,
            snapshots_after,
            result,
        ),
        result is Err,
    ensures
        after == before,
        snapshots_after == snapshots_before,
{
    if !(after == before && snapshots_after == snapshots_before) {
        lemma_effect::<Id, C, M, InMemorySnapshotStore<Id, u64>, A, Cmd>(
            checked,
            before,
            snapshots_before,
            aggregate_id,
            command,
            metadata,
            after,
            snapshots_after,
            result,
        );
    }
}

/// Without another writer there is no conflict, with snapshots as without: a command that runs on
/// the in-memory store alone meets the version that it expects, whatever the snapshots hold.
pub proof fn law_no_conflict_with_snapshots<Id, C, M, SS, A, Cmd>(
    before: InMemoryEventStore<Id, C, M>,
    snapshots_before: SS,
    aggregate_id: <Id as AggregateId>::Key,
    command: Cmd,
    metadata: M,
    after: InMemoryEventStore<Id, C, M>,
    snapshots_after: SS,
    error: OptimisticSnapshotCommandError<A::Error, u64, InMemoryError, C::Error, SS::Error>,
) where
    Id: AggregateId,
    C: Codec,
    M: Clone,
    SS: SnapshotStore<Id = Id, Position = u64>,
    A: Aggregate<Id = Id> + Handle<Cmd> + serde::Serialize + serde::de::DeserializeOwned,
    A::Event: ProjectionEvent<C> + SerializableEvent<C>,

    requires
        executes_with_snapshots::<InMemoryEventStore<Id, C, M>, SS, A, Cmd>(
            true,
            before,
            snapshots_before,
            aggregate_id,
            command,
            metadata,
            after,
            snapshots_after,
            Err(error),
        ),
    ensures
        !(error is Concurrency),
{
}

/// A command with retries and snapshots makes at least one attempt and at most one more than the
/// retries it may make.
pub proof fn law_retry_attempts_with_snapshots<S, SS, A, Cmd>(
    max_retries: usize,
    before: S,
    snapshots_before: SS,
    aggregate_id: <S::Id as AggregateId>::Key,
    command: Cmd,
    metadata: S::Metadata,
    after: S,
    snapshots_after: SS,
    attempts: usize,
) where
    S: EventStore,
    S::Metadata: Clone,
    SS: SnapshotStore<Id = S::Id, Position = S::Position>,
    A: Aggregate<Id = S::Id> + Handle<Cmd> + serde::Serialize + serde::de::DeserializeOwned,
    A::Event: ProjectionEvent<S::Codec> + SerializableEvent<S::Codec>,

    requires
        retries_with_snapshots::<S, SS, A, Cmd>(
            max_retries as nat,
            before,
            snapshots_before,
            aggregate_id,
            command,
            metadata,
            after,
            snapshots_after,
            Ok(attempts),
        ),
    ensures
        1 <= attempts <= max_retries + 1,
        max_retries == 0 ==> executes_with_snapshots::<S, SS, A, Cmd>(
            true,
            before,
            snapshots_before,
            aggregate_id,
            command,
            metadata,
            after,
            snapshots_after,
            Ok(()),
        ),
{
}

/// Loading after a command with snapshots that stored events gives a state that a full replay
/// before it could give, with the events of the command applied.
///
/// This holds where the snapshots are faithful, of event types that read back as they were written,
/// and of states that are decoded as they were encoded. The witnesses are the loaded aggregate that
/// handled the command, its events, and what a full replay before could give.
pub proof fn law_command_with_snapshots_then_load<Id, C, M, A, Cmd>(
    checked: bool,
    before: InMemoryEventStore<Id, C, M>,
    snapshots_before: InMemorySnapshotStore<Id, u64>,
    aggregate_id: <Id as AggregateId>::Key,
    command: Cmd,
    metadata: M,
    after: InMemoryEventStore<Id, C, M>,
    snapshots_after: InMemorySnapshotStore<Id, u64>,
    result: Result<
        (),
        OptimisticSnapshotCommandError<A::Error, u64, InMemoryError, C::Error, Infallible>,
    >,
    loaded: LoadedAggregate<A>,
) -> (r: (LoadedAggregate<A>, Seq<A::Event>, LoadedAggregate<A>)) where
    Id: AggregateId,
    C: Codec,
    M: Clone,
    A: Aggregate<Id = Id> + Handle<Cmd> + serde::Serialize + serde::de::DeserializeOwned,
    A::Event: ProjectionEvent<C> + SerializableEvent<C>,

    requires
        executes_with_snapshots::<
            InMemoryEventStore<Id, C, M>,
            InMemorySnapshotStore<Id, u64>,
            A,
            Cmd,
        >(
            checked,
            before,
            snapshots_before,
            aggregate_id,
            command,
            metadata,
            after,
            snapshots_after,
            result,
        ),
        after != before,
        faithful_snapshots::<Id, C, M, InMemorySnapshotStore<Id, u64>, A>(
            before,
            snapshots_before,
            aggregate_id,
        ),
        round_trips::<A::Event, C>(before.made_with()),
        state_round_trips::<A, C>(before.made_with()),
        restores(after, snapshots_after, aggregate_id, Ok(loaded)),
    ensures
        restores(before, snapshots_before, aggregate_id, Ok(r.0)),
        r.0.aggregate.handles(command, Ok(r.1)),
        rebuilds(before, aggregate_id, Ok(r.2)),
        reaches(r.2.aggregate, r.1, loaded.aggregate),
{
    law_snapshots_stay_faithful::<Id, C, M, A, Cmd>(
        checked,
        before,
        snapshots_before,
        aggregate_id,
        command,
        metadata,
        after,
        snapshots_after,
        result,
    );
    lemma_effect::<Id, C, M, InMemorySnapshotStore<Id, u64>, A, Cmd>(
        checked,
        before,
        snapshots_before,
        aggregate_id,
        command,
        metadata,
        after,
        snapshots_after,
        result,
    );
    let (state, events, batch, prepared) = choose|
        state: LoadedAggregate<A>,
        events: Seq<A::Event>,
        batch: Seq<PersistableEvent<M>>,
        prepared: Option<Seq<u8>>,
    | #[trigger]
        took_effect(
            before,
            snapshots_before,
            aggregate_id,
            metadata,
            after,
            snapshots_after,
            result,
            state,
            events,
            batch,
            prepared,
        ) && state.aggregate.handles(command, Ok(events));
    lemma_faithful_snapshots_hold_states::<Id, C, M, InMemorySnapshotStore<Id, u64>, A>(
        after,
        snapshots_after,
        aggregate_id,
    );
    let full = law_loading_with_snapshots_is_full_replay(
        after,
        snapshots_after,
        aggregate_id,
        Ok(loaded),
    );
    let earlier = lemma_load_after_append(
        before,
        aggregate_id,
        metadata,
        after,
        events,
        batch,
        full->Ok_0,
    );
    (state, events, earlier)
}

/// A snapshot store without snapshots is faithful.
pub proof fn law_no_snapshots_are_faithful<Id, C, M, A>(
    store: InMemoryEventStore<Id, C, M>,
    snapshots: InMemorySnapshotStore<Id, u64>,
    aggregate_id: <Id as AggregateId>::Key,
) where
    Id: AggregateId,
    C: Codec,
    M: Clone,
    A: Aggregate<Id = Id> + serde::de::DeserializeOwned,
    A::Event: ProjectionEvent<C>,

    requires
        snapshots.snapshots() == Map::<
            (Seq<char>, <Id as AggregateId>::Key),
            Snapshot<u64>,
        >::empty(),
    ensures
        faithful_snapshots::<Id, C, M, InMemorySnapshotStore<Id, u64>, A>(
            store,
            snapshots,
            aggregate_id,
        ),
{
}

/// Commands keep the snapshots of other aggregate instances faithful, be they of the same type or
/// of another.
pub proof fn law_other_snapshots_stay_faithful<Id, C, M, A, Cmd, B>(
    checked: bool,
    before: InMemoryEventStore<Id, C, M>,
    snapshots_before: InMemorySnapshotStore<Id, u64>,
    aggregate_id: <Id as AggregateId>::Key,
    command: Cmd,
    metadata: M,
    after: InMemoryEventStore<Id, C, M>,
    snapshots_after: InMemorySnapshotStore<Id, u64>,
    result: Result<
        (),
        OptimisticSnapshotCommandError<A::Error, u64, InMemoryError, C::Error, Infallible>,
    >,
    other_id: <Id as AggregateId>::Key,
) where
    Id: AggregateId,
    C: Codec,
    M: Clone,
    A: Aggregate<Id = Id> + Handle<Cmd> + serde::Serialize + serde::de::DeserializeOwned,
    A::Event: ProjectionEvent<C> + SerializableEvent<C>,
    B: Aggregate<Id = Id> + serde::de::DeserializeOwned,
    B::Event: ProjectionEvent<C>,

    requires
        executes_with_snapshots::<
            InMemoryEventStore<Id, C, M>,
            InMemorySnapshotStore<Id, u64>,
            A,
            Cmd,
        >(
            checked,
            before,
            snapshots_before,
            aggregate_id,
            command,
            metadata,
            after,
            snapshots_after,
            result,
        ),
        (B::KIND@, other_id) != (A::KIND@, aggregate_id),
        faithful_snapshots::<Id, C, M, InMemorySnapshotStore<Id, u64>, B>(
            before,
            snapshots_before,
            other_id,
        ),
    ensures
        faithful_snapshots::<Id, C, M, InMemorySnapshotStore<Id, u64>, B>(
            after,
            snapshots_after,
            other_id,
        ),
{
    if !(after == before && snapshots_after == snapshots_before) {
        lemma_effect::<Id, C, M, InMemorySnapshotStore<Id, u64>, A, Cmd>(
            checked,
            before,
            snapshots_before,
            aggregate_id,
            command,
            metadata,
            after,
            snapshots_after,
            result,
        );
        let codec = before.made_with();
        assert forall|snapshot: Snapshot<u64>, state: B|
            #![trigger
                snapshots_after.finds(B::KIND@, other_id, Ok(Some(snapshot))),
                decodes(codec, snapshot.data@, Ok(state))]
            snapshots_after.finds(B::KIND@, other_id, Ok(Some(snapshot))) && decodes(
                codec,
                snapshot.data@,
                Ok(state),
            ) implies faithful(after, other_id, snapshot.position, state) by {
            assert(snapshots_before.finds(B::KIND@, other_id, Ok(Some(snapshot))));
            lemma_faithful_extended(before, after, other_id, snapshot.position, state);
        }
    }
}

} // verus!
