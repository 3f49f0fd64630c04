//! Laws of repositories: what loading gives, and what commands do to what is loaded afterwards.

use vstd::prelude::*;
use crate::aggregate::{
    fresh, reaches, read_as, reads_as, replays, Aggregate, Handle,
};
use crate::codec::{Codec, EventDecodeError, ProjectionEvent, SerializableEvent};
use crate::id::AggregateId;
use crate::concurrency::{ConcurrencyConflict, Optimistic};
use crate::inmemory::{
    extended, selection, stream, version, InMemoryError, InMemoryEventStore,
};
use crate::laws::history::{history, lemma_instance_selection, of_history, place_after};
use crate::laws::basics::law_replay_reads_every_event;
use crate::laws::inmemory::{law_load_is_any_filter, law_version_is_last_event};
use crate::projection::{among, ProjectionError};
use crate::repository::{
    catches_up, caught_up, commits, conflicts, executes, expects, rebuilds, replayed, retries, runs,
    stores, without_conflict, writes_down, written_as, CodecError, CommandError, LoadError,
    LoadedAggregate, OptimisticCommandError,
};
use crate::store::{
    copied, instance_filters, AppendError, EventFilter, EventStore, PersistableEvent, StoredEvent,
    Transaction,
};

verus! {

/// A command that the aggregate refuses, or that fails because the aggregate cannot be rebuilt or
/// an event cannot be encoded, leaves the store as it was.
pub proof fn law_refused_command_changes_nothing<
    S: EventStore,
    A: Aggregate<Id = S::Id> + Handle<Cmd>,
    Cmd,
>(
    checked: bool,
    before: S,
    aggregate_id: <S::Id as AggregateId>::Key,
    command: Cmd,
    metadata: S::Metadata,
    after: S,
    error: OptimisticCommandError<A::Error, S::Position, S::Error, CodecError<S>>,
) where
    A::Event: ProjectionEvent<S::Codec> + SerializableEvent<S::Codec>,
    S::Metadata: Clone,

    requires
        executes::<S, A, Cmd>(
            checked,
            before,
            aggregate_id,
            command,
            metadata,
            after,
            Err(error),
        ),
        error is Aggregate || error is Projection || error is Codec,
    ensures
        after == before,
{
}

/// A command that can only bring about no events succeeds and leaves the store as it was, once the
/// aggregate could be rebuilt.
pub proof fn law_command_without_events_changes_nothing<
    S: EventStore,
    A: Aggregate<Id = S::Id> + Handle<Cmd>,
    Cmd,
>(
    checked: bool,
    before: S,
    aggregate_id: <S::Id as AggregateId>::Key,
    command: Cmd,
    metadata: S::Metadata,
    after: S,
    result: Result<(), OptimisticCommandError<A::Error, S::Position, S::Error, CodecError<S>>>,
) where
    A::Event: ProjectionEvent<S::Codec> + SerializableEvent<S::Codec>,
    S::Metadata: Clone,

    requires
        executes::<S, A, Cmd>(
            checked,
            before,
            aggregate_id,
            command,
            metadata,
            after,
            result,
        ),
        forall|state: A, handled: Result<Seq<A::Event>, A::Error>| #[trigger]
            state.handles(command, handled) ==> (handled matches Ok(events) && events.len() == 0),
    ensures
        after == before,
        result is Ok || result matches Err(OptimisticCommandError::Projection(_)),
{
}

/// A command with retries makes at least one attempt and at most one more than the retries it may
/// make.
pub proof fn law_retry_attempts<S: EventStore, A: Aggregate<Id = S::Id> + Handle<Cmd>, Cmd>(
    max_retries: usize,
    before: S,
    aggregate_id: <S::Id as AggregateId>::Key,
    command: Cmd,
    metadata: S::Metadata,
    after: S,
    attempts: usize,
) where
    A::Event: ProjectionEvent<S::Codec> + SerializableEvent<S::Codec>,
    S::Metadata: Clone,

    requires
        retries::<S, A, Cmd>(
            max_retries as nat,
            before,
            aggregate_id,
            command,
            metadata,
            after,
            Ok(attempts),
        ),
    ensures
        1 <= attempts <= max_retries + 1,
        max_retries == 0 ==> executes::<S, A, Cmd>(
            true,
            before,
            aggregate_id,
            command,
            metadata,
            after,
            Ok(()),
        ),
{
}

/// Loading from the in-memory store replays the history of the aggregate instance, in the order in
/// which it was written, on a state to begin with.
///
/// The witnesses are that state and the events as they were loaded.
pub proof fn law_load_replays_history<Id, C, M, A>(
    store: InMemoryEventStore<Id, C, M>,
    aggregate_id: <Id as AggregateId>::Key,
    loaded: LoadedAggregate<A>,
) -> (r: (A, Seq<StoredEvent<Id, u64, M>>)) where
    Id: AggregateId,
    C: Codec,
    M: Clone,
    A: Aggregate<Id = Id>,
    A::Event: ProjectionEvent<C>,

    requires
        rebuilds(store, aggregate_id, Ok(loaded)),
    ensures
        fresh(r.0),
        copied(
            history(
                store.log(),
                A::Event::EVENT_KINDS@,
                (A::KIND@, aggregate_id),
            ),
            r.1,
        ),
        replays(store.made_with(), r.0, r.1, Ok(loaded.aggregate)),
        loaded.events_since_snapshot == r.1.len(),
{
    let start = choose|start: A| #[trigger]
        fresh(start) && catches_up(store, aggregate_id, start, None, Ok(loaded));
    let caught = lemma_caught_up(store, aggregate_id, start, None, loaded);
    assert(store.log().skip(0) =~= store.log());
    (start, caught.1)
}

/// The filters and the events by which an aggregate caught up with the in-memory store.
pub(crate) proof fn lemma_caught_up<Id, C, M, A>(
    store: InMemoryEventStore<Id, C, M>,
    aggregate_id: <Id as AggregateId>::Key,
    start: A,
    after: Option<u64>,
    loaded: LoadedAggregate<A>,
) -> (r: (Seq<EventFilter<Id, u64>>, Seq<StoredEvent<Id, u64, M>>)) where
    Id: AggregateId,
    C: Codec,
    M: Clone,
    A: Aggregate<Id = Id>,
    A::Event: ProjectionEvent<C>,

    requires
        catches_up(store, aggregate_id, start, after, Ok(loaded)),
    ensures
        instance_filters(A::Event::EVENT_KINDS@, A::KIND@, aggregate_id, after, r.0),
        copied(
            history(
                store.log().skip(place_after(after, store.log().len())),
                A::Event::EVENT_KINDS@,
                (A::KIND@, aggregate_id),
            ),
            r.1,
        ),
        replays(store.made_with(), start, r.1, Ok(loaded.aggregate)),
        loaded.events_since_snapshot == r.1.len(),
{
    let kinds = A::Event::EVENT_KINDS@;
    let filters = choose|filters: Seq<EventFilter<Id, u64>>|
        {
            &&& #[trigger] instance_filters(kinds, A::KIND@, aggregate_id, after, filters)
            &&& exists|stored: Seq<StoredEvent<Id, u64, M>>| #[trigger]
                caught_up(store, start, filters, stored, loaded)
        };
    let stored = choose|stored: Seq<StoredEvent<Id, u64, M>>| #[trigger]
        caught_up(store, start, filters, stored, loaded);
    store.positions();
    lemma_instance_selection(store.log(), kinds, A::KIND@, aggregate_id, after, filters);
    (filters, stored)
}

/// Replaying events in two parts is replaying them in one.
pub proof fn law_replay_in_parts<A: Aggregate>(
    from: A,
    first: Seq<A::Event>,
    middle: A,
    second: Seq<A::Event>,
    to: A,
)
    requires
        reaches(from, first, middle),
        reaches(middle, second, to),
    ensures
        reaches(from, first + second, to),
    decreases second.len(),
{
    if second.len() == 0 {
        assert(first + second =~= first);
    } else {
        let near = choose|near: A|
            reaches(middle, second.drop_last(), near) && #[trigger] near.applies(second.last(), to);
        law_replay_in_parts(from, first, middle, second.drop_last(), near);
        let whole = first + second;
        assert(whole.drop_last() =~= first + second.drop_last());
        assert(near.applies(whole.last(), to));
    }
}

/// A replay can be cut in two.
pub(crate) proof fn lemma_replay_cut<A: Aggregate>(
    from: A,
    events: Seq<A::Event>,
    n: int,
    to: A,
) -> (middle: A)
    requires
        reaches(from, events, to),
        0 <= n <= events.len(),
    ensures
        reaches(from, events.take(n), middle),
        reaches(middle, events.skip(n), to),
    decreases events.len(),
{
    if n == events.len() {
        assert(events.take(n) =~= events);
        assert(events.skip(n) =~= Seq::empty());
        to
    } else {
        let near = choose|near: A|
            reaches(from, events.drop_last(), near) && #[trigger] near.applies(events.last(), to);
        let middle = lemma_replay_cut(from, events.drop_last(), n, near);
        assert(events.drop_last().take(n) =~= events.take(n));
        let rest = events.skip(n);
        assert(rest.drop_last() =~= events.drop_last().skip(n));
        assert(near.applies(rest.last(), to));
        assert(reaches(middle, rest, to));
        middle
    }
}

/// A sequence whose elements all satisfy a predicate is what the predicate filters from it.
proof fn lemma_filter_all<T>(s: Seq<T>, pred: spec_fn(T) -> bool)
    requires
        forall|i: int| 0 <= i < s.len() ==> pred(#[trigger] s[i]),
    ensures
        s.filter(pred) == s,
    decreases s.len(),
{
    reveal(Seq::filter);
    if s.len() > 0 {
        lemma_filter_all(s.drop_last(), pred);
        assert(s.drop_last().push(s.last()) =~= s);
    }
}

/// Appending events of the aggregate instance, of its kinds, adds them to its history.
pub(crate) proof fn lemma_history_extended<Id: AggregateId, M>(
    before: Seq<StoredEvent<Id, u64, M>>,
    aggregate_kind: Seq<char>,
    aggregate_id: <Id as AggregateId>::Key,
    batch: Seq<PersistableEvent<M>>,
    after: Seq<StoredEvent<Id, u64, M>>,
    kinds: Seq<&str>,
)
    requires
        extended(before, aggregate_kind, aggregate_id, batch, after),
        forall|i: int| 0 <= i < batch.len() ==> among(kinds, (#[trigger] batch[i]).kind@),
    ensures
        history(after, kinds, (aggregate_kind, aggregate_id)) == history(
            before,
            kinds,
            (aggregate_kind, aggregate_id),
        ) + after.skip(before.len() as int),
{
    let key = (aggregate_kind, aggregate_id);
    let pred = |event: StoredEvent<Id, u64, M>| of_history(kinds, key, event);
    let tail = after.skip(before.len() as int);
    assert(after =~= before + tail);
    Seq::filter_distributes_over_add(before, tail, pred);
    assert forall|i: int| 0 <= i < tail.len() implies pred(#[trigger] tail[i]) by {
        assert(tail[i] == after[before.len() + i]);
        assert(among(kinds, batch[i].kind@));
    }
    lemma_filter_all(tail, pred);
}

/// Whatever an event of the sum type is written down as is of one of its kinds, and reads back as
/// that event only.
pub open spec fn round_trips<E, C>(codec: C) -> bool where
    C: Codec,
    E: ProjectionEvent<C> + SerializableEvent<C>,
 {
    forall|event: E, kind: Seq<char>, data: Seq<u8>| #[trigger]
        event.persists(codec, Ok((kind, data))) ==> among(E::EVENT_KINDS@, kind) && reads_only_as(
            codec,
            kind,
            data,
            event,
        )
}

/// What was stored is read back as the event, and as nothing else.
pub open spec fn reads_only_as<E: ProjectionEvent<C>, C: Codec>(
    codec: C,
    kind: Seq<char>,
    data: Seq<u8>,
    event: E,
) -> bool {
    &&& E::restores(kind, data, codec, Ok(event))
    &&& forall|read: Result<E, EventDecodeError<C::Error>>| #[trigger]
        E::restores(kind, data, codec, read) ==> read == Ok::<E, EventDecodeError<C::Error>>(event)
}

/// The events of a successful command are appended to the stream of the aggregate instance, as
/// they were written down.
///
/// The witnesses are the loaded aggregate that handled the command, its events, and these events as
/// they were written down.
pub proof fn law_command_appends_its_events<Id, C, M, A, Cmd>(
    checked: bool,
    before: InMemoryEventStore<Id, C, M>,
    aggregate_id: <Id as AggregateId>::Key,
    command: Cmd,
    metadata: M,
    after: InMemoryEventStore<Id, C, M>,
) -> (r: (LoadedAggregate<A>, Seq<A::Event>, Seq<PersistableEvent<M>>)) where
    Id: AggregateId,
    C: Codec,
    M: Clone,
    A: Aggregate<Id = Id> + Handle<Cmd>,
    A::Event: ProjectionEvent<C> + SerializableEvent<C>,

    requires
        executes::<InMemoryEventStore<Id, C, M>, A, Cmd>(
            checked,
            before,
            aggregate_id,
            command,
            metadata,
            after,
            Ok(()),
        ),
    ensures
        rebuilds(before, aggregate_id, Ok(r.0)),
        r.0.aggregate.handles(command, Ok(r.1)),
        written_as(before.made_with(), r.1, metadata, r.2),
        after.made_with() == before.made_with(),
        extended(before.log(), A::KIND@, aggregate_id, r.2, after.log()),
{
    let version = choose|version: Option<u64>|
        #[trigger] expects(checked, before, A::KIND@, aggregate_id, Ok(version)) && runs::<
            InMemoryEventStore<Id, C, M>,
            A,
            Cmd,
        >(checked, version, before, aggregate_id, command, metadata, after, Ok(()));
    let state = choose|state: LoadedAggregate<A>|
        {
            &&& #[trigger] rebuilds(before, aggregate_id, Ok(state))
            &&& exists|events: Seq<A::Event>| #[trigger]
                state.aggregate.handles(command, Ok(events)) && if events.len() == 0 {
                    after == before
                } else {
                    stores::<InMemoryEventStore<Id, C, M>, A>(
                        checked,
                        before,
                        aggregate_id,
                        version,
                        events,
                        metadata,
                        after,
                        Ok(()),
                    )
                }
        };
    let events = choose|events: Seq<A::Event>| #[trigger]
        state.aggregate.handles(command, Ok(events)) && if events.len() == 0 {
            after == before
        } else {
            stores::<InMemoryEventStore<Id, C, M>, A>(
                checked,
                before,
                aggregate_id,
                version,
                events,
                metadata,
                after,
                Ok(()),
            )
        };
    if events.len() == 0 {
        let batch = Seq::<PersistableEvent<M>>::empty();
        assert(extended(before.log(), A::KIND@, aggregate_id, batch, after.log()));
        (state, events, batch)
    } else {
        let batch = choose|batch: Seq<PersistableEvent<M>>| #[trigger]
            written_as(before.made_with(), events, metadata, batch) && extended(
                before.log(),
                A::KIND@,
                aggregate_id,
                batch,
                after.log(),
            );
        (state, events, batch)
    }
}

/// Copies read back as what they are copies of.
pub(crate) proof fn lemma_copies_read_alike<E, C, Id, M>(
    codec: C,
    events: Seq<StoredEvent<Id, u64, M>>,
    copies: Seq<StoredEvent<Id, u64, M>>,
    read: Seq<E>,
) where C: Codec, E: ProjectionEvent<C>, Id: AggregateId, M: Clone
    requires
        copied(events, copies),
        read_as(codec, copies, read),
    ensures
        read_as(codec, events, read),
{
    assert forall|i: int| 0 <= i < events.len() implies reads_as(
        codec,
        events[i],
        #[trigger] read[i],
    ) by {
        assert(copies[i].is_copy_of(events[i]));
        assert(reads_as(codec, copies[i], read[i]));
    }
}

/// Where stored events lead to a state, loading them gives that state.
pub(crate) proof fn lemma_rebuilds<Id, C, M, A>(
    store: InMemoryEventStore<Id, C, M>,
    aggregate_id: <Id as AggregateId>::Key,
    filters: Seq<EventFilter<Id, u64>>,
    stored: Seq<StoredEvent<Id, u64, M>>,
    start: A,
    events: Seq<A::Event>,
    aggregate: A,
) -> (loaded: LoadedAggregate<A>) where
    Id: AggregateId,
    C: Codec,
    M: Clone,
    A: Aggregate<Id = Id>,
    A::Event: ProjectionEvent<C>,

    requires
        instance_filters(A::Event::EVENT_KINDS@, A::KIND@, aggregate_id, None, filters),
        copied(
            history(
                store.log(),
                A::Event::EVENT_KINDS@,
                (A::KIND@, aggregate_id),
            ),
            stored,
        ),
        fresh(start),
        read_as(store.made_with(), stored, events),
        reaches(start, events, aggregate),
    ensures
        rebuilds(store, aggregate_id, Ok(loaded)),
        loaded.aggregate == aggregate,
        loaded.events_since_snapshot == stored.len(),
{
    let kinds = A::Event::EVENT_KINDS@;
    let key = (A::KIND@, aggregate_id);
    store.positions();
    lemma_instance_selection(store.log(), kinds, A::KIND@, aggregate_id, None, filters);
    assert(store.log().skip(0) =~= store.log());
    store.log().lemma_filter_len(
        |event: StoredEvent<Id, u64, M>| of_history(kinds, key, event),
    );
    let loaded = LoadedAggregate {
        aggregate,
        events_since_snapshot: stored.len() as u64,
    };
    assert(caught_up(store, start, filters, stored, loaded));
    let result: Result<LoadedAggregate<A>, LoadError<InMemoryEventStore<Id, C, M>>> = Ok(loaded);
    assert(result->Ok_0 == loaded);
    assert(replayed(store, start, filters, result));
    assert(catches_up(store, aggregate_id, start, None, result));
    loaded
}

/// Loading after events were appended gives a state that loading before could give, with the events
/// applied.
pub(crate) proof fn lemma_load_after_append<Id, C, M, A>(
    before: InMemoryEventStore<Id, C, M>,
    aggregate_id: <Id as AggregateId>::Key,
    metadata: M,
    after: InMemoryEventStore<Id, C, M>,
    new_events: Seq<A::Event>,
    batch: Seq<PersistableEvent<M>>,
    loaded: LoadedAggregate<A>,
) -> (earlier: LoadedAggregate<A>) where
    Id: AggregateId,
    C: Codec,
    M: Clone,
    A: Aggregate<Id = Id>,
    A::Event: ProjectionEvent<C> + SerializableEvent<C>,

    requires
        written_as(before.made_with(), new_events, metadata, batch),
        after.made_with() == before.made_with(),
        extended(before.log(), A::KIND@, aggregate_id, batch, after.log()),
        rebuilds(after, aggregate_id, Ok(loaded)),
        round_trips::<A::Event, C>(before.made_with()),
    ensures
        rebuilds(before, aggregate_id, Ok(earlier)),
        reaches(earlier.aggregate, new_events, loaded.aggregate),
        loaded.events_since_snapshot == earlier.events_since_snapshot + new_events.len(),
{
    let codec = before.made_with();
    let kinds = A::Event::EVENT_KINDS@;
    let key = (A::KIND@, aggregate_id);
    let start = choose|start: A| #[trigger]
        fresh(start) && catches_up(after, aggregate_id, start, None, Ok(loaded));
    let (filters, stored) = lemma_caught_up(after, aggregate_id, start, None, loaded);
    assert(after.log().skip(0) =~= after.log());
    assert forall|i: int| 0 <= i < batch.len() implies among(kinds, (#[trigger] batch[i]).kind@) by {
        assert(new_events[i].persists(codec, Ok((batch[i].kind@, batch[i].data@))));
    }
    lemma_history_extended(
        before.log(),
        A::KIND@,
        aggregate_id,
        batch,
        after.log(),
        kinds,
    );
    let past = history(before.log(), kinds, key);
    let whole = history(after.log(), kinds, key);
    let n = past.len() as int;
    let events = choose|events: Seq<A::Event>| #[trigger]
        read_as(codec, stored, events) && reaches(start, events, loaded.aggregate);
    let middle = lemma_replay_cut(start, events, n, loaded.aggregate);
    let stored_before = stored.take(n);
    assert(copied(past, stored_before)) by {
        assert forall|i: int| 0 <= i < past.len() implies (
        #[trigger] stored_before[i]).is_copy_of(past[i]) by {
            assert(stored[i].is_copy_of(whole[i]));
        }
    }
    assert(read_as(codec, stored_before, events.take(n))) by {
        assert forall|i: int| 0 <= i < stored_before.len() implies reads_as(
            codec,
            stored_before[i],
            #[trigger] events.take(n)[i],
        ) by {
            assert(reads_as(codec, stored[i], events[i]));
        }
    }
    let earlier = lemma_rebuilds(
        before,
        aggregate_id,
        filters,
        stored_before,
        start,
        events.take(n),
        middle,
    );
    assert forall|i: int| 0 <= i < new_events.len() implies events.skip(n)[i] == new_events[i] by {
        let read = events[n + i];
        assert(reads_as(codec, stored[n + i], read));
        assert(stored[n + i].is_copy_of(whole[n + i]));
        assert(whole[n + i] == after.log()[before.log().len() + i]);
        assert(new_events[i].persists(codec, Ok((batch[i].kind@, batch[i].data@))));
        assert(reads_only_as(codec, batch[i].kind@, batch[i].data@, new_events[i]));
    }
    assert(events.skip(n) =~= new_events);
    earlier
}

/// Loading after a successful command gives a state that loading before it could give, with the
/// events of the command applied.
///
/// This holds of event types that read back as they were written. The witnesses are the loaded
/// aggregate that handled the command, its events, and what loading before could give.
pub proof fn law_command_then_load<Id, C, M, A, Cmd>(
    checked: bool,
    before: InMemoryEventStore<Id, C, M>,
    aggregate_id: <Id as AggregateId>::Key,
    command: Cmd,
    metadata: M,
    after: InMemoryEventStore<Id, C, M>,
    loaded: LoadedAggregate<A>,
) -> (r: (LoadedAggregate<A>, Seq<A::Event>, LoadedAggregate<A>)) where
    Id: AggregateId,
    C: Codec,
    M: Clone,
    A: Aggregate<Id = Id> + Handle<Cmd>,
    A::Event: ProjectionEvent<C> + SerializableEvent<C>,

    requires
        executes::<InMemoryEventStore<Id, C, M>, A, Cmd>(
            checked,
            before,
            aggregate_id,
            command,
            metadata,
            after,
            Ok(()),
        ),
        rebuilds(after, aggregate_id, Ok(loaded)),
        round_trips::<A::Event, C>(before.made_with()),
    ensures
        rebuilds(before, aggregate_id, Ok(r.0)),
        r.0.aggregate.handles(command, Ok(r.1)),
        rebuilds(before, aggregate_id, Ok(r.2)),
        reaches(r.2.aggregate, r.1, loaded.aggregate),
        loaded.events_since_snapshot == r.2.events_since_snapshot + r.1.len(),
{
    let (state, new_events, batch) = law_command_appends_its_events::<Id, C, M, A, Cmd>(
        checked,
        before,
        aggregate_id,
        command,
        metadata,
        after,
    );
    let old_loaded = lemma_load_after_append(
        before,
        aggregate_id,
        metadata,
        after,
        new_events,
        batch,
        loaded,
    );
    (state, new_events, old_loaded)
}

/// A failed command leaves the in-memory store as it was.
pub proof fn law_failed_command_changes_nothing<Id, C, M, A, Cmd>(
    checked: bool,
    before: InMemoryEventStore<Id, C, M>,
    aggregate_id: <Id as AggregateId>::Key,
    command: Cmd,
    metadata: M,
    after: InMemoryEventStore<Id, C, M>,
    error: OptimisticCommandError<A::Error, u64, InMemoryError, C::Error>,
) where
    Id: AggregateId,
    C: Codec,
    M: Clone,
    A: Aggregate<Id = Id> + Handle<Cmd>,
    A::Event: ProjectionEvent<C> + SerializableEvent<C>,

    requires
        executes::<InMemoryEventStore<Id, C, M>, A, Cmd>(
            checked,
            before,
            aggregate_id,
            command,
            metadata,
            after,
            Err(error),
        ),
    ensures
        after == before,
{
}

/// Without another writer there is no conflict: a command that runs on the in-memory store alone
/// meets the version that it expects, whatever events the stream holds.
pub proof fn law_no_conflict_without_other_writers<Id, C, M, A, Cmd>(
    before: InMemoryEventStore<Id, C, M>,
    aggregate_id: <Id as AggregateId>::Key,
    command: Cmd,
    metadata: M,
    after: InMemoryEventStore<Id, C, M>,
    error: OptimisticCommandError<A::Error, u64, InMemoryError, C::Error>,
) where
    Id: AggregateId,
    C: Codec,
    M: Clone,
    A: Aggregate<Id = Id> + Handle<Cmd>,
    A::Event: ProjectionEvent<C> + SerializableEvent<C>,

    requires
        executes::<InMemoryEventStore<Id, C, M>, A, Cmd>(
            true,
            before,
            aggregate_id,
            command,
            metadata,
            after,
            Err(error),
        ),
    ensures
        !(error is Concurrency),
{
}

/// No chain of conflicts begins where a command cannot meet one.
proof fn lemma_no_conflicts<Id, C, M, A, Cmd>(
    n: nat,
    before: InMemoryEventStore<Id, C, M>,
    aggregate_id: <Id as AggregateId>::Key,
    command: Cmd,
    metadata: M,
    after: InMemoryEventStore<Id, C, M>,
) where
    Id: AggregateId,
    C: Codec,
    M: Clone,
    A: Aggregate<Id = Id> + Handle<Cmd>,
    A::Event: ProjectionEvent<C> + SerializableEvent<C>,

    requires
        conflicts::<InMemoryEventStore<Id, C, M>, A, Cmd>(
            n,
            before,
            aggregate_id,
            command,
            metadata,
            after,
        ),
    ensures
        n == 0,
    decreases n,
{
    if n > 0 {
        let (middle, error) = choose|
            middle: InMemoryEventStore<Id, C, M>,
            error: ConcurrencyConflict<u64>,
        |
            {
                &&& conflicts::<InMemoryEventStore<Id, C, M>, A, Cmd>(
                    (n - 1) as nat,
                    before,
                    aggregate_id,
                    command,
                    metadata,
                    middle,
                )
                &&& #[trigger] executes::<InMemoryEventStore<Id, C, M>, A, Cmd>(
                    true,
                    middle,
                    aggregate_id,
                    command,
                    metadata,
                    after,
                    Err(OptimisticCommandError::Concurrency(error)),
                )
            };
        lemma_no_conflicts::<Id, C, M, A, Cmd>(
            (n - 1) as nat,
            before,
            aggregate_id,
            command,
            metadata,
            middle,
        );
        law_no_conflict_without_other_writers::<Id, C, M, A, Cmd>(
            before,
            aggregate_id,
            command,
            metadata,
            after,
            OptimisticCommandError::Concurrency(error),
        );
    }
}

/// Without another writer a command needs one attempt, and fails only for reasons of its own.
pub proof fn law_one_attempt_without_other_writers<Id, C, M, A, Cmd>(
    max_retries: nat,
    before: InMemoryEventStore<Id, C, M>,
    aggregate_id: <Id as AggregateId>::Key,
    command: Cmd,
    metadata: M,
    after: InMemoryEventStore<Id, C, M>,
    result: Result<usize, OptimisticCommandError<A::Error, u64, InMemoryError, C::Error>>,
) where
    Id: AggregateId,
    C: Codec,
    M: Clone,
    A: Aggregate<Id = Id> + Handle<Cmd>,
    A::Event: ProjectionEvent<C> + SerializableEvent<C>,

    requires
        retries::<InMemoryEventStore<Id, C, M>, A, Cmd>(
            max_retries,
            before,
            aggregate_id,
            command,
            metadata,
            after,
            result,
        ),
    ensures
        match result {
            Ok(attempts) => attempts == 1,
            Err(error) => !(error is Concurrency),
        },
{
    assert forall|n: nat, middle: InMemoryEventStore<Id, C, M>| #[trigger]
        conflicts::<InMemoryEventStore<Id, C, M>, A, Cmd>(
            n,
            before,
            aggregate_id,
            command,
            metadata,
            middle,
        ) implies n == 0 by {
        lemma_no_conflicts::<Id, C, M, A, Cmd>(
            n,
            before,
            aggregate_id,
            command,
            metadata,
            middle,
        );
    }
    if let Err(error) = result {
        law_no_conflict_without_other_writers::<Id, C, M, A, Cmd>(
            before,
            aggregate_id,
            command,
            metadata,
            after,
            error,
        );
    }
}

/// Loading an aggregate instance that has no events of the aggregate's kinds gives a state to begin
/// with.
pub proof fn law_load_without_history<Id, C, M, A>(
    store: InMemoryEventStore<Id, C, M>,
    aggregate_id: <Id as AggregateId>::Key,
    result: Result<LoadedAggregate<A>, LoadError<InMemoryEventStore<Id, C, M>>>,
) where
    Id: AggregateId,
    C: Codec,
    M: Clone,
    A: Aggregate<Id = Id>,
    A::Event: ProjectionEvent<C>,

    requires
        rebuilds(store, aggregate_id, result),
        history(
            store.log(),
            A::Event::EVENT_KINDS@,
            (A::KIND@, aggregate_id),
        ).len() == 0,
    ensures
        result matches Ok(loaded) && {
            &&& fresh(loaded.aggregate)
            &&& loaded.events_since_snapshot == 0
        },
{
    let kinds = A::Event::EVENT_KINDS@;
    let start = choose|start: A| #[trigger]
        fresh(start) && catches_up(store, aggregate_id, start, None, result);
    store.positions();
    assert(store.log().skip(0) =~= store.log());
    assert forall|filters: Seq<EventFilter<Id, u64>>| #[trigger]
        instance_filters(kinds, A::KIND@, aggregate_id, None, filters) implies selection(
        store.log(),
        filters,
    ).len() == 0 by {
        lemma_instance_selection(store.log(), kinds, A::KIND@, aggregate_id, None, filters);
    }
}

/// A checked write to the in-memory store succeeds only where the version that was read is still
/// that of the stream; where it is not, nothing is written. A conflict names the version that was
/// read and the one that was found, which differ. No other error comes of writing; one may come of
/// encoding.
pub proof fn law_checked_write_needs_the_version_read<Id, C, M, A>(
    store: InMemoryEventStore<Id, C, M>,
    aggregate_id: <Id as AggregateId>::Key,
    version_read: Option<u64>,
    events: Seq<A::Event>,
    metadata: M,
    after: InMemoryEventStore<Id, C, M>,
    result: Result<(), OptimisticCommandError<A::Error, u64, InMemoryError, C::Error>>,
    current: Option<u64>,
) where
    Id: AggregateId,
    C: Codec,
    M: Clone,
    A: Aggregate<Id = Id>,
    A::Event: ProjectionEvent<C> + SerializableEvent<C>,

    requires
        stores::<InMemoryEventStore<Id, C, M>, A>(
            true,
            store,
            aggregate_id,
            version_read,
            events,
            metadata,
            after,
            result,
        ),
        store.reports(A::KIND@, aggregate_id, Ok(current)),
    ensures
        match result {
            Ok(_) => {
                &&& version_read == current
                &&& after.log().len() == store.log().len() + events.len()
            },
            Err(OptimisticCommandError::Concurrency(conflict)) => {
                &&& version_read != current
                &&& conflict.expected == version_read
                &&& conflict.actual == current
                &&& after == store
            },
            Err(OptimisticCommandError::Codec(error)) => {
                &&& after == store
                &&& exists|i: int|
                    0 <= i < events.len() && (#[trigger] events[i]).persists(
                        store.made_with(),
                        Err(error),
                    )
            },
            Err(_) => false,
        },
{
}

/// An event that another writer adds to the stream between reading the version and writing the batch
/// keeps the batch out: the write ends in a conflict, or in an error of encoding, and the store is as
/// the other writer left it.
pub proof fn law_event_in_between_keeps_batch_out<Id, C, M, A>(
    when_read: InMemoryEventStore<Id, C, M>,
    aggregate_id: <Id as AggregateId>::Key,
    version_read: Option<u64>,
    when_written: InMemoryEventStore<Id, C, M>,
    between: int,
    events: Seq<A::Event>,
    metadata: M,
    after: InMemoryEventStore<Id, C, M>,
    result: Result<(), OptimisticCommandError<A::Error, u64, InMemoryError, C::Error>>,
) where
    Id: AggregateId,
    C: Codec,
    M: Clone,
    A: Aggregate<Id = Id>,
    A::Event: ProjectionEvent<C> + SerializableEvent<C>,

    requires
        expects(true, when_read, A::KIND@, aggregate_id, Ok(version_read)),
        when_read.log().len() <= between < when_written.log().len(),
        forall|i: int|
            0 <= i < when_read.log().len() ==> #[trigger] when_written.log()[i]
                == when_read.log()[i],
        when_written.log()[between].aggregate_kind@ == A::KIND@,
        when_written.log()[between].aggregate_id.key() == aggregate_id,
        stores::<InMemoryEventStore<Id, C, M>, A>(
            true,
            when_written,
            aggregate_id,
            version_read,
            events,
            metadata,
            after,
            result,
        ),
    ensures
        after == when_written,
        match result {
            Err(OptimisticCommandError::Concurrency(conflict)) => {
                &&& conflict.expected == version_read
                &&& conflict.actual is Some
                &&& conflict.actual->Some_0 >= between
                &&& when_written.reports(A::KIND@, aggregate_id, Ok(conflict.actual))
            },
            Err(OptimisticCommandError::Codec(error)) => exists|i: int|
                0 <= i < events.len() && (#[trigger] events[i]).persists(
                    when_written.made_with(),
                    Err(error),
                ),
            _ => false,
        },
{
    let current = version(when_written.log(), (A::KIND@, aggregate_id));
    assert(when_written.reports(A::KIND@, aggregate_id, Ok(current)));
    law_version_is_last_event(when_read, A::KIND@, aggregate_id, Ok(version_read));
    law_version_is_last_event(when_written, A::KIND@, aggregate_id, Ok(current));
    assert(current is Some && current->Some_0 >= between) by {
        assert(when_written.log()[between].aggregate_kind@ == A::KIND@);
    }
    law_checked_write_needs_the_version_read::<Id, C, M, A>(
        when_written,
        aggregate_id,
        version_read,
        events,
        metadata,
        after,
        result,
        current,
    );
}

/// The same of a whole command that expects a version: where the stream moved on since the version
/// was read, the command stores nothing. It can only end well where it brings about no events.
pub proof fn law_command_with_stale_version_stores_nothing<Id, C, M, A, Cmd>(
    version_read: Option<u64>,
    store: InMemoryEventStore<Id, C, M>,
    current: Option<u64>,
    aggregate_id: <Id as AggregateId>::Key,
    command: Cmd,
    metadata: M,
    after: InMemoryEventStore<Id, C, M>,
    result: Result<(), OptimisticCommandError<A::Error, u64, InMemoryError, C::Error>>,
) where
    Id: AggregateId,
    C: Codec,
    M: Clone,
    A: Aggregate<Id = Id> + Handle<Cmd>,
    A::Event: ProjectionEvent<C> + SerializableEvent<C>,

    requires
        runs::<InMemoryEventStore<Id, C, M>, A, Cmd>(
            true,
            version_read,
            store,
            aggregate_id,
            command,
            metadata,
            after,
            result,
        ),
        store.reports(A::KIND@, aggregate_id, Ok(current)),
        version_read != current,
    ensures
        after == store,
        result is Ok ==> exists|state: A| #[trigger] state.handles(command, Ok(Seq::empty())),
        result matches Err(OptimisticCommandError::Concurrency(conflict)) ==> conflict.expected
            == version_read && conflict.actual == current,
{
    if result is Ok {
        let loaded = choose|loaded: LoadedAggregate<A>|
            {
                &&& #[trigger] rebuilds(store, aggregate_id, Ok(loaded))
                &&& exists|events: Seq<A::Event>| #[trigger]
                    loaded.aggregate.handles(command, Ok(events)) && (events.len() == 0 || stores::<
                        InMemoryEventStore<Id, C, M>,
                        A,
                    >(
                        true,
                        store,
                        aggregate_id,
                        version_read,
                        events,
                        metadata,
                        after,
                        result,
                    ))
            };
        let events = choose|events: Seq<A::Event>| #[trigger]
            loaded.aggregate.handles(command, Ok(events)) && (events.len() == 0 || stores::<
                InMemoryEventStore<Id, C, M>,
                A,
            >(true, store, aggregate_id, version_read, events, metadata, after, result));
        if events.len() > 0 {
            law_checked_write_needs_the_version_read::<Id, C, M, A>(
                store,
                aggregate_id,
                version_read,
                events,
                metadata,
                after,
                result,
                current,
            );
        }
        assert(events =~= Seq::empty());
    }
}

/// A write without version checking succeeds unless an event cannot be encoded.
pub proof fn law_unchecked_write_succeeds<Id, C, M, A>(
    store: InMemoryEventStore<Id, C, M>,
    aggregate_id: <Id as AggregateId>::Key,
    version: Option<u64>,
    events: Seq<A::Event>,
    metadata: M,
    after: InMemoryEventStore<Id, C, M>,
    result: Result<(), OptimisticCommandError<A::Error, u64, InMemoryError, C::Error>>,
) where
    Id: AggregateId,
    C: Codec,
    M: Clone,
    A: Aggregate<Id = Id>,
    A::Event: ProjectionEvent<C> + SerializableEvent<C>,

    requires
        stores::<InMemoryEventStore<Id, C, M>, A>(
            false,
            store,
            aggregate_id,
            version,
            events,
            metadata,
            after,
            result,
        ),
    ensures
        match result {
            Ok(_) => after.log().len() == store.log().len() + events.len(),
            Err(OptimisticCommandError::Codec(error)) => {
                &&& after == store
                &&& exists|i: int|
                    0 <= i < events.len() && (#[trigger] events[i]).persists(
                        store.made_with(),
                        Err(error),
                    )
            },
            Err(_) => false,
        },
{
}

/// A successful write puts every event of the command at the end of the log, in order: as it was
/// written down, with a clone of the metadata, for the aggregate instance. What was in the log stays.
pub proof fn law_write_stores_every_event<Id, C, M, A>(
    checked: bool,
    store: InMemoryEventStore<Id, C, M>,
    aggregate_id: <Id as AggregateId>::Key,
    version: Option<u64>,
    events: Seq<A::Event>,
    metadata: M,
    after: InMemoryEventStore<Id, C, M>,
) where
    Id: AggregateId,
    C: Codec,
    M: Clone,
    A: Aggregate<Id = Id>,
    A::Event: ProjectionEvent<C> + SerializableEvent<C>,

    requires
        stores::<InMemoryEventStore<Id, C, M>, A>(
            checked,
            store,
            aggregate_id,
            version,
            events,
            metadata,
            after,
            Ok(()),
        ),
    ensures
        after.made_with() == store.made_with(),
        after.log().len() == store.log().len() + events.len(),
        forall|i: int|
            0 <= i < store.log().len() ==> #[trigger] after.log()[i] == store.log()[i],
        forall|i: int|
            0 <= i < events.len() ==> {
                let added = after.log()[store.log().len() + i];
                &&& (#[trigger] events[i]).persists(
                    store.made_with(),
                    Ok((added.kind@, added.data@)),
                )
                &&& cloned(metadata, added.metadata)
                &&& added.aggregate_kind@ == A::KIND@
                &&& added.aggregate_id.key() == aggregate_id
                &&& added.position == store.log().len() + i
            },
{
    let batch = choose|batch: Seq<PersistableEvent<M>>| #[trigger]
        written_as(store.made_with(), events, metadata, batch) && extended(
            store.log(),
            A::KIND@,
            aggregate_id,
            batch,
            after.log(),
        );
    assert forall|i: int| 0 <= i < events.len() implies {
        let added = after.log()[store.log().len() + i];
        &&& (#[trigger] events[i]).persists(store.made_with(), Ok((added.kind@, added.data@)))
        &&& cloned(metadata, added.metadata)
        &&& added.aggregate_kind@ == A::KIND@
        &&& added.aggregate_id.key() == aggregate_id
        &&& added.position == store.log().len() + i
    } by {
        let added = after.log()[store.log().len() + i];
        assert(events[i].persists(store.made_with(), Ok((batch[i].kind@, batch[i].data@))));
        assert(added.kind == batch[i].kind);
    }
}

/// Catching up with any store replays what the filters of the aggregate instance load, and nothing
/// else; a failure is that of loading or of reading an event back.
///
/// The witnesses are the filters and what they load.
pub proof fn law_catching_up_replays_what_is_loaded<S: EventStore, A: Aggregate<Id = S::Id>>(
    store: S,
    aggregate_id: <S::Id as AggregateId>::Key,
    start: A,
    after: Option<S::Position>,
    result: Result<LoadedAggregate<A>, LoadError<S>>,
) -> (r: (
    Seq<EventFilter<S::Id, S::Position>>,
    Seq<StoredEvent<S::Id, S::Position, S::Metadata>>,
)) where A::Event: ProjectionEvent<S::Codec>
    requires
        catches_up(store, aggregate_id, start, after, result),
    ensures
        instance_filters(A::Event::EVENT_KINDS@, A::KIND@, aggregate_id, after, r.0),
        match result {
            Ok(loaded) => {
                &&& store.loads(r.0, Ok(r.1))
                &&& replays(store.used_codec(), start, r.1, Ok(loaded.aggregate))
                &&& loaded.events_since_snapshot == r.1.len()
            },
            Err(ProjectionError::Store(error)) => store.loads(r.0, Err(error)),
            Err(ProjectionError::EventDecode(error)) => {
                &&& store.loads(r.0, Ok(r.1))
                &&& replays(store.used_codec(), start, r.1, Err(error))
            },
            Err(_) => false,
        },
{
    let filters = choose|filters: Seq<EventFilter<S::Id, S::Position>>| #[trigger]
        instance_filters(A::Event::EVENT_KINDS@, A::KIND@, aggregate_id, after, filters)
            && replayed(store, start, filters, result);
    match result {
        Ok(loaded) => {
            let stored = choose|stored: Seq<StoredEvent<S::Id, S::Position, S::Metadata>>|
                #[trigger] caught_up(store, start, filters, stored, loaded);
            (filters, stored)
        },
        Err(ProjectionError::EventDecode(error)) => {
            let stored = choose|stored: Seq<StoredEvent<S::Id, S::Position, S::Metadata>>|
                #[trigger] store.loads(filters, Ok(stored)) && replays(
                    store.used_codec(),
                    start,
                    stored,
                    Err(error),
                );
            (filters, stored)
        },
        Err(_) => (filters, Seq::empty()),
    }
}

/// Loading by a full replay is catching up from a state to begin with, with no position to start
/// after. The witness is that state.
pub proof fn law_full_replay_starts_at_the_beginning<S: EventStore, A: Aggregate<Id = S::Id>>(
    store: S,
    aggregate_id: <S::Id as AggregateId>::Key,
    result: Result<LoadedAggregate<A>, LoadError<S>>,
) -> (start: A) where A::Event: ProjectionEvent<S::Codec>
    requires
        rebuilds(store, aggregate_id, result),
    ensures
        call_ensures(A::default, (), start),
        catches_up(store, aggregate_id, start, None, result),
{
    choose|start: A| #[trigger]
        fresh(start) && catches_up(store, aggregate_id, start, None, result)
}

/// Catching up with the in-memory store replays every event of the aggregate instance after the
/// position whose kind the aggregate knows, each once, in the order of the log, and no other event.
///
/// The witnesses are the places of these events in the log, and the events as they were read back.
pub proof fn law_catching_up_replays_every_event_of_the_instance<Id, C, M, A>(
    store: InMemoryEventStore<Id, C, M>,
    aggregate_id: <Id as AggregateId>::Key,
    start: A,
    after: Option<u64>,
    loaded: LoadedAggregate<A>,
) -> (r: (Seq<int>, Seq<A::Event>)) where
    Id: AggregateId,
    C: Codec,
    M: Clone,
    A: Aggregate<Id = Id>,
    A::Event: ProjectionEvent<C>,

    requires
        catches_up(store, aggregate_id, start, after, Ok(loaded)),
    ensures
        forall|i: int|
            0 <= i < store.log().len() ==> (r.0.contains(i) <==> {
                &&& (#[trigger] store.log()[i]).aggregate_kind@ == A::KIND@
                &&& store.log()[i].aggregate_id.key() == aggregate_id
                &&& exists|j: int|
                    0 <= j < A::Event::EVENT_KINDS@.len() && (#[trigger] A::Event::EVENT_KINDS@[j])@
                        == store.log()[i].kind@
                &&& after is Some ==> i > after->Some_0
            }),
        forall|k: int, m: int|
            0 <= k < m < r.0.len() ==> 0 <= #[trigger] r.0[k] < #[trigger] r.0[m]
                < store.log().len(),
        r.1.len() == r.0.len(),
        forall|k: int|
            0 <= k < r.0.len() ==> 0 <= r.0[k] < store.log().len() && A::Event::restores(
                store.log()[r.0[k]].kind@,
                store.log()[r.0[k]].data@,
                store.made_with(),
                Ok(#[trigger] r.1[k]),
            ),
        reaches(start, r.1, loaded.aggregate),
        loaded.events_since_snapshot == r.0.len(),
{
    let (filters, stored) = law_catching_up_replays_what_is_loaded(
        store,
        aggregate_id,
        start,
        after,
        Ok(loaded),
    );
    law_load_is_any_filter(store, filters, Ok(stored));
    let events = law_replay_reads_every_event(
        store.made_with(),
        start,
        stored,
        Ok(loaded.aggregate),
    );
    let places = Seq::new(stored.len(), |k: int| stored[k].position as int);
    let kinds = A::Event::EVENT_KINDS@;
    assert forall|i: int| 0 <= i < store.log().len() implies (places.contains(i) <==> {
        &&& (#[trigger] store.log()[i]).aggregate_kind@ == A::KIND@
        &&& store.log()[i].aggregate_id.key() == aggregate_id
        &&& exists|j: int|
            0 <= j < A::Event::EVENT_KINDS@.len() && (#[trigger] A::Event::EVENT_KINDS@[j])@
                == store.log()[i].kind@
        &&& after is Some ==> i > after->Some_0
    }) by {
        if places.contains(i) {
            let k = choose|k: int| 0 <= k < places.len() && #[trigger] places[k] == i;
            assert(stored[k].position == i);
            let j = choose|j: int|
                {
                    &&& 0 <= j < filters.len()
                    &&& (#[trigger] filters[j]).event_kind@ == store.log()[i].kind@
                    &&& (filters[j].aggregate_kind is Some && filters[j].aggregate_id is Some) ==> {
                        &&& filters[j].aggregate_kind->Some_0@ == store.log()[i].aggregate_kind@
                        &&& filters[j].aggregate_id->Some_0.key()
                            == store.log()[i].aggregate_id.key()
                    }
                    &&& filters[j].after_position is Some ==> i > filters[j].after_position->Some_0
                };
            assert(kinds[j]@ == store.log()[i].kind@);
        }
        if {
            &&& store.log()[i].aggregate_kind@ == A::KIND@
            &&& store.log()[i].aggregate_id.key() == aggregate_id
            &&& exists|j: int|
                0 <= j < kinds.len() && (#[trigger] kinds[j])@ == store.log()[i].kind@
            &&& after is Some ==> i > after->Some_0
        } {
            let j = choose|j: int|
                0 <= j < kinds.len() && (#[trigger] kinds[j])@ == store.log()[i].kind@;
            assert(filters[j].event_kind@ == store.log()[i].kind@);
            let k = choose|k: int| 0 <= k < stored.len() && (#[trigger] stored[k]).position == i;
            assert(places[k] == i);
        }
    }
    assert forall|k: int, m: int| 0 <= k < m < places.len() implies 0 <= #[trigger] places[k]
        < #[trigger] places[m] < store.log().len() by {
        assert(stored[k].position < stored[m].position);
    }
    assert forall|k: int| 0 <= k < places.len() implies 0 <= places[k] < store.log().len()
        && A::Event::restores(
        store.log()[places[k]].kind@,
        store.log()[places[k]].data@,
        store.made_with(),
        Ok(#[trigger] events[k]),
    ) by {
        assert(stored[k].kind@ == store.log()[stored[k].position as int].kind@);
    }
    (places, events)
}

/// A command with version checking expects the version that the store tells of the aggregate
/// instance; one without asks nothing.
pub proof fn law_expected_version_is_told_by_the_store<S: EventStore>(
    checked: bool,
    store: S,
    aggregate_kind: Seq<char>,
    aggregate_id: <S::Id as AggregateId>::Key,
    reported: Result<Option<S::Position>, S::Error>,
)
    requires
        expects(checked, store, aggregate_kind, aggregate_id, reported),
    ensures
        checked ==> store.reports(aggregate_kind, aggregate_id, reported),
        !checked ==> reported matches Ok(None),
{
}

/// What came of a command, by its result: a refusal is the handler's answer to a loaded state, a
/// failure to rebuild is that of loading or of asking for the version, and everything else comes of
/// writing the events that the handler answered a loaded state with, against the version that the
/// store told where there is version checking. Nothing changes unless events are written.
pub proof fn law_command_outcome_is_explained<
    S: EventStore,
    A: Aggregate<Id = S::Id> + Handle<Cmd>,
    Cmd,
>(
    checked: bool,
    before: S,
    aggregate_id: <S::Id as AggregateId>::Key,
    command: Cmd,
    metadata: S::Metadata,
    after: S,
    result: Result<(), OptimisticCommandError<A::Error, S::Position, S::Error, CodecError<S>>>,
) where
    A::Event: ProjectionEvent<S::Codec> + SerializableEvent<S::Codec>,
    S::Metadata: Clone,

    requires
        executes::<S, A, Cmd>(
            checked,
            before,
            aggregate_id,
            command,
            metadata,
            after,
            result,
        ),
    ensures
        match result {
            Err(OptimisticCommandError::Aggregate(error)) => {
                &&& after == before
                &&& exists|loaded: LoadedAggregate<A>| #[trigger]
                    rebuilds(before, aggregate_id, Ok(loaded)) && loaded.aggregate.handles(
                        command,
                        Err(error),
                    )
            },
            Err(OptimisticCommandError::Projection(error)) => {
                &&& after == before
                &&& rebuilds::<S, A>(before, aggregate_id, Err(error)) || (checked && (
                error matches ProjectionError::Store(e) && before.reports(
                    A::KIND@,
                    aggregate_id,
                    Err(e),
                )))
            },
            _ => exists|
                loaded: LoadedAggregate<A>,
                events: Seq<A::Event>,
                version: Option<S::Position>,
            |
                {
                    &&& #[trigger] rebuilds(before, aggregate_id, Ok(loaded))
                    &&& #[trigger] loaded.aggregate.handles(command, Ok(events))
                    &&& #[trigger] expects(checked, before, A::KIND@, aggregate_id, Ok(version))
                    &&& events.len() == 0 ==> after == before && result is Ok
                    &&& events.len() > 0 ==> stores::<S, A>(
                        checked,
                        before,
                        aggregate_id,
                        version,
                        events,
                        metadata,
                        after,
                        result,
                    )
                },
        },
{
    let reported = choose|reported: Result<Option<S::Position>, S::Error>|
        {
            &&& #[trigger] expects(checked, before, A::KIND@, aggregate_id, reported)
            &&& match reported {
                Err(error) => {
                    &&& after == before
                    &&& result matches Err(
                        OptimisticCommandError::Projection(ProjectionError::Store(e)),
                    ) && e == error
                },
                Ok(version) => runs::<S, A, Cmd>(
                    checked,
                    version,
                    before,
                    aggregate_id,
                    command,
                    metadata,
                    after,
                    result,
                ),
            }
        };
    if let Ok(version) = reported {
        let loaded = choose|loaded: Result<LoadedAggregate<A>, LoadError<S>>|
            {
                &&& #[trigger] rebuilds(before, aggregate_id, loaded)
                &&& match loaded {
                    Err(error) => {
                        &&& after == before
                        &&& result matches Err(OptimisticCommandError::Projection(e)) && e == error
                    },
                    Ok(loaded) => exists|handled: Result<Seq<A::Event>, A::Error>|
                        {
                            &&& #[trigger] loaded.aggregate.handles(command, handled)
                            &&& match handled {
                                Err(error) => {
                                    &&& after == before
                                    &&& result matches Err(OptimisticCommandError::Aggregate(e))
                                        && e == error
                                },
                                Ok(events) => if events.len() == 0 {
                                    after == before && result is Ok
                                } else {
                                    stores::<S, A>(
                                        checked,
                                        before,
                                        aggregate_id,
                                        version,
                                        events,
                                        metadata,
                                        after,
                                        result,
                                    )
                                },
                            }
                        },
                }
            };
        if let Err(error) = loaded {
            assert(rebuilds::<S, A>(before, aggregate_id, Err(error)));
        }
        if let Ok(state) = loaded {
            assert(rebuilds(before, aggregate_id, Ok(state)));
            let handled = choose|handled: Result<Seq<A::Event>, A::Error>|
                {
                    &&& #[trigger] state.aggregate.handles(command, handled)
                    &&& match handled {
                        Err(error) => {
                            &&& after == before
                            &&& result matches Err(OptimisticCommandError::Aggregate(e)) && e
                                == error
                        },
                        Ok(events) => if events.len() == 0 {
                            after == before && result is Ok
                        } else {
                            stores::<S, A>(
                                checked,
                                before,
                                aggregate_id,
                                version,
                                events,
                                metadata,
                                after,
                                result,
                            )
                        },
                    }
                };
            if let Err(error) = handled {
                assert(state.aggregate.handles(command, Err(error)));
            }
            if let Ok(events) = handled {
                assert(state.aggregate.handles(command, Ok(events)));
                assert(events.len() > 0 ==> stores::<S, A>(
                    checked,
                    before,
                    aggregate_id,
                    version,
                    events,
                    metadata,
                    after,
                    result,
                ));
            }
        }
    }
}

/// Committing asks any store for one append: with version checking one that expects the version, or
/// a new stream where there is none; without, one that expects nothing.
pub proof fn law_commit_is_one_append<S: EventStore>(
    checked: bool,
    before: S,
    aggregate_kind: Seq<char>,
    aggregate_id: <S::Id as AggregateId>::Key,
    version: Option<S::Position>,
    batch: Seq<PersistableEvent<S::Metadata>>,
    after: S,
    done: Result<(), AppendError<S::Position, S::Error>>,
)
    requires
        commits(checked, before, aggregate_kind, aggregate_id, version, batch, after, done),
    ensures
        checked && version is Some ==> before.appends(
            aggregate_kind,
            aggregate_id,
            version,
            batch,
            after,
            done,
        ),
        checked && version is None ==> before.appends_new(
            aggregate_kind,
            aggregate_id,
            batch,
            after,
            done,
        ),
        !checked ==> before.appends(aggregate_kind, aggregate_id, None, batch, after, done),
{
}

/// A committed transaction with version checking is one append that expects the version, or a new
/// stream where there is none.
pub proof fn law_optimistic_commit_expects_the_version<S: EventStore>(
    before: S,
    aggregate_kind: Seq<char>,
    aggregate_id: <S::Id as AggregateId>::Key,
    version: Option<S::Position>,
    batch: Seq<PersistableEvent<S::Metadata>>,
    after: S,
    done: Result<(), AppendError<S::Position, S::Error>>,
)
    requires
        Transaction::<S, Optimistic>::commits(
            before,
            aggregate_kind,
            aggregate_id,
            version,
            batch,
            after,
            done,
        ),
    ensures
        version is Some ==> before.appends(
            aggregate_kind,
            aggregate_id,
            version,
            batch,
            after,
            done,
        ),
        version is None ==> before.appends_new(aggregate_kind, aggregate_id, batch, after, done),
{
}

/// Writing the events of a command to any store: an event that cannot be written down leaves the
/// store as it was; otherwise the whole batch goes into one commit, whose outcome is the command's.
///
/// The witness is what came of writing the events down.
pub proof fn law_write_is_one_commit<S: EventStore, A: Aggregate<Id = S::Id>>(
    checked: bool,
    before: S,
    aggregate_id: <S::Id as AggregateId>::Key,
    version: Option<S::Position>,
    events: Seq<A::Event>,
    metadata: S::Metadata,
    after: S,
    result: Result<(), OptimisticCommandError<A::Error, S::Position, S::Error, CodecError<S>>>,
) -> (written: Result<Seq<PersistableEvent<S::Metadata>>, CodecError<S>>) where
    A::Event: ProjectionEvent<S::Codec> + SerializableEvent<S::Codec>,
    S::Metadata: Clone,

    requires
        stores::<S, A>(
            checked,
            before,
            aggregate_id,
            version,
            events,
            metadata,
            after,
            result,
        ),
    ensures
        writes_down(before.used_codec(), events, metadata, written),
        match written {
            Err(error) => after == before && (result matches Err(OptimisticCommandError::Codec(e))
                && e == error),
            Ok(batch) => match result {
                Ok(done) => commits(
                    checked,
                    before,
                    A::KIND@,
                    aggregate_id,
                    version,
                    batch,
                    after,
                    Ok(done),
                ),
                Err(OptimisticCommandError::Concurrency(conflict)) => commits(
                    checked,
                    before,
                    A::KIND@,
                    aggregate_id,
                    version,
                    batch,
                    after,
                    Err(AppendError::Conflict(conflict)),
                ),
                Err(OptimisticCommandError::Store(error)) => commits(
                    checked,
                    before,
                    A::KIND@,
                    aggregate_id,
                    version,
                    batch,
                    after,
                    Err(AppendError::Store(error)),
                ),
                Err(_) => false,
            },
        },
{
    let written = choose|written: Result<Seq<PersistableEvent<S::Metadata>>, CodecError<S>>|
        {
            &&& #[trigger] writes_down(before.used_codec(), events, metadata, written)
            &&& match written {
                Err(error) => {
                    &&& after == before
                    &&& result matches Err(OptimisticCommandError::Codec(e)) && e == error
                },
                Ok(batch) => exists|done: Result<(), AppendError<S::Position, S::Error>>|
                    {
                        &&& #[trigger] commits(
                            checked,
                            before,
                            A::KIND@,
                            aggregate_id,
                            version,
                            batch,
                            after,
                            done,
                        )
                        &&& match done {
                            Ok(()) => result is Ok,
                            Err(AppendError::Conflict(conflict)) => result matches Err(
                                OptimisticCommandError::Concurrency(e),
                            ) && e == conflict,
                            Err(AppendError::Store(error)) => result matches Err(
                                OptimisticCommandError::Store(e),
                            ) && e == error,
                        }
                    },
            }
        };
    if let Ok(batch) = written {
        let done = choose|done: Result<(), AppendError<S::Position, S::Error>>|
            {
                &&& #[trigger] commits(
                    checked,
                    before,
                    A::KIND@,
                    aggregate_id,
                    version,
                    batch,
                    after,
                    done,
                )
                &&& match done {
                    Ok(()) => result is Ok,
                    Err(AppendError::Conflict(conflict)) => result matches Err(
                        OptimisticCommandError::Concurrency(e),
                    ) && e == conflict,
                    Err(AppendError::Store(error)) => result matches Err(
                        OptimisticCommandError::Store(e),
                    ) && e == error,
                }
            };
        if let Ok(unit) = done {
            assert(unit == ());
            assert(result->Ok_0 == ());
        }
    }
    written
}

/// The outcome of a command without version checking stays what it is when it is seen among those of
/// commands with it: success stays success, and each error keeps its kind and its cause.
pub proof fn law_unchecked_outcome_is_kept<AggregateError, Position, StoreError, CodecError>(
    result: Result<(), CommandError<AggregateError, StoreError, CodecError>>,
)
    ensures
        match (
            result,
            without_conflict::<AggregateError, Position, StoreError, CodecError>(result),
        ) {
            (Ok(_), Ok(_)) => true,
            (
                Err(CommandError::Aggregate(error)),
                Err(OptimisticCommandError::Aggregate(seen)),
            ) => seen == error,
            (
                Err(CommandError::Projection(error)),
                Err(OptimisticCommandError::Projection(seen)),
            ) => seen == error,
            (Err(CommandError::Codec(error)), Err(OptimisticCommandError::Codec(seen))) => seen
                == error,
            (Err(CommandError::Store(error)), Err(OptimisticCommandError::Store(seen))) => seen
                == error,
            _ => false,
        },
{
}

/// Conflicts in a row, as the stores between them.
proof fn lemma_conflicts_in_a_row<S: EventStore, A: Aggregate<Id = S::Id> + Handle<Cmd>, Cmd>(
    n: nat,
    before: S,
    aggregate_id: <S::Id as AggregateId>::Key,
    command: Cmd,
    metadata: S::Metadata,
    after: S,
) -> (r: (Seq<S>, Seq<ConcurrencyConflict<S::Position>>)) where
    A::Event: ProjectionEvent<S::Codec> + SerializableEvent<S::Codec>,
    S::Metadata: Clone,

    requires
        conflicts::<S, A, Cmd>(n, before, aggregate_id, command, metadata, after),
    ensures
        r.0.len() == n + 1,
        r.1.len() == n,
        r.0[0] == before,
        r.0[n as int] == after,
        forall|i: int|
            0 <= i < n ==> executes::<S, A, Cmd>(
                true,
                r.0[i],
                aggregate_id,
                command,
                metadata,
                r.0[i + 1],
                Err(OptimisticCommandError::Concurrency(#[trigger] r.1[i])),
            ),
    decreases n,
{
    if n == 0 {
        (seq![before], Seq::empty())
    } else {
        let (middle, error) = choose|middle: S, error: ConcurrencyConflict<S::Position>|
            {
                &&& conflicts::<S, A, Cmd>(
                    (n - 1) as nat,
                    before,
                    aggregate_id,
                    command,
                    metadata,
                    middle,
                )
                &&& #[trigger] executes::<S, A, Cmd>(
                    true,
                    middle,
                    aggregate_id,
                    command,
                    metadata,
                    after,
                    Err(OptimisticCommandError::Concurrency(error)),
                )
            };
        let (earlier, found) = lemma_conflicts_in_a_row::<S, A, Cmd>(
            (n - 1) as nat,
            before,
            aggregate_id,
            command,
            metadata,
            middle,
        );
        let between = earlier.push(after);
        let all = found.push(error);
        assert forall|i: int| 0 <= i < n implies executes::<S, A, Cmd>(
            true,
            between[i],
            aggregate_id,
            command,
            metadata,
            between[i + 1],
            Err(OptimisticCommandError::Concurrency(#[trigger] all[i])),
        ) by {
            if i < n - 1 {
                assert(all[i] == found[i]);
                assert(between[i] == earlier[i] && between[i + 1] == earlier[i + 1]);
            } else {
                assert(between[i] == middle && between[i + 1] == after);
            }
        }
        (between, all)
    }
}

/// A command with retries is a row of attempts, each on the store that the one before left: all but
/// the last ended in a conflict, the last decides. There are at most as many retries as allowed; a
/// conflict is the outcome only where all were used, and success counts the attempts.
///
/// The witnesses are the stores that the attempts began with, and the conflicts that they met.
pub proof fn law_retry_is_a_row_of_attempts<
    S: EventStore,
    A: Aggregate<Id = S::Id> + Handle<Cmd>,
    Cmd,
>(
    max_retries: nat,
    before: S,
    aggregate_id: <S::Id as AggregateId>::Key,
    command: Cmd,
    metadata: S::Metadata,
    after: S,
    result: Result<usize, OptimisticCommandError<A::Error, S::Position, S::Error, CodecError<S>>>,
) -> (r: (Seq<S>, Seq<ConcurrencyConflict<S::Position>>)) where
    A::Event: ProjectionEvent<S::Codec> + SerializableEvent<S::Codec>,
    S::Metadata: Clone,

    requires
        retries::<S, A, Cmd>(
            max_retries,
            before,
            aggregate_id,
            command,
            metadata,
            after,
            result,
        ),
    ensures
        1 <= r.0.len() <= max_retries + 1,
        r.1.len() == r.0.len() - 1,
        r.0[0] == before,
        forall|i: int|
            0 <= i < r.1.len() ==> executes::<S, A, Cmd>(
                true,
                r.0[i],
                aggregate_id,
                command,
                metadata,
                r.0[i + 1],
                Err(OptimisticCommandError::Concurrency(#[trigger] r.1[i])),
            ),
        match result {
            Ok(attempts) => {
                &&& r.0.len() <= usize::MAX ==> attempts == r.0.len()
                &&& executes::<S, A, Cmd>(
                    true,
                    r.0.last(),
                    aggregate_id,
                    command,
                    metadata,
                    after,
                    Ok(()),
                )
            },
            Err(error) => {
                &&& error is Concurrency ==> r.0.len() == max_retries + 1
                &&& executes::<S, A, Cmd>(
                    true,
                    r.0.last(),
                    aggregate_id,
                    command,
                    metadata,
                    after,
                    Err(error),
                )
            },
        },
{
    let (n, middle) = choose|n: nat, middle: S|
        {
            &&& n <= max_retries
            &&& #[trigger] conflicts::<S, A, Cmd>(
                n,
                before,
                aggregate_id,
                command,
                metadata,
                middle,
            )
            &&& match result {
                Ok(attempts) => attempts == crate::repository::attempts_after(n) && executes::<
                    S,
                    A,
                    Cmd,
                >(true, middle, aggregate_id, command, metadata, after, Ok(())),
                Err(error) => (error is Concurrency ==> n == max_retries) && executes::<S, A, Cmd>(
                    true,
                    middle,
                    aggregate_id,
                    command,
                    metadata,
                    after,
                    Err(error),
                ),
            }
        };
    lemma_conflicts_in_a_row::<S, A, Cmd>(n, before, aggregate_id, command, metadata, middle)
}

} // verus!
