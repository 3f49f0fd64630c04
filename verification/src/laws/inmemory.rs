//! Laws of the in-memory event store: what is loaded, what was written, and versions.

use vstd::prelude::*;
use crate::codec::Codec;
use crate::concurrency::ConcurrencyConflict;
use crate::id::AggregateId;
use crate::inmemory::{
    asks_for, selection, some_filter_asks, stream, stream_of, version, InMemoryError,
    InMemoryEventStore,
};
use crate::projection::among;
use crate::store::{
    copied, instance_filters, kind_filters, AppendError, EventFilter, EventStore,
    PersistableEvent, StoredEvent,
};

verus! {

/// What a predicate filters from a log comes from the log and follows its positions.
proof fn lemma_filter_by_position<Id: AggregateId, M>(
    log: Seq<StoredEvent<Id, u64, M>>,
    pred: spec_fn(StoredEvent<Id, u64, M>) -> bool,
)
    requires
        forall|i: int| 0 <= i < log.len() ==> (#[trigger] log[i]).position == i,
    ensures
        forall|k: int|
            0 <= k < log.filter(pred).len() ==> {
                let event = #[trigger] log.filter(pred)[k];
                &&& event.position < log.len()
                &&& log[event.position as int] == event
                &&& pred(event)
            },
        forall|k: int, m: int|
            0 <= k < m < log.filter(pred).len() ==> (#[trigger] log.filter(pred)[k]).position < (
            #[trigger] log.filter(pred)[m]).position,
    decreases log.len(),
{
    reveal(Seq::filter);
    if log.len() > 0 {
        let head = log.drop_last();
        lemma_filter_by_position(head, pred);
        let chosen = log.filter(pred);
        let earlier = head.filter(pred);
        assert forall|k: int| 0 <= k < chosen.len() implies {
            let event = #[trigger] chosen[k];
            &&& event.position < log.len()
            &&& log[event.position as int] == event
            &&& pred(event)
        } by {
            if k < earlier.len() {
                assert(chosen[k] == earlier[k]);
                assert(head[earlier[k].position as int] == earlier[k]);
            }
        }
        assert forall|k: int, m: int| 0 <= k < m < chosen.len() implies (
        #[trigger] chosen[k]).position < (#[trigger] chosen[m]).position by {
            assert(chosen[k] == earlier[k]);
            if m < earlier.len() {
                assert(chosen[m] == earlier[m]);
            } else {
                assert(earlier[k].position < head.len());
            }
        }
    }
}

/// Every loaded event is a copy of the event at its position. Events come by position, and none
/// comes twice.
pub proof fn law_loaded_by_position<Id: AggregateId, C: Codec, M: Clone>(
    store: InMemoryEventStore<Id, C, M>,
    filters: Seq<EventFilter<Id, u64>>,
    events: Seq<StoredEvent<Id, u64, M>>,
)
    requires
        store.loads(filters, Ok(events)),
    ensures
        forall|k: int|
            0 <= k < events.len() ==> (#[trigger] events[k]).position < store.log().len()
                && events[k].is_copy_of(store.log()[events[k].position as int]),
        forall|k: int, m: int|
            0 <= k < m < events.len() ==> (#[trigger] events[k]).position < (
            #[trigger] events[m]).position,
{
    let log = store.log();
    let chosen = selection(log, filters);
    store.positions();
    lemma_filter_by_position(
        log,
        |event: StoredEvent<Id, u64, M>| some_filter_asks(filters, event),
    );
    assert forall|k: int| 0 <= k < events.len() implies (#[trigger] events[k]).position < log.len()
        && events[k].is_copy_of(log[events[k].position as int]) by {
        assert(events[k].is_copy_of(chosen[k]));
    }
    assert forall|k: int, m: int| 0 <= k < m < events.len() implies (#[trigger] events[k]).position
        < (#[trigger] events[m]).position by {
        assert(events[k].is_copy_of(chosen[k]));
        assert(events[m].is_copy_of(chosen[m]));
    }
}

/// No event is loaded that none of the filters asks for.
pub proof fn law_loaded_was_asked_for<Id: AggregateId, C: Codec, M: Clone>(
    store: InMemoryEventStore<Id, C, M>,
    filters: Seq<EventFilter<Id, u64>>,
    events: Seq<StoredEvent<Id, u64, M>>,
)
    requires
        store.loads(filters, Ok(events)),
    ensures
        forall|k: int| 0 <= k < events.len() ==> some_filter_asks(filters, #[trigger] events[k]),
{
    let chosen = selection(store.log(), filters);
    let pred = |event: StoredEvent<Id, u64, M>| some_filter_asks(filters, event);
    store.positions();
    lemma_filter_by_position(store.log(), pred);
    assert forall|k: int| 0 <= k < events.len() implies some_filter_asks(
        filters,
        #[trigger] events[k],
    ) by {
        assert(events[k].is_copy_of(chosen[k]));
        assert(pred(chosen[k]));
        let j = choose|j: int| 0 <= j < filters.len() && asks_for(#[trigger] filters[j], chosen[k]);
        assert(asks_for(filters[j], events[k]));
    }
}

/// The filters load exactly the events that one of them asks for, whatever the others ask for.
pub proof fn law_loads_what_is_asked<Id: AggregateId, C: Codec, M: Clone>(
    store: InMemoryEventStore<Id, C, M>,
    filters: Seq<EventFilter<Id, u64>>,
    events: Seq<StoredEvent<Id, u64, M>>,
)
    requires
        store.loads(filters, Ok(events)),
    ensures
        forall|i: int|
            0 <= i < store.log().len() ==> (some_filter_asks(filters, #[trigger] store.log()[i])
                <==> exists|k: int|
                0 <= k < events.len() && (#[trigger] events[k]).is_copy_of(store.log()[i])),
{
    let log = store.log();
    let chosen = selection(log, filters);
    let pred = |event: StoredEvent<Id, u64, M>| some_filter_asks(filters, event);
    store.positions();
    lemma_filter_by_position(log, pred);
    assert forall|i: int| 0 <= i < log.len() implies (some_filter_asks(filters, #[trigger] log[i])
        <==> exists|k: int| 0 <= k < events.len() && (#[trigger] events[k]).is_copy_of(log[i])) by {
        if some_filter_asks(filters, log[i]) {
            assert(pred(log[i]));
            log.lemma_filter_contains(pred, i);
            let k = choose|k: int| 0 <= k < chosen.len() && chosen[k] == log[i];
            assert(events[k].is_copy_of(chosen[k]));
        }
        if exists|k: int| 0 <= k < events.len() && (#[trigger] events[k]).is_copy_of(log[i]) {
            let k = choose|k: int|
                0 <= k < events.len() && (#[trigger] events[k]).is_copy_of(log[i]);
            assert(events[k].is_copy_of(chosen[k]));
            assert(pred(chosen[k]));
            assert(log[chosen[k].position as int] == chosen[k]);
        }
    }
}

/// What is loaded again after an append is what was loaded before it, followed by those of the new
/// events that a filter asks for.
pub proof fn law_append_extends_load<Id: AggregateId, C: Codec, M: Clone>(
    before: InMemoryEventStore<Id, C, M>,
    after: InMemoryEventStore<Id, C, M>,
    aggregate_kind: Seq<char>,
    aggregate_id: <Id as AggregateId>::Key,
    expected_version: Option<u64>,
    written: Seq<PersistableEvent<M>>,
    filters: Seq<EventFilter<Id, u64>>,
    earlier: Seq<StoredEvent<Id, u64, M>>,
    events: Seq<StoredEvent<Id, u64, M>>,
)
    requires
        before.appends(aggregate_kind, aggregate_id, expected_version, written, after, Ok(()))
            || before.appends_new(aggregate_kind, aggregate_id, written, after, Ok(())),
        before.loads(filters, Ok(earlier)),
        after.loads(filters, Ok(events)),
    ensures
        earlier.len() <= events.len(),
        forall|k: int|
            0 <= k < earlier.len() ==> (#[trigger] earlier[k]).position == events[k].position,
        copied(
            selection(after.log().skip(before.log().len() as int), filters),
            events.skip(earlier.len() as int),
        ),
{
    let old_log = before.log();
    let tail = after.log().skip(old_log.len() as int);
    assert(after.log() =~= old_log + tail);
    Seq::filter_distributes_over_add(
        old_log,
        tail,
        |event: StoredEvent<Id, u64, M>| some_filter_asks(filters, event),
    );
    let old_chosen = selection(old_log, filters);
    let new_chosen = selection(tail, filters);
    let chosen = selection(after.log(), filters);
    assert(chosen == old_chosen + new_chosen);
    assert forall|k: int| 0 <= k < earlier.len() implies (#[trigger] earlier[k]).position
        == events[k].position by {
        assert(earlier[k].is_copy_of(old_chosen[k]));
        assert(events[k].is_copy_of(chosen[k]));
    }
    let late = events.skip(earlier.len() as int);
    assert forall|k: int| 0 <= k < new_chosen.len() implies (#[trigger] late[k]).is_copy_of(
        new_chosen[k],
    ) by {
        assert(events[earlier.len() + k].is_copy_of(chosen[earlier.len() + k]));
    }
}

/// What was written can be read back: after an append, filters that ask for a new event load it as
/// it was written, for the aggregate instance it was written to, at the next free position.
pub proof fn law_read_your_writes<Id: AggregateId, C: Codec, M: Clone>(
    before: InMemoryEventStore<Id, C, M>,
    after: InMemoryEventStore<Id, C, M>,
    aggregate_kind: Seq<char>,
    aggregate_id: <Id as AggregateId>::Key,
    expected_version: Option<u64>,
    written: Seq<PersistableEvent<M>>,
    filters: Seq<EventFilter<Id, u64>>,
    events: Seq<StoredEvent<Id, u64, M>>,
    i: int,
)
    requires
        before.appends(aggregate_kind, aggregate_id, expected_version, written, after, Ok(()))
            || before.appends_new(aggregate_kind, aggregate_id, written, after, Ok(())),
        after.loads(filters, Ok(events)),
        0 <= i < written.len(),
        some_filter_asks(filters, after.log()[before.log().len() + i]),
    ensures
        exists|k: int|
            {
                &&& 0 <= k < events.len()
                &&& (#[trigger] events[k]).aggregate_kind@ == aggregate_kind
                &&& events[k].aggregate_id.key() == aggregate_id
                &&& events[k].kind@ == written[i].kind@
                &&& events[k].data@ == written[i].data@
                &&& cloned(written[i].metadata, events[k].metadata)
                &&& events[k].position == before.log().len() + i
            },
{
    law_loads_what_is_asked(after, filters, events);
    let place = before.log().len() + i;
    let event = after.log()[place];
    let k = choose|k: int| 0 <= k < events.len() && (#[trigger] events[k]).is_copy_of(event);
    assert(events[k].is_copy_of(event));
}

/// The last event of a stream, where the log ends in an event of it, is that event.
pub(crate) proof fn lemma_stream_last<Id: AggregateId, M>(
    log: Seq<StoredEvent<Id, u64, M>>,
    key: (Seq<char>, <Id as AggregateId>::Key),
)
    requires
        log.len() > 0,
        stream_of(log.last()) == key,
    ensures
        stream(log, key).len() > 0,
        stream(log, key).last() == log.last(),
{
    reveal(Seq::filter);
}

/// Events of other streams at the end of the log do not change a stream.
proof fn lemma_stream_of_prefix<Id: AggregateId, M>(
    old_log: Seq<StoredEvent<Id, u64, M>>,
    new_log: Seq<StoredEvent<Id, u64, M>>,
    key: (Seq<char>, <Id as AggregateId>::Key),
)
    requires
        old_log.len() <= new_log.len(),
        forall|m: int| 0 <= m < old_log.len() ==> #[trigger] new_log[m] == old_log[m],
        forall|m: int| old_log.len() <= m < new_log.len() ==> stream_of(#[trigger] new_log[m]) != key,
    ensures
        stream(new_log, key) == stream(old_log, key),
    decreases new_log.len(),
{
    reveal(Seq::filter);
    if new_log.len() > old_log.len() {
        lemma_stream_of_prefix(old_log, new_log.drop_last(), key);
    } else {
        assert(new_log =~= old_log);
    }
}

/// After an append, the version of the stream is the position of the last event written; an
/// append without events leaves it as it was.
pub proof fn law_version_after_append<Id: AggregateId, C: Codec, M: Clone>(
    before: InMemoryEventStore<Id, C, M>,
    after: InMemoryEventStore<Id, C, M>,
    aggregate_kind: Seq<char>,
    aggregate_id: <Id as AggregateId>::Key,
    expected_version: Option<u64>,
    written: Seq<PersistableEvent<M>>,
    reported: Option<u64>,
)
    requires
        before.appends(aggregate_kind, aggregate_id, expected_version, written, after, Ok(()))
            || before.appends_new(aggregate_kind, aggregate_id, written, after, Ok(())),
        after.reports(aggregate_kind, aggregate_id, Ok(reported)),
    ensures
        written.len() > 0 ==> reported == Some((before.log().len() + written.len() - 1) as u64)
            && after.log().last().position == reported->Some_0,
        written.len() == 0 ==> before.reports(aggregate_kind, aggregate_id, Ok(reported)),
{
    let key = (aggregate_kind, aggregate_id);
    after.positions();
    if written.len() > 0 {
        lemma_stream_last(after.log(), key);
    } else {
        assert(after.log() =~= before.log());
    }
}

/// An append does not change the version of another stream.
pub proof fn law_other_streams_keep_version<Id: AggregateId, C: Codec, M: Clone>(
    before: InMemoryEventStore<Id, C, M>,
    after: InMemoryEventStore<Id, C, M>,
    aggregate_kind: Seq<char>,
    aggregate_id: <Id as AggregateId>::Key,
    expected_version: Option<u64>,
    written: Seq<PersistableEvent<M>>,
    other_kind: Seq<char>,
    other_id: <Id as AggregateId>::Key,
    reported: Option<u64>,
)
    requires
        before.appends(aggregate_kind, aggregate_id, expected_version, written, after, Ok(()))
            || before.appends_new(aggregate_kind, aggregate_id, written, after, Ok(())),
        (other_kind, other_id) != (aggregate_kind, aggregate_id),
        after.reports(other_kind, other_id, Ok(reported)),
    ensures
        before.reports(other_kind, other_id, Ok(reported)),
{
    let key = (other_kind, other_id);
    lemma_stream_of_prefix(before.log(), after.log(), key);
}

/// A stream without events has no version, and a store without events reports none.
pub proof fn law_new_store_has_no_versions<Id: AggregateId, C: Codec, M: Clone>(
    store: InMemoryEventStore<Id, C, M>,
    aggregate_kind: Seq<char>,
    aggregate_id: <Id as AggregateId>::Key,
)
    requires
        store.log() == Seq::<StoredEvent<Id, u64, M>>::empty(),
    ensures
        store.reports(aggregate_kind, aggregate_id, Ok(None)),
{
}

/// Of two writers that expect the same version of a stream, the second gets a conflict and
/// changes nothing: after the first wrote an event, the version is another one.
pub proof fn law_second_writer_conflicts<Id: AggregateId, C: Codec, M: Clone>(
    start: InMemoryEventStore<Id, C, M>,
    middle: InMemoryEventStore<Id, C, M>,
    end: InMemoryEventStore<Id, C, M>,
    aggregate_kind: Seq<char>,
    aggregate_id: <Id as AggregateId>::Key,
    expected: u64,
    first: Seq<PersistableEvent<M>>,
    second: Seq<PersistableEvent<M>>,
    result: Result<(), AppendError<u64, InMemoryError>>,
)
    requires
        start.appends(aggregate_kind, aggregate_id, Some(expected), first, middle, Ok(())),
        first.len() > 0,
        middle.appends(aggregate_kind, aggregate_id, Some(expected), second, end, result),
    ensures
        result == Err::<(), AppendError<u64, InMemoryError>>(
            AppendError::Conflict(
                ConcurrencyConflict {
                    expected: Some(expected),
                    actual: Some((middle.log().len() - 1) as u64),
                },
            ),
        ),
        end == middle,
{
    let key = (aggregate_kind, aggregate_id);
    start.positions();
    middle.positions();
    lemma_stream_last(middle.log(), key);
    let pred = |event: StoredEvent<Id, u64, M>| stream_of(event) == key;
    let last = stream(start.log(), key).last();
    assert(stream(start.log(), key).contains(last));
    start.log().lemma_filter_contains_rev(pred, last);
}

/// Of two writers that expect a new stream, the second gets a conflict and changes nothing.
pub proof fn law_second_creator_conflicts<Id: AggregateId, C: Codec, M: Clone>(
    start: InMemoryEventStore<Id, C, M>,
    middle: InMemoryEventStore<Id, C, M>,
    end: InMemoryEventStore<Id, C, M>,
    aggregate_kind: Seq<char>,
    aggregate_id: <Id as AggregateId>::Key,
    first: Seq<PersistableEvent<M>>,
    second: Seq<PersistableEvent<M>>,
    result: Result<(), AppendError<u64, InMemoryError>>,
)
    requires
        start.appends_new(aggregate_kind, aggregate_id, first, middle, Ok(())),
        first.len() > 0,
        middle.appends_new(aggregate_kind, aggregate_id, second, end, result),
    ensures
        result == Err::<(), AppendError<u64, InMemoryError>>(
            AppendError::Conflict(
                ConcurrencyConflict {
                    expected: None,
                    actual: Some((middle.log().len() - 1) as u64),
                },
            ),
        ),
        end == middle,
{
    middle.positions();
    lemma_stream_last(middle.log(), (aggregate_kind, aggregate_id));
}

/// Filters of one aggregate instance load only events of its stream, of the kinds that were asked
/// for, and only those after the position.
pub proof fn law_instance_filters_load_one_stream<Id: AggregateId, C: Codec, M: Clone>(
    store: InMemoryEventStore<Id, C, M>,
    kinds: Seq<&str>,
    aggregate_kind: Seq<char>,
    aggregate_id: <Id as AggregateId>::Key,
    after: Option<u64>,
    filters: Seq<EventFilter<Id, u64>>,
    events: Seq<StoredEvent<Id, u64, M>>,
)
    requires
        instance_filters(kinds, aggregate_kind, aggregate_id, after, filters),
        store.loads(filters, Ok(events)),
    ensures
        forall|k: int|
            0 <= k < events.len() ==> {
                &&& stream_of(#[trigger] events[k]) == (aggregate_kind, aggregate_id)
                &&& among(kinds, events[k].kind@)
                &&& after matches Some(position) ==> events[k].position > position
            },
{
    law_loaded_was_asked_for(store, filters, events);
    assert forall|k: int| 0 <= k < events.len() implies {
        &&& stream_of(#[trigger] events[k]) == (aggregate_kind, aggregate_id)
        &&& among(kinds, events[k].kind@)
        &&& after matches Some(position) ==> events[k].position > position
    } by {
        let j = choose|j: int| 0 <= j < filters.len() && asks_for(#[trigger] filters[j], events[k]);
        assert(kinds[j]@ == events[k].kind@);
    }
}

/// Filters by kind alone load every event of these kinds, of all aggregate instances, each once
/// and by position.
pub proof fn law_kind_filters_load_every_event<Id: AggregateId, C: Codec, M: Clone>(
    store: InMemoryEventStore<Id, C, M>,
    kinds: Seq<&str>,
    filters: Seq<EventFilter<Id, u64>>,
    events: Seq<StoredEvent<Id, u64, M>>,
)
    requires
        kind_filters(kinds, filters),
        store.loads(filters, Ok(events)),
    ensures
        forall|i: int|
            0 <= i < store.log().len() ==> (among(kinds, (#[trigger] store.log()[i]).kind@)
                <==> exists|k: int|
                0 <= k < events.len() && (#[trigger] events[k]).is_copy_of(store.log()[i])),
        forall|k: int, m: int|
            0 <= k < m < events.len() ==> (#[trigger] events[k]).position < (
            #[trigger] events[m]).position,
{
    law_loads_what_is_asked(store, filters, events);
    law_loaded_by_position(store, filters, events);
    assert forall|i: int| 0 <= i < store.log().len() implies (among(
        kinds,
        (#[trigger] store.log()[i]).kind@,
    ) <==> some_filter_asks(filters, store.log()[i])) by {
        let event = store.log()[i];
        if among(kinds, event.kind@) {
            let j = choose|j: int| 0 <= j < kinds.len() && (#[trigger] kinds[j])@ == event.kind@;
            assert(asks_for(filters[j], event));
        }
        if some_filter_asks(filters, event) {
            let j = choose|j: int| 0 <= j < filters.len() && asks_for(#[trigger] filters[j], event);
            assert(kinds[j]@ == event.kind@);
        }
    }
}

/// The events of the stream of an aggregate instance are those of its kind and identifier.
proof fn lemma_version<Id: AggregateId, M>(
    log: Seq<StoredEvent<Id, u64, M>>,
    key: (Seq<char>, <Id as AggregateId>::Key),
)
    requires
        forall|i: int| 0 <= i < log.len() ==> (#[trigger] log[i]).position == i,
    ensures
        match version(log, key) {
            None => forall|i: int| 0 <= i < log.len() ==> stream_of(#[trigger] log[i]) != key,
            Some(last) => {
                &&& last < log.len()
                &&& stream_of(log[last as int]) == key
                &&& forall|i: int| last < i < log.len() ==> stream_of(#[trigger] log[i]) != key
            },
        },
    decreases log.len(),
{
    reveal(Seq::filter);
    if log.len() > 0 {
        let head = log.drop_last();
        lemma_version(head, key);
        assert(log[log.len() - 1] == log.last());
        assert(forall|i: int| 0 <= i < head.len() ==> head[i] == #[trigger] log[i]);
    }
}

/// The reported version of a stream is the position of an event of that kind and identifier after
/// which no other comes, whatever other streams hold; where there is no such event, there is no
/// version. The store always tells it.
pub proof fn law_version_is_last_event<Id: AggregateId, C: Codec, M: Clone>(
    store: InMemoryEventStore<Id, C, M>,
    aggregate_kind: Seq<char>,
    aggregate_id: <Id as AggregateId>::Key,
    reported: Result<Option<u64>, InMemoryError>,
)
    requires
        store.reports(aggregate_kind, aggregate_id, reported),
    ensures
        match reported {
            Err(_) => false,
            Ok(None) => forall|i: int|
                0 <= i < store.log().len() ==> !((#[trigger] store.log()[i]).aggregate_kind@
                    == aggregate_kind && store.log()[i].aggregate_id.key() == aggregate_id),
            Ok(Some(last)) => {
                &&& last < store.log().len()
                &&& store.log()[last as int].aggregate_kind@ == aggregate_kind
                &&& store.log()[last as int].aggregate_id.key() == aggregate_id
                &&& forall|i: int|
                    last < i < store.log().len() ==> !((#[trigger] store.log()[i]).aggregate_kind@
                        == aggregate_kind && store.log()[i].aggregate_id.key() == aggregate_id)
            },
        },
{
    store.positions();
    lemma_version(store.log(), (aggregate_kind, aggregate_id));
}

/// An append with an expected version succeeds exactly where the version of the stream is that one.
/// Otherwise it is a conflict that names both, and the store is as it was. The version of the stream
/// is the position of the last event of that kind and identifier, whatever other streams hold.
pub proof fn law_append_needs_the_expected_version<Id: AggregateId, C: Codec, M: Clone>(
    store: InMemoryEventStore<Id, C, M>,
    aggregate_kind: Seq<char>,
    aggregate_id: <Id as AggregateId>::Key,
    expected: u64,
    events: Seq<PersistableEvent<M>>,
    after: InMemoryEventStore<Id, C, M>,
    result: Result<(), AppendError<u64, InMemoryError>>,
)
    requires
        store.appends(aggregate_kind, aggregate_id, Some(expected), events, after, result),
    ensures
        result is Ok <==> {
            &&& expected < store.log().len()
            &&& store.log()[expected as int].aggregate_kind@ == aggregate_kind
            &&& store.log()[expected as int].aggregate_id.key() == aggregate_id
            &&& forall|i: int|
                expected < i < store.log().len() ==> !((#[trigger] store.log()[i]).aggregate_kind@
                    == aggregate_kind && store.log()[i].aggregate_id.key() == aggregate_id)
        },
        result is Err ==> {
            &&& after == store
            &&& result matches Err(AppendError::Conflict(conflict)) && {
                &&& conflict.expected == Some(expected)
                &&& store.reports(aggregate_kind, aggregate_id, Ok(conflict.actual))
            }
        },
{
    store.positions();
    lemma_version(store.log(), (aggregate_kind, aggregate_id));
}

/// An append that expects a new stream succeeds exactly where the log has no event of that kind and
/// identifier. Otherwise it is a conflict that names the version, and the store is as it was.
pub proof fn law_new_stream_needs_no_event<Id: AggregateId, C: Codec, M: Clone>(
    store: InMemoryEventStore<Id, C, M>,
    aggregate_kind: Seq<char>,
    aggregate_id: <Id as AggregateId>::Key,
    events: Seq<PersistableEvent<M>>,
    after: InMemoryEventStore<Id, C, M>,
    result: Result<(), AppendError<u64, InMemoryError>>,
)
    requires
        store.appends_new(aggregate_kind, aggregate_id, events, after, result),
    ensures
        result is Ok <==> forall|i: int|
            0 <= i < store.log().len() ==> !((#[trigger] store.log()[i]).aggregate_kind@
                == aggregate_kind && store.log()[i].aggregate_id.key() == aggregate_id),
        result is Err ==> {
            &&& after == store
            &&& result matches Err(AppendError::Conflict(conflict)) && {
                &&& conflict.expected is None
                &&& conflict.actual is Some
                &&& store.reports(aggregate_kind, aggregate_id, Ok(conflict.actual))
            }
        },
{
    store.positions();
    lemma_version(store.log(), (aggregate_kind, aggregate_id));
}

/// An append without an expected version succeeds.
pub proof fn law_append_without_expectation_succeeds<Id: AggregateId, C: Codec, M: Clone>(
    store: InMemoryEventStore<Id, C, M>,
    aggregate_kind: Seq<char>,
    aggregate_id: <Id as AggregateId>::Key,
    events: Seq<PersistableEvent<M>>,
    after: InMemoryEventStore<Id, C, M>,
    result: Result<(), AppendError<u64, InMemoryError>>,
)
    requires
        store.appends(aggregate_kind, aggregate_id, None, events, after, result),
    ensures
        result is Ok,
{
}

/// A successful append keeps the log and adds the events behind it, all of them and in order, each
/// with its kind, data and metadata, for the aggregate instance, at its place in the log.
pub proof fn law_append_adds_every_event<Id: AggregateId, C: Codec, M: Clone>(
    store: InMemoryEventStore<Id, C, M>,
    aggregate_kind: Seq<char>,
    aggregate_id: <Id as AggregateId>::Key,
    expected_version: Option<u64>,
    events: Seq<PersistableEvent<M>>,
    after: InMemoryEventStore<Id, C, M>,
)
    requires
        store.appends(aggregate_kind, aggregate_id, expected_version, events, after, Ok(()))
            || store.appends_new(aggregate_kind, aggregate_id, events, after, Ok(())),
    ensures
        after.made_with() == store.made_with(),
        after.log().len() == store.log().len() + events.len(),
        forall|i: int|
            0 <= i < store.log().len() ==> #[trigger] after.log()[i] == store.log()[i],
        forall|i: int|
            0 <= i < events.len() ==> {
                let added = after.log()[store.log().len() + i];
                &&& added.aggregate_kind@ == aggregate_kind
                &&& added.aggregate_id.key() == aggregate_id
                &&& added.kind == (#[trigger] events[i]).kind
                &&& added.data == events[i].data
                &&& added.metadata == events[i].metadata
                &&& added.position == store.log().len() + i
            },
{
    assert forall|i: int| 0 <= i < events.len() implies {
        let added = after.log()[store.log().len() + i];
        &&& added.aggregate_kind@ == aggregate_kind
        &&& added.aggregate_id.key() == aggregate_id
        &&& added.kind == (#[trigger] events[i]).kind
        &&& added.data == events[i].data
        &&& added.metadata == events[i].metadata
        &&& added.position == store.log().len() + i
    } by {
        let added = after.log()[store.log().len() + i];
        assert(added.position == store.log().len() + i);
    }
}

/// A writer whose expected version is stale meets a conflict, however much was written to other
/// streams since: once a first writer appended an event to the stream, no later append that expects
/// the version from before it succeeds, on any store whose log goes on from there. The conflict names
/// a later version, and the store is as it was.
pub proof fn law_stale_writer_conflicts<Id: AggregateId, C: Codec, M: Clone>(
    start: InMemoryEventStore<Id, C, M>,
    aggregate_kind: Seq<char>,
    aggregate_id: <Id as AggregateId>::Key,
    expected: u64,
    first: Seq<PersistableEvent<M>>,
    middle: InMemoryEventStore<Id, C, M>,
    later: InMemoryEventStore<Id, C, M>,
    second: Seq<PersistableEvent<M>>,
    end: InMemoryEventStore<Id, C, M>,
    result: Result<(), AppendError<u64, InMemoryError>>,
)
    requires
        start.appends(aggregate_kind, aggregate_id, Some(expected), first, middle, Ok(())),
        first.len() > 0,
        middle.log().len() <= later.log().len(),
        forall|i: int|
            0 <= i < middle.log().len() ==> #[trigger] later.log()[i] == middle.log()[i],
        later.appends(aggregate_kind, aggregate_id, Some(expected), second, end, result),
    ensures
        end == later,
        result matches Err(AppendError::Conflict(conflict)) && {
            &&& conflict.expected == Some(expected)
            &&& conflict.actual is Some
            &&& conflict.actual->Some_0 >= start.log().len()
            &&& conflict.actual->Some_0 < later.log().len()
        },
{
    law_append_adds_every_event(
        start,
        aggregate_kind,
        aggregate_id,
        Some(expected),
        first,
        middle,
    );
    law_append_needs_the_expected_version(
        start,
        aggregate_kind,
        aggregate_id,
        expected,
        first,
        middle,
        Ok(()),
    );
    law_append_needs_the_expected_version(
        later,
        aggregate_kind,
        aggregate_id,
        expected,
        second,
        end,
        result,
    );
    let place = start.log().len() as int;
    let added = middle.log()[place];
    assert(added.kind == first[0].kind);
    assert(later.log()[place] == added);
    let actual = result->Err_0->Conflict_0.actual;
    law_version_is_last_event(later, aggregate_kind, aggregate_id, Ok(actual));
}

/// What is loaded, in terms of the log: an event is loaded exactly where one of the filters has its
/// kind, has its aggregate instance where it names one, and has an earlier position where it names
/// one. Each loaded event stands once, by position, with all its fields. Loading always succeeds.
pub proof fn law_load_is_any_filter<Id: AggregateId, C: Codec, M: Clone>(
    store: InMemoryEventStore<Id, C, M>,
    filters: Seq<EventFilter<Id, u64>>,
    result: Result<Seq<StoredEvent<Id, u64, M>>, InMemoryError>,
)
    requires
        store.loads(filters, result),
    ensures
        result is Ok,
        forall|i: int|
            0 <= i < store.log().len() ==> ((exists|k: int|
                0 <= k < result->Ok_0.len() && (#[trigger] result->Ok_0[k]).position == i)
                <==> exists|j: int|
                {
                    &&& 0 <= j < filters.len()
                    &&& (#[trigger] filters[j]).event_kind@ == (#[trigger] store.log()[i]).kind@
                    &&& (filters[j].aggregate_kind is Some && filters[j].aggregate_id is Some) ==> {
                        &&& filters[j].aggregate_kind->Some_0@ == store.log()[i].aggregate_kind@
                        &&& filters[j].aggregate_id->Some_0.key()
                            == store.log()[i].aggregate_id.key()
                    }
                    &&& filters[j].after_position is Some ==> i > filters[j].after_position->Some_0
                }),
        forall|k: int|
            0 <= k < result->Ok_0.len() ==> {
                let loaded = #[trigger] result->Ok_0[k];
                let event = store.log()[loaded.position as int];
                &&& loaded.position < store.log().len()
                &&& loaded.aggregate_kind@ == event.aggregate_kind@
                &&& loaded.aggregate_id.key() == event.aggregate_id.key()
                &&& loaded.kind@ == event.kind@
                &&& loaded.data@ == event.data@
                &&& cloned(event.metadata, loaded.metadata)
            },
        forall|k: int, m: int|
            0 <= k < m < result->Ok_0.len() ==> (#[trigger] result->Ok_0[k]).position < (
            #[trigger] result->Ok_0[m]).position,
{
    let events = result->Ok_0;
    law_loads_what_is_asked(store, filters, events);
    law_loaded_by_position(store, filters, events);
    store.positions();
    assert forall|i: int| 0 <= i < store.log().len() implies ((exists|k: int|
        0 <= k < events.len() && (#[trigger] events[k]).position == i) <==> exists|j: int|
        {
            &&& 0 <= j < filters.len()
            &&& (#[trigger] filters[j]).event_kind@ == (#[trigger] store.log()[i]).kind@
            &&& (filters[j].aggregate_kind is Some && filters[j].aggregate_id is Some) ==> {
                &&& filters[j].aggregate_kind->Some_0@ == store.log()[i].aggregate_kind@
                &&& filters[j].aggregate_id->Some_0.key() == store.log()[i].aggregate_id.key()
            }
            &&& filters[j].after_position is Some ==> i > filters[j].after_position->Some_0
        }) by {
        let event = store.log()[i];
        if exists|k: int| 0 <= k < events.len() && (#[trigger] events[k]).position == i {
            let k = choose|k: int| 0 <= k < events.len() && (#[trigger] events[k]).position == i;
            assert(events[k].is_copy_of(event));
            assert(some_filter_asks(filters, event));
            let j = choose|j: int| 0 <= j < filters.len() && asks_for(#[trigger] filters[j], event);
            assert(filters[j].event_kind@ == event.kind@);
        }
        if exists|j: int|
            {
                &&& 0 <= j < filters.len()
                &&& (#[trigger] filters[j]).event_kind@ == store.log()[i].kind@
                &&& (filters[j].aggregate_kind is Some && filters[j].aggregate_id is Some) ==> {
                    &&& filters[j].aggregate_kind->Some_0@ == store.log()[i].aggregate_kind@
                    &&& filters[j].aggregate_id->Some_0.key() == store.log()[i].aggregate_id.key()
                }
                &&& filters[j].after_position is Some ==> i > filters[j].after_position->Some_0
            } {
            let j = choose|j: int|
                {
                    &&& 0 <= j < filters.len()
                    &&& (#[trigger] filters[j]).event_kind@ == store.log()[i].kind@
                    &&& (filters[j].aggregate_kind is Some && filters[j].aggregate_id is Some) ==> {
                        &&& filters[j].aggregate_kind->Some_0@ == store.log()[i].aggregate_kind@
                        &&& filters[j].aggregate_id->Some_0.key()
                            == store.log()[i].aggregate_id.key()
                    }
                    &&& filters[j].after_position is Some ==> i > filters[j].after_position->Some_0
                };
            assert(asks_for(filters[j], event));
            assert(some_filter_asks(filters, event));
            let k = choose|k: int| 0 <= k < events.len() && (#[trigger] events[k]).is_copy_of(event);
            assert(events[k].position == i);
        }
    }
    assert forall|k: int| 0 <= k < events.len() implies {
        let loaded = #[trigger] events[k];
        let event = store.log()[loaded.position as int];
        &&& loaded.position < store.log().len()
        &&& loaded.aggregate_kind@ == event.aggregate_kind@
        &&& loaded.aggregate_id.key() == event.aggregate_id.key()
        &&& loaded.kind@ == event.kind@
        &&& loaded.data@ == event.data@
        &&& cloned(event.metadata, loaded.metadata)
    } by {
        assert(events[k].is_copy_of(store.log()[events[k].position as int]));
    }
}

} // verus!
