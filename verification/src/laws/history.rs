//! The history of an aggregate instance in the in-memory event store.

use vstd::prelude::*;
use crate::id::AggregateId;
use crate::inmemory::{asks_for, selection, some_filter_asks, stream_of};
use crate::projection::among;
use crate::store::{instance_filters, EventFilter, StoredEvent};

verus! {

/// The event belongs to the aggregate instance and is of one of the kinds.
pub open spec fn of_history<Id: AggregateId, M>(
    kinds: Seq<&str>,
    key: (Seq<char>, <Id as AggregateId>::Key),
    event: StoredEvent<Id, u64, M>,
) -> bool {
    stream_of(event) == key && among(kinds, event.kind@)
}

/// The events of a log that belong to the aggregate instance and are of one of the kinds.
pub open spec fn history<Id: AggregateId, M>(
    log: Seq<StoredEvent<Id, u64, M>>,
    kinds: Seq<&str>,
    key: (Seq<char>, <Id as AggregateId>::Key),
) -> Seq<StoredEvent<Id, u64, M>> {
    log.filter(|event: StoredEvent<Id, u64, M>| of_history(kinds, key, event))
}

/// Where in a log the events after a position begin.
pub open spec fn place_after(after: Option<u64>, len: nat) -> int {
    match after {
        None => 0,
        Some(position) => if position < len {
            position + 1
        } else {
            len as int
        },
    }
}

/// A predicate that no element satisfies filters nothing.
proof fn lemma_filter_none<T>(s: Seq<T>, pred: spec_fn(T) -> bool)
    requires
        forall|i: int| 0 <= i < s.len() ==> !pred(#[trigger] s[i]),
    ensures
        s.filter(pred) == Seq::<T>::empty(),
    decreases s.len(),
{
    reveal(Seq::filter);
    if s.len() > 0 {
        lemma_filter_none(s.drop_last(), pred);
    } else {
        assert(s =~= Seq::<T>::empty());
    }
}

/// Two predicates that agree on a sequence filter the same from it.
proof fn lemma_filter_same<T>(s: Seq<T>, left: spec_fn(T) -> bool, right: spec_fn(T) -> bool)
    requires
        forall|i: int| 0 <= i < s.len() ==> left(#[trigger] s[i]) == right(s[i]),
    ensures
        s.filter(left) == s.filter(right),
    decreases s.len(),
{
    reveal(Seq::filter);
    if s.len() > 0 {
        lemma_filter_same(s.drop_last(), left, right);
    }
}

/// The filters of one aggregate instance ask for an event where it belongs to the history and comes
/// after the position.
proof fn lemma_instance_asks<Id: AggregateId, M>(
    kinds: Seq<&str>,
    key: (Seq<char>, <Id as AggregateId>::Key),
    after: Option<u64>,
    filters: Seq<EventFilter<Id, u64>>,
    event: StoredEvent<Id, u64, M>,
)
    requires
        instance_filters(kinds, key.0, key.1, after, filters),
    ensures
        some_filter_asks(filters, event) <==> of_history(kinds, key, event) && (
        after matches Some(position) ==> event.position > position),
{
    if some_filter_asks(filters, event) {
        let j = choose|j: int| 0 <= j < filters.len() && asks_for(#[trigger] filters[j], event);
        assert(kinds[j]@ == event.kind@);
    }
    if among(kinds, event.kind@) {
        let j = choose|j: int| 0 <= j < kinds.len() && (#[trigger] kinds[j])@ == event.kind@;
        assert(filters[j].event_kind@ == event.kind@);
    }
}

/// What the filters of one aggregate instance select is its history after the position.
pub(crate) proof fn lemma_instance_selection<Id: AggregateId, M>(
    log: Seq<StoredEvent<Id, u64, M>>,
    kinds: Seq<&str>,
    aggregate_kind: Seq<char>,
    aggregate_id: <Id as AggregateId>::Key,
    after: Option<u64>,
    filters: Seq<EventFilter<Id, u64>>,
)
    requires
        instance_filters(kinds, aggregate_kind, aggregate_id, after, filters),
        forall|i: int| 0 <= i < log.len() ==> (#[trigger] log[i]).position == i,
    ensures
        selection(log, filters) == history(
            log.skip(place_after(after, log.len())),
            kinds,
            (aggregate_kind, aggregate_id),
        ),
{
    let key = (aggregate_kind, aggregate_id);
    let start = place_after(after, log.len());
    let asked = |event: StoredEvent<Id, u64, M>| some_filter_asks(filters, event);
    let past = |event: StoredEvent<Id, u64, M>| of_history(kinds, key, event);
    let early = log.take(start);
    let late = log.skip(start);
    assert(log =~= early + late);
    Seq::filter_distributes_over_add(early, late, asked);
    assert forall|i: int| 0 <= i < early.len() implies !asked(#[trigger] early[i]) by {
        lemma_instance_asks(kinds, key, after, filters, early[i]);
        assert(early[i] == log[i]);
    }
    lemma_filter_none(early, asked);
    assert forall|i: int| 0 <= i < late.len() implies asked(#[trigger] late[i]) == past(late[i]) by {
        lemma_instance_asks(kinds, key, after, filters, late[i]);
        assert(late[i] == log[start + i]);
    }
    lemma_filter_same(late, asked, past);
    assert(early.filter(asked) + late.filter(asked) =~= late.filter(asked));
}

} // verus!
