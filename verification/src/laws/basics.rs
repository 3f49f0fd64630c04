//! Laws of the relations that the other laws and the contracts are made of: replaying, reading back,
//! copying, comparing, and telling identifiers apart.

use vstd::prelude::*;
use vstd::string::*;
use crate::aggregate::{fresh, reaches, read_as, replays, Aggregate};
use crate::codec::{
    decodes, encodes, result_view, Codec, EventDecodeError, ProjectionEvent, SerializableEvent,
};
use crate::id::AggregateId;
use crate::repository::{aggregate_of, writes_down, LoadedAggregate};
use crate::snapshot::{wants_snapshot, Snapshot, SnapshotStore};
use crate::store::{
    copied, instance_filters, kind_filters, store_failure, AppendError, EventFilter,
    PersistableEvent, StoredEvent,
};
use crate::test::{compares, surely_equal};
use crate::text::{display_form, mentions};

verus! {

/// A state to begin with is one that `Default` gives.
pub proof fn law_fresh_is_default<A: Aggregate>(state: A)
    ensures
        fresh(state) <==> call_ensures(A::default, (), state),
{
}

/// Replaying is a walk: one state for each event and one to begin with, each event applied once to
/// the state before it, in order.
pub proof fn law_replay_is_a_walk<A: Aggregate>(from: A, events: Seq<A::Event>, to: A)
    ensures
        reaches(from, events, to) <==> exists|states: Seq<A>|
            {
                &&& #[trigger] states.len() == events.len() + 1
                &&& states[0] == from
                &&& states[events.len() as int] == to
                &&& forall|i: int|
                    0 <= i < events.len() ==> (#[trigger] states[i]).applies(
                        events[i],
                        states[i + 1],
                    )
            },
    decreases events.len(),
{
    if events.len() == 0 {
        if to == from {
            let states = seq![from];
            assert(states.len() == events.len() + 1);
        }
    } else {
        let head = events.drop_last();
        if reaches(from, events, to) {
            let near = choose|near: A|
                reaches(from, head, near) && #[trigger] near.applies(events.last(), to);
            law_replay_is_a_walk(from, head, near);
            let before = choose|states: Seq<A>|
                {
                    &&& #[trigger] states.len() == head.len() + 1
                    &&& states[0] == from
                    &&& states[head.len() as int] == near
                    &&& forall|i: int|
                        0 <= i < head.len() ==> (#[trigger] states[i]).applies(
                            head[i],
                            states[i + 1],
                        )
                };
            let states = before.push(to);
            assert(states.len() == events.len() + 1);
            assert forall|i: int| 0 <= i < events.len() implies (#[trigger] states[i]).applies(
                events[i],
                states[i + 1],
            ) by {
                if i < head.len() {
                    assert(before[i].applies(head[i], before[i + 1]));
                }
            }
        }
        if exists|states: Seq<A>|
            {
                &&& #[trigger] states.len() == events.len() + 1
                &&& states[0] == from
                &&& states[events.len() as int] == to
                &&& forall|i: int|
                    0 <= i < events.len() ==> (#[trigger] states[i]).applies(
                        events[i],
                        states[i + 1],
                    )
            } {
            let states = choose|states: Seq<A>|
                {
                    &&& #[trigger] states.len() == events.len() + 1
                    &&& states[0] == from
                    &&& states[events.len() as int] == to
                    &&& forall|i: int|
                        0 <= i < events.len() ==> (#[trigger] states[i]).applies(
                            events[i],
                            states[i + 1],
                        )
                };
            let before = states.drop_last();
            assert(before.len() == head.len() + 1);
            assert forall|i: int| 0 <= i < head.len() implies (#[trigger] before[i]).applies(
                head[i],
                before[i + 1],
            ) by {
                assert(states[i].applies(events[i], states[i + 1]));
            }
            let near = before[head.len() as int];
            law_replay_is_a_walk(from, head, near);
            assert(states[head.len() as int].applies(events[head.len() as int], to));
            assert(near.applies(events.last(), to));
        }
    }
}

/// A replay that succeeds read every stored event back, one for one and in order, and walked over
/// what it read. A replay that fails read the events before the failing one.
pub proof fn law_replay_reads_every_event<A: Aggregate, C: Codec, Id, Pos, M>(
    codec: C,
    from: A,
    stored: Seq<StoredEvent<Id, Pos, M>>,
    result: Result<A, EventDecodeError<C::Error>>,
) -> (events: Seq<A::Event>) where A::Event: ProjectionEvent<C>
    requires
        replays(codec, from, stored, result),
    ensures
        events.len() <= stored.len(),
        forall|i: int|
            0 <= i < events.len() ==> A::Event::restores(
                stored[i].kind@,
                stored[i].data@,
                codec,
                Ok(#[trigger] events[i]),
            ),
        match result {
            Ok(to) => events.len() == stored.len() && reaches(from, events, to),
            Err(error) => events.len() < stored.len() && A::Event::restores(
                stored[events.len() as int].kind@,
                stored[events.len() as int].data@,
                codec,
                Err(error),
            ),
        },
{
    match result {
        Ok(to) => {
            let events = choose|events: Seq<A::Event>| #[trigger]
                read_as(codec, stored, events) && reaches(from, events, to);
            assert forall|i: int| 0 <= i < events.len() implies A::Event::restores(
                stored[i].kind@,
                stored[i].data@,
                codec,
                Ok(#[trigger] events[i]),
            ) by {
                assert(crate::aggregate::reads_as(codec, stored[i], events[i]));
            }
            events
        },
        Err(error) => {
            let (n, events) = choose|n: int, events: Seq<A::Event>|
                {
                    &&& 0 <= n < stored.len()
                    &&& #[trigger] read_as(codec, stored.take(n), events)
                    &&& A::Event::restores(stored[n].kind@, stored[n].data@, codec, Err(error))
                };
            assert forall|i: int| 0 <= i < events.len() implies A::Event::restores(
                stored[i].kind@,
                stored[i].data@,
                codec,
                Ok(#[trigger] events[i]),
            ) by {
                assert(crate::aggregate::reads_as(codec, stored.take(n)[i], events[i]));
            }
            events
        },
    }
}

/// Writing events down gives one entry for each, in order, with its kind and data and a clone of the
/// metadata, or the error of an event after all before it were written.
pub proof fn law_every_event_is_written<E: SerializableEvent<C>, C: Codec, M: Clone>(
    codec: C,
    events: Seq<E>,
    metadata: M,
    result: Result<Seq<PersistableEvent<M>>, C::Error>,
) -> (batch: Seq<PersistableEvent<M>>)
    requires
        writes_down(codec, events, metadata, result),
    ensures
        batch.len() <= events.len(),
        forall|i: int|
            0 <= i < batch.len() ==> {
                &&& events[i].persists(codec, Ok(((#[trigger] batch[i]).kind@, batch[i].data@)))
                &&& cloned(metadata, batch[i].metadata)
            },
        match result {
            Ok(written) => written == batch && batch.len() == events.len(),
            Err(error) => batch.len() < events.len() && events[batch.len() as int].persists(
                codec,
                Err(error),
            ),
        },
{
    match result {
        Ok(batch) => batch,
        Err(error) => {
            let (n, batch) = choose|n: int, batch: Seq<PersistableEvent<M>>|
                {
                    &&& 0 <= n < events.len()
                    &&& #[trigger] crate::repository::written_as(
                        codec,
                        events.take(n),
                        metadata,
                        batch,
                    )
                    &&& events[n].persists(codec, Err(error))
                };
            assert forall|i: int| 0 <= i < batch.len() implies {
                &&& events[i].persists(codec, Ok(((#[trigger] batch[i]).kind@, batch[i].data@)))
                &&& cloned(metadata, batch[i].metadata)
            } by {
                assert(events.take(n)[i] == events[i]);
            }
            batch
        },
    }
}

/// Encoding and decoding are what the codec's own functions do.
pub proof fn law_codec_decides<C: Codec, T: serde::Serialize + serde::de::DeserializeOwned>(
    codec: C,
    value: T,
    data: Seq<u8>,
    encoded: Result<Seq<u8>, C::Error>,
    decoded: Result<T, C::Error>,
)
    ensures
        encodes(codec, value, encoded) ==> exists|r: Result<Vec<u8>, C::Error>|
            #[trigger] call_ensures(C::serialize::<T>, (&codec, &value), r) && match (r, encoded) {
                (Ok(bytes), Ok(seen)) => bytes@ == seen,
                (Err(error), Err(seen)) => error == seen,
                _ => false,
            },
        decodes(codec, data, decoded) ==> exists|bytes: &[u8]|
            bytes@ == data && #[trigger] call_ensures(
                C::deserialize::<T>,
                (&codec, bytes),
                decoded,
            ),
{
    if encodes(codec, value, encoded) {
        let r = choose|r: Result<Vec<u8>, C::Error>|
            #[trigger] call_ensures(C::serialize::<T>, (&codec, &value), r) && encoded
                == result_view(r);
        assert(call_ensures(C::serialize::<T>, (&codec, &value), r));
    }
}

/// A result seen over a sequence holds all elements of the vector, in order, or the same error.
pub proof fn law_results_are_seen_whole<T, E>(result: Result<Vec<T>, E>)
    ensures
        match (result, result_view(result)) {
            (Ok(vector), Ok(seen)) => seen.len() == vector@.len() && forall|i: int|
                0 <= i < seen.len() ==> #[trigger] seen[i] == vector@[i],
            (Err(error), Err(seen)) => seen == error,
            _ => false,
        },
{
}

/// The aggregate of a loading result is the loaded one, and an error stays that error.
pub proof fn law_aggregate_of_result<A, E>(loaded: Result<LoadedAggregate<A>, E>)
    ensures
        match (loaded, aggregate_of(loaded)) {
            (Ok(loaded), Ok(aggregate)) => aggregate == loaded.aggregate,
            (Err(error), Err(seen)) => seen == error,
            _ => false,
        },
{
}

/// The outcome of an append without version checking is the store's own.
pub proof fn law_store_failures_are_the_stores<Pos, StoreError>(result: Result<(), StoreError>)
    ensures
        match (result, store_failure::<Pos, StoreError>(result)) {
            (Ok(_), Ok(_)) => true,
            (Err(error), Err(AppendError::Store(seen))) => seen == error,
            _ => false,
        },
{
}

/// Copies agree with what they are copies of in every field, one by one and in order.
pub proof fn law_copies_agree_in_every_field<Id: AggregateId, Pos, M: Clone>(
    events: Seq<StoredEvent<Id, Pos, M>>,
    copies: Seq<StoredEvent<Id, Pos, M>>,
)
    ensures
        copied(events, copies) <==> {
            &&& copies.len() == events.len()
            &&& forall|i: int|
                0 <= i < events.len() ==> {
                    &&& (#[trigger] copies[i]).aggregate_kind@ == events[i].aggregate_kind@
                    &&& copies[i].aggregate_id.key() == events[i].aggregate_id.key()
                    &&& copies[i].kind@ == events[i].kind@
                    &&& copies[i].position == events[i].position
                    &&& copies[i].data@ == events[i].data@
                    &&& cloned(events[i].metadata, copies[i].metadata)
                }
        },
{
    if copied(events, copies) {
        assert forall|i: int| 0 <= i < events.len() implies {
            &&& (#[trigger] copies[i]).aggregate_kind@ == events[i].aggregate_kind@
            &&& copies[i].aggregate_id.key() == events[i].aggregate_id.key()
            &&& copies[i].kind@ == events[i].kind@
            &&& copies[i].position == events[i].position
            &&& copies[i].data@ == events[i].data@
            &&& cloned(events[i].metadata, copies[i].metadata)
        } by {
            assert(copies[i].is_copy_of(events[i]));
        }
    }
}

/// A snapshot's copy holds the same data at a clone of its position.
pub proof fn law_snapshot_copies_agree<Pos: Clone>(snapshot: Snapshot<Pos>, copy: Snapshot<Pos>)
    ensures
        copy.is_copy_of(snapshot) <==> copy.data@ == snapshot.data@ && cloned(
            snapshot.position,
            copy.position,
        ),
{
}

/// The filters of an aggregate instance are one for each kind, in order, and each names the kind,
/// the instance and the position.
pub proof fn law_instance_filters_name_the_instance<Id: AggregateId, Pos>(
    kinds: Seq<&str>,
    aggregate_kind: Seq<char>,
    aggregate_id: <Id as AggregateId>::Key,
    after: Option<Pos>,
    filters: Seq<EventFilter<Id, Pos>>,
)
    ensures
        instance_filters(kinds, aggregate_kind, aggregate_id, after, filters) <==> {
            &&& filters.len() == kinds.len()
            &&& forall|i: int|
                0 <= i < kinds.len() ==> {
                    &&& (#[trigger] filters[i]).event_kind@ == kinds[i]@
                    &&& filters[i].aggregate_kind is Some
                    &&& filters[i].aggregate_kind->Some_0@ == aggregate_kind
                    &&& filters[i].aggregate_id is Some
                    &&& filters[i].aggregate_id->Some_0.key() == aggregate_id
                    &&& filters[i].after_position == after
                }
        },
{
}

/// The filters of kinds are one for each, in order, and name neither an instance nor a position.
pub proof fn law_kind_filters_name_the_kinds<Id, Pos>(
    kinds: Seq<&str>,
    filters: Seq<EventFilter<Id, Pos>>,
)
    ensures
        kind_filters(kinds, filters) <==> {
            &&& filters.len() == kinds.len()
            &&& forall|i: int|
                0 <= i < kinds.len() ==> {
                    &&& (#[trigger] filters[i]).event_kind@ == kinds[i]@
                    &&& filters[i].aggregate_kind is None
                    &&& filters[i].aggregate_id is None
                    &&& filters[i].after_position is None
                }
        },
{
}

/// Whether a snapshot is wanted is what the snapshot store answers, asked for that instance and that
/// number of events.
pub proof fn law_snapshot_store_is_asked<SS: SnapshotStore>(
    snapshots: SS,
    aggregate_kind: Seq<char>,
    aggregate_id: <SS::Id as AggregateId>::Key,
    events: u64,
    answer: bool,
)
    requires
        wants_snapshot(snapshots, aggregate_kind, aggregate_id, events, answer),
    ensures
        exists|kind: &str, id: &SS::Id|
            {
                &&& kind@ == aggregate_kind
                &&& id.key() == aggregate_id
                &&& #[trigger] call_ensures(
                    SS::should_snapshot,
                    (&snapshots, kind, id, events),
                    answer,
                )
            },
{
}

/// Comparing is what the values' own `eq` does, and values are surely equal where it can only say so.
pub proof fn law_comparison_is_eq<T: PartialEq>(left: T, right: T, answer: bool)
    ensures
        compares(left, right, answer) <==> call_ensures(T::eq, (&left, &right), answer),
        surely_equal(left, right) <==> !call_ensures(T::eq, (&left, &right), false),
{
    assert(compares(left, right, false) <==> call_ensures(T::eq, (&left, &right), false));
}

/// A text mentions another exactly where it is made of something, the other, and something more.
pub proof fn law_mentions_is_being_a_part(text: Seq<char>, part: Seq<char>)
    ensures
        mentions(text, part) <==> exists|before: Seq<char>, behind: Seq<char>|
            text == #[trigger] (before + part + behind),
{
    if mentions(text, part) {
        let i = choose|i: int|
            0 <= i && i + part.len() <= text.len() && #[trigger] text.subrange(i, i + part.len())
                == part;
        let before = text.take(i);
        let behind = text.skip(i + part.len());
        assert(text =~= before + part + behind);
    }
    if exists|before: Seq<char>, behind: Seq<char>| text == #[trigger] (before + part + behind) {
        let (before, behind) = choose|before: Seq<char>, behind: Seq<char>|
            text == #[trigger] (before + part + behind);
        let i = before.len() as int;
        assert(text.subrange(i, i + part.len()) =~= part);
    }
}

/// The displayed form of a value is what its `to_string` writes.
pub proof fn law_display_form_is_to_string<T: core::fmt::Display>(value: T, text: Seq<char>)
    ensures
        display_form(value, text) <==> exists|s: String|
            #[trigger] to_string_from_display_ensures::<T>(&value, s) && s@ == text,
{
}

/// Different identifiers have different keys.
pub proof fn law_keys_tell_identifiers_apart()
    ensures
        forall|a: String, b: String| #![trigger a.key(), b.key()] a.key() == b.key() <==> a@ == b@,
        forall|a: u8, b: u8| #![trigger a.key(), b.key()] a.key() == b.key() <==> a == b,
        forall|a: u16, b: u16| #![trigger a.key(), b.key()] a.key() == b.key() <==> a == b,
        forall|a: u32, b: u32| #![trigger a.key(), b.key()] a.key() == b.key() <==> a == b,
        forall|a: u64, b: u64| #![trigger a.key(), b.key()] a.key() == b.key() <==> a == b,
        forall|a: u128, b: u128| #![trigger a.key(), b.key()] a.key() == b.key() <==> a == b,
        forall|a: usize, b: usize| #![trigger a.key(), b.key()] a.key() == b.key() <==> a == b,
        forall|a: i8, b: i8| #![trigger a.key(), b.key()] a.key() == b.key() <==> a == b,
        forall|a: i16, b: i16| #![trigger a.key(), b.key()] a.key() == b.key() <==> a == b,
        forall|a: i32, b: i32| #![trigger a.key(), b.key()] a.key() == b.key() <==> a == b,
        forall|a: i64, b: i64| #![trigger a.key(), b.key()] a.key() == b.key() <==> a == b,
        forall|a: i128, b: i128| #![trigger a.key(), b.key()] a.key() == b.key() <==> a == b,
        forall|a: isize, b: isize| #![trigger a.key(), b.key()] a.key() == b.key() <==> a == b,
{
}

} // verus!
