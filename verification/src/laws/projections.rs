//! Laws of projections.

use vstd::prelude::*;
use crate::codec::{decodes, Codec, EventDecodeError, ProjectionEvent};
use crate::id::AggregateId;
use crate::inmemory::InMemoryEventStore;
use crate::laws::inmemory::law_loaded_by_position;
use crate::projection::{
    among, converts, decodes_and_applies, reads_and_applies, takes, ApplyProjection, HandlerError,
    Projection, ProjectionBuilder, ProjectionError,
};
use crate::store::{EventStore, StoredEvent};

verus! {

/// A projection over the in-memory store handles the events across streams in the order in which
/// they were written.
///
/// The witnesses are the projection to begin with and the events as they were loaded.
pub proof fn law_projection_follows_positions<Id, C, M, P>(
    builder: ProjectionBuilder<'_, InMemoryEventStore<Id, C, M>, P>,
    projection: P,
) -> (r: (P, Seq<StoredEvent<Id, u64, M>>)) where
    Id: AggregateId,
    C: Codec,
    M: Clone,
    P: Projection,

    requires
        builder.builds(Ok(projection)),
    ensures
        call_ensures(P::default, (), r.0),
        builder.store().loads(builder.filters(), Ok(r.1)),
        builder.reaches(r.0, r.1, projection),
        forall|k: int, m: int|
            0 <= k < m < r.1.len() ==> (#[trigger] r.1[k]).position < (#[trigger] r.1[m]).position,
{
    let (start, stored) = choose|start: P, stored: Seq<StoredEvent<Id, u64, M>>|
        {
            &&& #[trigger] call_ensures(P::default, (), start)
            &&& #[trigger] builder.store().loads(builder.filters(), Ok(stored))
            &&& builder.reaches(start, stored, projection)
        };
    law_loaded_by_position(builder.store(), builder.filters(), stored);
    (start, stored)
}

/// Events that the builder passes over do not change a projection.
pub proof fn law_passed_over_events_change_nothing<S: EventStore, P: Projection>(
    builder: ProjectionBuilder<'_, S, P>,
    from: P,
    stored: Seq<StoredEvent<S::Id, S::Position, S::Metadata>>,
    to: P,
)
    requires
        builder.reaches(from, stored, to),
        forall|i: int, before: P, after: P|
            0 <= i < stored.len() && #[trigger] builder.responds(stored[i], before, after, Ok(()))
                ==> after == before,
    ensures
        to == from,
    decreases stored.len(),
{
    if stored.len() > 0 {
        let middle = choose|middle: P|
            builder.reaches(from, stored.drop_last(), middle) && #[trigger] builder.responds(
                stored.last(),
                middle,
                to,
                Ok(()),
            );
        assert forall|i: int, before: P, after: P|
            0 <= i < stored.drop_last().len() && #[trigger] builder.responds(
                stored.drop_last()[i],
                before,
                after,
                Ok(()),
            ) implies after == before by {
            assert(stored.drop_last()[i] == stored[i]);
        }
        law_passed_over_events_change_nothing(builder, from, stored.drop_last(), middle);
        assert(stored.last() == stored[stored.len() - 1]);
    }
}

/// Handling stored events in two parts, one after the other, is handling them in one: no event is
/// passed over, whatever the events before it were.
pub proof fn law_handling_in_parts<S: EventStore, P: Projection>(
    builder: ProjectionBuilder<'_, S, P>,
    from: P,
    first: Seq<StoredEvent<S::Id, S::Position, S::Metadata>>,
    second: Seq<StoredEvent<S::Id, S::Position, S::Metadata>>,
    to: P,
)
    ensures
        builder.reaches(from, first + second, to) <==> exists|middle: P| #[trigger]
            builder.reaches(from, first, middle) && builder.reaches(middle, second, to),
    decreases second.len(),
{
    let whole = first + second;
    if second.len() == 0 {
        assert(whole =~= first);
        if builder.reaches(from, whole, to) {
            assert(builder.reaches(from, first, to) && builder.reaches(to, second, to));
        }
    } else {
        let rest = second.drop_last();
        assert(whole.drop_last() =~= first + rest);
        assert(whole.last() == second.last());
        if builder.reaches(from, whole, to) {
            let near = choose|near: P|
                builder.reaches(from, whole.drop_last(), near) && #[trigger] builder.responds(
                    whole.last(),
                    near,
                    to,
                    Ok(()),
                );
            law_handling_in_parts(builder, from, first, rest, near);
            let middle = choose|middle: P| #[trigger]
                builder.reaches(from, first, middle) && builder.reaches(middle, rest, near);
            assert(builder.responds(second.last(), near, to, Ok(())));
            assert(builder.reaches(middle, second, to));
        }
        if exists|middle: P| #[trigger]
            builder.reaches(from, first, middle) && builder.reaches(middle, second, to) {
            let middle = choose|middle: P| #[trigger]
                builder.reaches(from, first, middle) && builder.reaches(middle, second, to);
            let near = choose|near: P|
                builder.reaches(middle, rest, near) && #[trigger] builder.responds(
                    second.last(),
                    near,
                    to,
                    Ok(()),
                );
            law_handling_in_parts(builder, from, first, rest, near);
            assert(builder.responds(whole.last(), near, to, Ok(())));
        }
    }
}

/// Handling one stored event is what the builder does with it, and handling none changes nothing.
pub proof fn law_handling_one_event<S: EventStore, P: Projection>(
    builder: ProjectionBuilder<'_, S, P>,
    from: P,
    event: StoredEvent<S::Id, S::Position, S::Metadata>,
    to: P,
)
    ensures
        builder.reaches(from, seq![event], to) <==> builder.responds(event, from, to, Ok(())),
        builder.reaches(
            from,
            Seq::<StoredEvent<S::Id, S::Position, S::Metadata>>::empty(),
            to,
        ) <==> to == from,
{
    let one = seq![event];
    assert(one.drop_last() =~= Seq::<StoredEvent<S::Id, S::Position, S::Metadata>>::empty());
    assert(one.last() == event);
    assert(builder.reaches(from, one.drop_last(), from));
    if builder.responds(event, from, to, Ok(())) {
        assert(builder.responds(one.last(), from, to, Ok(())));
    }
    if builder.reaches(from, one, to) {
        let middle = choose|middle: P|
            builder.reaches(from, one.drop_last(), middle) && #[trigger] builder.responds(
                one.last(),
                middle,
                to,
                Ok(()),
            );
        assert(builder.reaches(from, one.drop_last(), middle));
        assert(middle == from);
    }
}

/// Building handles every loaded event, one after the other: there is a projection before the first,
/// as `Default` gives it, and one after each, the last of which is the result.
///
/// The witnesses are the loaded events and these projections.
pub proof fn law_projection_walks_over_every_loaded_event<S: EventStore, P: Projection>(
    builder: ProjectionBuilder<'_, S, P>,
    projection: P,
) -> (r: (Seq<StoredEvent<S::Id, S::Position, S::Metadata>>, Seq<P>))
    requires
        builder.builds(Ok(projection)),
    ensures
        builder.store().loads(builder.filters(), Ok(r.0)),
        r.1.len() == r.0.len() + 1,
        call_ensures(P::default, (), r.1[0]),
        r.1[r.0.len() as int] == projection,
        forall|i: int|
            0 <= i < r.0.len() ==> builder.responds(
                #[trigger] r.0[i],
                r.1[i],
                r.1[i + 1],
                Ok(()),
            ),
{
    let (start, stored) = choose|
        start: P,
        stored: Seq<StoredEvent<S::Id, S::Position, S::Metadata>>,
    |
        {
            &&& #[trigger] call_ensures(P::default, (), start)
            &&& #[trigger] builder.store().loads(builder.filters(), Ok(stored))
            &&& builder.reaches(start, stored, projection)
        };
    (stored, lemma_walk(builder, start, stored, projection))
}

/// The projections between the events that were handled.
proof fn lemma_walk<S: EventStore, P: Projection>(
    builder: ProjectionBuilder<'_, S, P>,
    from: P,
    stored: Seq<StoredEvent<S::Id, S::Position, S::Metadata>>,
    to: P,
) -> (walk: Seq<P>)
    requires
        builder.reaches(from, stored, to),
    ensures
        walk.len() == stored.len() + 1,
        walk[0] == from,
        walk[stored.len() as int] == to,
        forall|i: int|
            0 <= i < stored.len() ==> builder.responds(
                #[trigger] stored[i],
                walk[i],
                walk[i + 1],
                Ok(()),
            ),
    decreases stored.len(),
{
    if stored.len() == 0 {
        seq![from]
    } else {
        let near = choose|near: P|
            builder.reaches(from, stored.drop_last(), near) && #[trigger] builder.responds(
                stored.last(),
                near,
                to,
                Ok(()),
            );
        let head = lemma_walk(builder, from, stored.drop_last(), near);
        let walk = head.push(to);
        assert forall|i: int| 0 <= i < stored.len() implies builder.responds(
            #[trigger] stored[i],
            walk[i],
            walk[i + 1],
            Ok(()),
        ) by {
            if i < stored.len() - 1 {
                assert(stored.drop_last()[i] == stored[i]);
            }
        }
        walk
    }
}

/// Building fails only where loading fails, or at an event that its handler cannot decode, after all
/// events before it were handled. The error is the one of loading or of that event, with its kind.
pub proof fn law_projection_failure_is_explained<S: EventStore, P: Projection>(
    builder: ProjectionBuilder<'_, S, P>,
    error: ProjectionError<S::Error, <S::Codec as Codec>::Error>,
)
    requires
        builder.builds(Err(error)),
    ensures
        match error {
            ProjectionError::Store(e) => builder.store().loads(builder.filters(), Err(e)),
            ProjectionError::SnapshotDeserialize(_) => false,
            _ => exists|
                start: P,
                stored: Seq<StoredEvent<S::Id, S::Position, S::Metadata>>,
                n: int,
                middle: P,
                after: P,
                cause: HandlerError<<S::Codec as Codec>::Error>,
            |
                {
                    &&& #[trigger] call_ensures(P::default, (), start)
                    &&& #[trigger] builder.store().loads(builder.filters(), Ok(stored))
                    &&& 0 <= n < stored.len()
                    &&& builder.reaches(start, stored.take(n), middle)
                    &&& #[trigger] builder.responds(stored[n], middle, after, Err(cause))
                    &&& match (error, cause) {
                        (ProjectionError::Codec { event_kind, error: e }, HandlerError::Codec(c)) => {
                            event_kind@ == stored[n].kind@ && e == c
                        },
                        (ProjectionError::EventDecode(e), HandlerError::EventDecode(c)) => e == c,
                        _ => false,
                    }
                },
        },
{
    match error {
        ProjectionError::Store(_) => {},
        ProjectionError::SnapshotDeserialize(_) => {},
        ProjectionError::Codec { event_kind, error: e } => {
            let cause = HandlerError::Codec(e);
            let (start, stored) = choose|
                start: P,
                stored: Seq<StoredEvent<S::Id, S::Position, S::Metadata>>,
            |
                {
                    &&& #[trigger] call_ensures(P::default, (), start)
                    &&& #[trigger] builder.store().loads(builder.filters(), Ok(stored))
                    &&& builder.fails(start, stored, event_kind@, cause)
                };
            let (n, middle, after) = choose|n: int, middle: P, after: P|
                {
                    &&& 0 <= n < stored.len()
                    &&& builder.reaches(start, stored.take(n), middle)
                    &&& #[trigger] builder.responds(stored[n], middle, after, Err(cause))
                    &&& stored[n].kind@ == event_kind@
                };
            assert(builder.responds(stored[n], middle, after, Err(cause)));
        },
        ProjectionError::EventDecode(e) => {
            let cause = HandlerError::EventDecode(e);
            let (start, stored) = choose|
                start: P,
                stored: Seq<StoredEvent<S::Id, S::Position, S::Metadata>>,
            |
                {
                    &&& #[trigger] call_ensures(P::default, (), start)
                    &&& #[trigger] builder.store().loads(builder.filters(), Ok(stored))
                    &&& exists|kind: Seq<char>| #[trigger] builder.fails(start, stored, kind, cause)
                };
            let kind = choose|kind: Seq<char>| #[trigger]
                builder.fails(start, stored, kind, cause);
            let (n, middle, after) = choose|n: int, middle: P, after: P|
                {
                    &&& 0 <= n < stored.len()
                    &&& builder.reaches(start, stored.take(n), middle)
                    &&& #[trigger] builder.responds(stored[n], middle, after, Err(cause))
                    &&& stored[n].kind@ == kind
                };
            assert(builder.responds(stored[n], middle, after, Err(cause)));
        },
    }
}

/// An event that is decoded is applied once, with its own identifier and with its own metadata, cloned
/// and converted; one that cannot be decoded changes nothing and gives the codec's error.
pub proof fn law_decoded_event_is_applied_once<S: EventStore, P: Projection, E>(
    codec: S::Codec,
    aggregate_id: S::Id,
    data: Seq<u8>,
    metadata: S::Metadata,
    before: P,
    after: P,
    result: Result<(), HandlerError<<S::Codec as Codec>::Error>>,
) where
    E: serde::de::DeserializeOwned,
    P: ApplyProjection<S::Id, E, P::Metadata>,
    S::Metadata: Clone + Into<P::Metadata>,

    requires
        decodes_and_applies::<S, P, E>(
            codec,
            aggregate_id,
            data,
            metadata,
            before,
            after,
            result,
        ),
    ensures
        match result {
            Ok(_) => exists|event: E, copy: S::Metadata, converted: P::Metadata|
                {
                    &&& #[trigger] decodes(codec, data, Ok(event))
                    &&& cloned(metadata, copy)
                    &&& #[trigger] call_ensures(Into::<P::Metadata>::into, (copy,), converted)
                    &&& before.projects(aggregate_id, event, converted, after)
                },
            Err(HandlerError::Codec(error)) => after == before && decodes::<S::Codec, E>(
                codec,
                data,
                Err(error),
            ),
            Err(HandlerError::EventDecode(_)) => false,
        },
{
    let decoded = choose|decoded: Result<E, <S::Codec as Codec>::Error>|
        {
            &&& #[trigger] decodes(codec, data, decoded)
            &&& match decoded {
                Ok(event) => result is Ok && takes::<S, P, E>(
                    aggregate_id,
                    event,
                    metadata,
                    before,
                    after,
                ),
                Err(error) => {
                    &&& after == before
                    &&& result matches Err(HandlerError::Codec(e)) && e == error
                },
            }
        };
    if let Ok(event) = decoded {
        lemma_takes::<S, P, E>(aggregate_id, event, metadata, before, after);
        assert(decodes(codec, data, Ok(event)));
    } else {
        assert(decodes::<S::Codec, E>(codec, data, Err(decoded->Err_0)));
    }
}

/// An event of a sum type that is read back by its kind is applied once, with its own identifier and
/// with its own metadata, cloned and converted; one that cannot be read back changes nothing and gives
/// that error.
pub proof fn law_read_event_is_applied_once<S: EventStore, P: Projection, E>(
    codec: S::Codec,
    kind: Seq<char>,
    aggregate_id: S::Id,
    data: Seq<u8>,
    metadata: S::Metadata,
    before: P,
    after: P,
    result: Result<(), HandlerError<<S::Codec as Codec>::Error>>,
) where
    E: ProjectionEvent<S::Codec>,
    P: ApplyProjection<S::Id, E, P::Metadata>,
    S::Metadata: Clone + Into<P::Metadata>,

    requires
        reads_and_applies::<S, P, E>(
            codec,
            kind,
            aggregate_id,
            data,
            metadata,
            before,
            after,
            result,
        ),
    ensures
        match result {
            Ok(_) => exists|event: E, copy: S::Metadata, converted: P::Metadata|
                {
                    &&& #[trigger] E::restores(kind, data, codec, Ok(event))
                    &&& cloned(metadata, copy)
                    &&& #[trigger] call_ensures(Into::<P::Metadata>::into, (copy,), converted)
                    &&& before.projects(aggregate_id, event, converted, after)
                },
            Err(HandlerError::EventDecode(error)) => after == before && E::restores(
                kind,
                data,
                codec,
                Err(error),
            ),
            Err(HandlerError::Codec(_)) => false,
        },
{
    let read = choose|read: Result<E, EventDecodeError<<S::Codec as Codec>::Error>>|
        {
            &&& #[trigger] E::restores(kind, data, codec, read)
            &&& match read {
                Ok(event) => result is Ok && takes::<S, P, E>(
                    aggregate_id,
                    event,
                    metadata,
                    before,
                    after,
                ),
                Err(error) => {
                    &&& after == before
                    &&& result matches Err(HandlerError::EventDecode(e)) && e == error
                },
            }
        };
    if let Ok(event) = read {
        lemma_takes::<S, P, E>(aggregate_id, event, metadata, before, after);
        assert(E::restores(kind, data, codec, Ok(event)));
    } else {
        assert(E::restores(kind, data, codec, Err(read->Err_0)));
    }
}

/// Applying an event, with the clone of the metadata and what it was converted to.
proof fn lemma_takes<S: EventStore, P: Projection, E>(
    aggregate_id: S::Id,
    event: E,
    metadata: S::Metadata,
    before: P,
    after: P,
) where
    P: ApplyProjection<S::Id, E, P::Metadata>,
    S::Metadata: Clone + Into<P::Metadata>,

    requires
        takes::<S, P, E>(aggregate_id, event, metadata, before, after),
    ensures
        exists|copy: S::Metadata, converted: P::Metadata|
            {
                &&& cloned(metadata, copy)
                &&& #[trigger] call_ensures(Into::<P::Metadata>::into, (copy,), converted)
                &&& before.projects(aggregate_id, event, converted, after)
            },
{
    let converted = choose|converted: P::Metadata| #[trigger]
        converts(metadata, converted) && before.projects(aggregate_id, event, converted, after);
    let copy = choose|copy: S::Metadata|
        cloned(metadata, copy) && #[trigger] call_ensures(
            Into::<P::Metadata>::into,
            (copy,),
            converted,
        );
    assert(call_ensures(Into::<P::Metadata>::into, (copy,), converted));
}

/// A kind is among others exactly where it is one of them.
pub proof fn law_among_is_being_one_of(kinds: Seq<&str>, kind: Seq<char>)
    ensures
        among(kinds, kind) <==> exists|i: int| 0 <= i < kinds.len() && kind == (#[trigger] kinds[i])@,
{
}

} // verus!
