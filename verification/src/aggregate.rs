//! Aggregates: state that is rebuilt from events and decides on commands.

use vstd::prelude::*;
use std::marker::PhantomData;
use crate::codec::{result_view, Codec, EventDecodeError, ProjectionEvent};
use crate::concurrency::ConcurrencyStrategy;
use crate::id::AggregateId;
use crate::repository::{aggregate_of, rebuilds, LoadError, LoadedAggregate, Repository};
use crate::snapshot::SnapshotStore;
use crate::snapshot_repository::{restores, SnapshotRepository};
use crate::store::{EventStore, StoredEvent};

verus! {

/// Command-side entity: applies its own events, which rebuild its state.
///
/// Its events form one sum type, so that events can be dispatched and stored by kind. What an
/// event does to the state is given by the relation `applies`.
pub trait Aggregate: Default + Sized {
    /// Names the aggregate type; part of a stream's name.
    const KIND: &'static str;

    type Event;

    type Error;

    type Id;

    /// Applying `event` to `self` may give `after`.
    open spec fn applies(self, event: Self::Event, after: Self) -> bool {
        true
    }

    /// Applies an event to the state.
    fn apply(&mut self, event: &Self::Event)
        ensures
            old(self).applies(*event, *final(self)),
    ;
}

/// Mutates an aggregate with one of its component events.
///
/// The event sum type of an aggregate dispatches to these implementations.
pub trait Apply<E>: Sized {
    /// Applying `event` to `self` may give `after`.
    open spec fn takes(self, event: E, after: Self) -> bool {
        true
    }

    /// Applies an event to the state.
    fn apply(&mut self, event: &E)
        ensures
            old(self).takes(*event, *final(self)),
    ;
}

/// Decides on a command: the events that it brings about, or why it is refused.
pub trait Handle<C>: Aggregate {
    /// Handling `command` may give `result`.
    open spec fn handles(self, command: C, result: Result<Seq<Self::Event>, Self::Error>) -> bool {
        true
    }

    /// Handles a command. The state does not change: events are applied after they are stored.
    fn handle(&self, command: &C) -> (r: Result<Vec<Self::Event>, Self::Error>)
        ensures
            self.handles(*command, result_view(r)),
    ;
}

/// `aggregate` is a state to begin with, as `Default` gives it.
pub open spec fn fresh<A: Aggregate>(aggregate: A) -> bool {
    call_ensures(A::default, (), aggregate)
}

/// Applying the events in turn may lead from one state to the other.
pub open spec fn reaches<A: Aggregate>(from: A, events: Seq<A::Event>, to: A) -> bool
    decreases events.len(),
{
    if events.len() == 0 {
        to == from
    } else {
        exists|middle: A|
            reaches(from, events.drop_last(), middle) && #[trigger] middle.applies(
                events.last(),
                to,
            )
    }
}

/// The stored event may be read back as `event`.
pub open spec fn reads_as<E: ProjectionEvent<C>, C: Codec, Id, Pos, M>(
    codec: C,
    stored: StoredEvent<Id, Pos, M>,
    event: E,
) -> bool {
    E::restores(stored.kind@, stored.data@, codec, Ok(event))
}

/// The stored events may be read back, one by one, as `events`.
pub open spec fn read_as<E: ProjectionEvent<C>, C: Codec, Id, Pos, M>(
    codec: C,
    stored: Seq<StoredEvent<Id, Pos, M>>,
    events: Seq<E>,
) -> bool {
    &&& events.len() == stored.len()
    &&& forall|i: int| 0 <= i < stored.len() ==> reads_as(codec, stored[i], #[trigger] events[i])
}

/// Replaying the stored events on `from` may give `result`: the state that the events lead to, or
/// the error of the first event that cannot be read back.
pub open spec fn replays<A: Aggregate, C: Codec, Id, Pos, M>(
    codec: C,
    from: A,
    stored: Seq<StoredEvent<Id, Pos, M>>,
    result: Result<A, EventDecodeError<C::Error>>,
) -> bool where A::Event: ProjectionEvent<C> {
    match result {
        Ok(to) => exists|events: Seq<A::Event>| #[trigger]
            read_as(codec, stored, events) && reaches(from, events, to),
        Err(error) => exists|n: int, events: Seq<A::Event>|
            {
                &&& 0 <= n < stored.len()
                &&& #[trigger] read_as(codec, stored.take(n), events)
                &&& A::Event::restores(stored[n].kind@, stored[n].data@, codec, Err(error))
            },
    }
}

/// Applies the stored events to the aggregate, in turn.
///
/// The first event that cannot be read back ends the replay.
pub(crate) fn apply_stored_events<A, C, Id, Pos, M>(
    aggregate: &mut A,
    codec: &C,
    stored: &Vec<StoredEvent<Id, Pos, M>>,
) -> (r: Result<(), EventDecodeError<C::Error>>) where
    A: Aggregate,
    A::Event: ProjectionEvent<C>,
    C: Codec,

    ensures
        match r {
            Ok(()) => replays(*codec, *old(aggregate), stored@, Ok(*final(aggregate))),
            Err(error) => replays(*codec, *old(aggregate), stored@, Err(error)),
        },
{
    let ghost mut events = Seq::<A::Event>::empty();
    for i in 0..stored.len()
        invariant
            read_as(*codec, stored@.take(i as int), events),
            reaches(*old(aggregate), events, *aggregate),
    {
        match A::Event::from_stored(stored[i].kind.as_str(), stored[i].data.as_slice(), codec) {
            Ok(event) => {
                let ghost before = *aggregate;
                aggregate.apply(&event);
                proof {
                    let longer = events.push(event);
                    assert(longer.drop_last() =~= events);
                    assert(reaches(*old(aggregate), longer.drop_last(), before));
                    assert(before.applies(longer.last(), *aggregate));
                    assert(reaches(*old(aggregate), longer, *aggregate));
                    let head = stored@.take(i as int);
                    let next = stored@.take(i + 1);
                    assert(next =~= head.push(stored@[i as int]));
                    assert forall|k: int| 0 <= k < next.len() implies reads_as(
                        *codec,
                        next[k],
                        #[trigger] longer[k],
                    ) by {
                        if k < i {
                            assert(reads_as(*codec, head[k], events[k]));
                        }
                    }
                    events = longer;
                }
            },
            Err(error) => {
                assert(read_as(*codec, stored@.take(i as int), events));
                return Err(error);
            },
        }
    }
    assert(stored@.take(stored@.len() as int) =~= stored@);
    Ok(())
}

/// Applies the events to the aggregate, in turn.
pub(crate) fn apply_all<A: Aggregate>(aggregate: &mut A, events: &Vec<A::Event>)
    ensures
        reaches(*old(aggregate), events@, *final(aggregate)),
{
    for i in 0..events.len()
        invariant
            reaches(*old(aggregate), events@.take(i as int), *aggregate),
    {
        let ghost before = *aggregate;
        aggregate.apply(&events[i]);
        proof {
            let next = events@.take(i + 1);
            assert(next.drop_last() =~= events@.take(i as int));
            assert(before.applies(next.last(), *aggregate));
            assert(reaches(*old(aggregate), next, *aggregate));
        }
    }
    assert(events@.take(events@.len() as int) =~= events@);
}

/// Loads aggregates of one type from a repository.
pub struct AggregateBuilder<'a, R, A> {
    repository: &'a R,
    aggregate: PhantomData<A>,
}

impl<'a, R, A> AggregateBuilder<'a, R, A> {
    /// The repository that aggregates are loaded from.
    pub closed spec fn repository(&self) -> R {
        *self.repository
    }

    /// A builder over a repository.
    pub(crate) fn new(repository: &'a R) -> (r: Self)
        ensures
            r.repository() == *repository,
    {
        AggregateBuilder { repository, aggregate: PhantomData }
    }
}

impl<'a, S, C, A> AggregateBuilder<'a, Repository<S, C>, A> where
    S: EventStore,
    C: ConcurrencyStrategy,
    A: Aggregate<Id = S::Id>,
 {
    /// Loads an aggregate by replaying all its events.
    pub fn load(self, id: &S::Id) -> (r: Result<A, LoadError<S>>) where
        A::Event: ProjectionEvent<S::Codec>,

        ensures
            exists|loaded: Result<LoadedAggregate<A>, LoadError<S>>| #[trigger]
                rebuilds(self.repository().store(), id.key(), loaded) && r == aggregate_of(loaded),
    {
        let r = self.repository.load(id);
        assert(self.repository() == *self.repository);
        r
    }
}

impl<'a, S, SS, C, A> AggregateBuilder<'a, SnapshotRepository<S, SS, C>, A> where
    S: EventStore,
    SS: SnapshotStore<Id = S::Id, Position = S::Position>,
    C: ConcurrencyStrategy,
    A: Aggregate<Id = S::Id>,
 {
    /// Loads an aggregate, from a snapshot where there is one.
    pub fn load(self, id: &S::Id) -> (r: Result<A, LoadError<S>>) where
        A: serde::de::DeserializeOwned,
        A::Event: ProjectionEvent<S::Codec>,

        ensures
            exists|loaded: Result<LoadedAggregate<A>, LoadError<S>>| #[trigger]
                restores(
                    self.repository().store(),
                    self.repository().snapshots(),
                    id.key(),
                    loaded,
                ) && r == aggregate_of(loaded),
    {
        let r = self.repository.load(id);
        assert(self.repository() == *self.repository);
        r
    }
}

} // verus!
