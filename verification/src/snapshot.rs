//! Snapshots: aggregate state kept at a position, so that loading replays fewer events.

use vstd::prelude::*;
use std::convert::Infallible;
use std::marker::PhantomData;
use crate::id::AggregateId;

verus! {

/// Aggregate state at a point in time.
///
/// `position` is the position of the stream when the snapshot was taken: only later events need to
/// be replayed on it.
#[derive(Clone, Debug)]
pub struct Snapshot<Pos> {
    /// Position of the stream when the snapshot was taken.
    pub position: Pos,
    /// Serialised aggregate state.
    pub data: Vec<u8>,
}

impl<Pos: Clone> Snapshot<Pos> {
    /// `self` holds the same state as `other`, with a cloned position.
    pub open spec fn is_copy_of(self, other: Self) -> bool {
        cloned(other.position, self.position) && self.data@ == other.data@
    }
}

/// Persistence of snapshots, together with the policy when to take one.
///
/// How a store answers is given by the relations `finds` and `takes_offer`, which an implementation
/// may define, and by [`wants_snapshot`].
pub trait SnapshotStore: Sized {
    /// Aggregate identifier type, that of the event store.
    type Id: AggregateId;

    /// Position type, that of the event store.
    type Position;

    /// Error type of the store.
    type Error;

    /// Looking up the snapshot of an aggregate instance may give `result`.
    open spec fn finds(
        &self,
        aggregate_kind: Seq<char>,
        aggregate_id: <Self::Id as AggregateId>::Key,
        result: Result<Option<Snapshot<Self::Position>>, Self::Error>,
    ) -> bool {
        true
    }

    /// Offering a snapshot may give `result` and leave the store as `after`.
    open spec fn takes_offer(
        self,
        aggregate_kind: Seq<char>,
        aggregate_id: <Self::Id as AggregateId>::Key,
        snapshot: Snapshot<Self::Position>,
        events_since_last_snapshot: u64,
        after: Self,
        result: Result<(), Self::Error>,
    ) -> bool {
        true
    }

    /// The most recent snapshot of an aggregate instance, or `None` where there is none.
    fn load(&self, aggregate_kind: &str, aggregate_id: &Self::Id) -> (r: Result<
        Option<Snapshot<Self::Position>>,
        Self::Error,
    >)
        ensures
            self.finds(aggregate_kind@, aggregate_id.key(), r),
    ;

    /// Whether a snapshot should be taken.
    ///
    /// Asked before the state is serialised, so that a store can spare that work. Without an
    /// implementation of its own, a store wants every snapshot.
    fn should_snapshot(
        &self,
        aggregate_kind: &str,
        aggregate_id: &Self::Id,
        events_since_last_snapshot: u64,
    ) -> (r: bool)
        default_ensures
            r,
    {
        true
    }

    /// Offers a snapshot to the store, which may keep it.
    ///
    /// `events_since_last_snapshot` counts the events since the last snapshot that was loaded.
    fn offer_snapshot(
        &mut self,
        aggregate_kind: &str,
        aggregate_id: &Self::Id,
        snapshot: Snapshot<Self::Position>,
        events_since_last_snapshot: u64,
    ) -> (r: Result<(), Self::Error>)
        ensures
            old(self).takes_offer(
                aggregate_kind@,
                aggregate_id.key(),
                snapshot,
                events_since_last_snapshot,
                *final(self),
                r,
            ),
    ;
}

/// Asking the store whether to take a snapshot may give `answer`.
pub open spec fn wants_snapshot<SS: SnapshotStore>(
    snapshots: SS,
    aggregate_kind: Seq<char>,
    aggregate_id: <SS::Id as AggregateId>::Key,
    events_since_last_snapshot: u64,
    answer: bool,
) -> bool {
    exists|kind: &str, id: &SS::Id|
        {
            &&& kind@ == aggregate_kind
            &&& id.key() == aggregate_id
            &&& #[trigger] call_ensures(
                SS::should_snapshot,
                (&snapshots, kind, id, events_since_last_snapshot),
                answer,
            )
        }
}

/// A store that keeps no snapshots: it finds none, and discards those that it is offered.
#[derive(Debug)]
pub struct NoSnapshots<Id, Pos>(pub PhantomData<(Id, Pos)>);

impl<Id: Clone, Pos: Clone> Clone for NoSnapshots<Id, Pos> {
    fn clone(&self) -> (r: Self)
        ensures
            r == *self,
    {
        NoSnapshots::new()
    }
}

impl<Id, Pos> NoSnapshots<Id, Pos> {
    /// A store that keeps no snapshots.
    #[must_use]
    pub fn new() -> (r: Self)
        ensures
            r == NoSnapshots::<Id, Pos>(PhantomData),
    {
        NoSnapshots(PhantomData)
    }
}

impl<Id, Pos> Default for NoSnapshots<Id, Pos> {
    fn default() -> (r: Self)
        ensures
            r == NoSnapshots::<Id, Pos>(PhantomData),
    {
        NoSnapshots::new()
    }
}

impl<Id: AggregateId, Pos> SnapshotStore for NoSnapshots<Id, Pos> {
    type Id = Id;

    type Position = Pos;

    type Error = Infallible;

    open spec fn finds(
        &self,
        aggregate_kind: Seq<char>,
        aggregate_id: <Id as AggregateId>::Key,
        result: Result<Option<Snapshot<Pos>>, Infallible>,
    ) -> bool {
        result == Ok::<Option<Snapshot<Pos>>, Infallible>(None)
    }

    open spec fn takes_offer(
        self,
        aggregate_kind: Seq<char>,
        aggregate_id: <Id as AggregateId>::Key,
        snapshot: Snapshot<Pos>,
        events_since_last_snapshot: u64,
        after: Self,
        result: Result<(), Infallible>,
    ) -> bool {
        after == self && result is Ok
    }

    fn load(&self, aggregate_kind: &str, aggregate_id: &Id) -> (r: Result<
        Option<Snapshot<Pos>>,
        Infallible,
    >) {
        Ok(None)
    }

    fn should_snapshot(
        &self,
        aggregate_kind: &str,
        aggregate_id: &Id,
        events_since_last_snapshot: u64,
    ) -> (r: bool)
        ensures
            !r,
    {
        false
    }

    fn offer_snapshot(
        &mut self,
        aggregate_kind: &str,
        aggregate_id: &Id,
        snapshot: Snapshot<Pos>,
        events_since_last_snapshot: u64,
    ) -> (r: Result<(), Infallible>) {
        Ok(())
    }
}

/// When to take a snapshot.
#[derive(Clone, Copy, Debug)]
pub enum SnapshotPolicy {
    /// After every command that brought about events.
    Always,
    /// Once there are that many events since the last snapshot.
    EveryNEvents(u64),
    /// Never: snapshots are only loaded.
    Never,
}

impl SnapshotPolicy {
    /// Whether the policy calls for a snapshot after that many events.
    pub open spec fn calls_for(self, events_since: u64) -> bool {
        match self {
            SnapshotPolicy::Always => true,
            SnapshotPolicy::EveryNEvents(threshold) => events_since >= threshold,
            SnapshotPolicy::Never => false,
        }
    }

    /// Whether the policy calls for a snapshot after that many events.
    pub fn should_snapshot(&self, events_since: u64) -> (r: bool)
        ensures
            r == self.calls_for(events_since),
    {
        match self {
            SnapshotPolicy::Always => true,
            SnapshotPolicy::EveryNEvents(threshold) => events_since >= *threshold,
            SnapshotPolicy::Never => false,
        }
    }
}

/// The snapshot that is kept for one aggregate instance.
#[derive(Clone, Debug)]
struct Kept<Id, Pos> {
    aggregate_kind: String,
    aggregate_id: Id,
    snapshot: Snapshot<Pos>,
}

/// In-memory snapshot store with a policy.
///
/// It keeps the latest snapshot of each aggregate instance.
#[derive(Clone, Debug)]
pub struct InMemorySnapshotStore<Id, Pos> {
    kept: Vec<Kept<Id, Pos>>,
    policy: SnapshotPolicy,
}

/// Entry `i` is the first for the aggregate instance.
spec fn first_for<Id: AggregateId, Pos>(
    kept: Seq<Kept<Id, Pos>>,
    key: (Seq<char>, <Id as AggregateId>::Key),
    i: int,
) -> bool {
    &&& 0 <= i < kept.len()
    &&& kept[i].key() == key
    &&& forall|j: int| 0 <= j < i ==> (#[trigger] kept[j]).key() != key
}

impl<Id: AggregateId, Pos> Kept<Id, Pos> {
    /// The aggregate instance of the entry.
    spec fn key(&self) -> (Seq<char>, <Id as AggregateId>::Key) {
        (self.aggregate_kind@, self.aggregate_id.key())
    }
}

impl<Id: AggregateId, Pos> InMemorySnapshotStore<Id, Pos> {
    /// The policy of the store.
    pub closed spec fn policy(&self) -> SnapshotPolicy {
        self.policy
    }

    /// The snapshots in the store, by the kind and the identifier of the aggregate instance.
    pub closed spec fn snapshots(&self) -> Map<(Seq<char>, <Id as AggregateId>::Key), Snapshot<Pos>> {
        Map::new(
            |key: (Seq<char>, <Id as AggregateId>::Key)| exists|i: int| first_for(self.kept@, key, i),
            |key: (Seq<char>, <Id as AggregateId>::Key)|
                self.kept@[choose|i: int| first_for(self.kept@, key, i)].snapshot,
        )
    }

    /// An empty store.
    fn empty(policy: SnapshotPolicy) -> (r: Self)
        ensures
            r.policy() == policy,
            r.snapshots() == Map::<(Seq<char>, <Id as AggregateId>::Key), Snapshot<Pos>>::empty(),
    {
        let r = InMemorySnapshotStore { kept: Vec::new(), policy };
        assert(r.snapshots() =~= Map::<(Seq<char>, <Id as AggregateId>::Key), Snapshot<Pos>>::empty());
        r
    }

    /// A store that saves after every command. It fits aggregates that are expensive to replay.
    #[must_use]
    pub fn always() -> (r: Self)
        ensures
            r.policy() == SnapshotPolicy::Always,
            r.snapshots() == Map::<(Seq<char>, <Id as AggregateId>::Key), Snapshot<Pos>>::empty(),
    {
        InMemorySnapshotStore::empty(SnapshotPolicy::Always)
    }

    /// A store that saves once there are `n` events since the last snapshot.
    #[must_use]
    pub fn every(n: u64) -> (r: Self)
        ensures
            r.policy() == SnapshotPolicy::EveryNEvents(n),
            r.snapshots() == Map::<(Seq<char>, <Id as AggregateId>::Key), Snapshot<Pos>>::empty(),
    {
        InMemorySnapshotStore::empty(SnapshotPolicy::EveryNEvents(n))
    }

    /// A store that never saves.
    #[must_use]
    pub fn never() -> (r: Self)
        ensures
            r.policy() == SnapshotPolicy::Never,
            r.snapshots() == Map::<(Seq<char>, <Id as AggregateId>::Key), Snapshot<Pos>>::empty(),
    {
        InMemorySnapshotStore::empty(SnapshotPolicy::Never)
    }

    /// The place of the entry for an aggregate instance.
    fn find(&self, aggregate_kind: &str, aggregate_id: &Id) -> (r: Option<usize>)
        ensures
            match r {
                Some(i) => first_for(self.kept@, (aggregate_kind@, aggregate_id.key()), i as int),
                None => forall|i: int| !first_for(
                    self.kept@,
                    (aggregate_kind@, aggregate_id.key()),
                    i,
                ),
            },
    {
        let wanted = aggregate_kind.to_string();
        for i in 0..self.kept.len()
            invariant
                wanted@ == aggregate_kind@,
                forall|j: int|
                    0 <= j < i ==> (#[trigger] self.kept@[j]).key() != (
                        aggregate_kind@,
                        aggregate_id.key(),
                    ),
        {
            let entry = &self.kept[i];
            if entry.aggregate_kind == wanted && entry.aggregate_id.same(aggregate_id) {
                return Some(i);
            }
        }
        None
    }

    /// Keeps a snapshot, in place of an earlier one of the same aggregate instance.
    fn keep(&mut self, aggregate_kind: &str, aggregate_id: &Id, snapshot: Snapshot<Pos>)
        ensures
            final(self).policy() == old(self).policy(),
            final(self).snapshots() == old(self).snapshots().insert(
                (aggregate_kind@, aggregate_id.key()),
                snapshot,
            ),
    {
        let entry = Kept {
            aggregate_kind: aggregate_kind.to_string(),
            aggregate_id: aggregate_id.duplicate(),
            snapshot,
        };
        let ghost key = (aggregate_kind@, aggregate_id.key());
        let ghost before = self.kept@;
        match self.find(aggregate_kind, aggregate_id) {
            Some(i) => {
                self.kept.set(i, entry);
                assert(first_for(self.kept@, key, i as int));
            },
            None => {
                self.kept.push(entry);
                assert forall|j: int| 0 <= j < before.len() implies (
                #[trigger] self.kept@[j]).key() != key by {
                    if before[j].key() == key {
                        lemma_first_for(before, key, j);
                    }
                }
                assert(first_for(self.kept@, key, before.len() as int));
            },
        }
        assert forall|other: (Seq<char>, <Id as AggregateId>::Key), i: int|
            other != key implies first_for(before, other, i) == first_for(
            self.kept@,
            other,
            i,
        ) by {
            if first_for(self.kept@, other, i) {
                assert(before[i].key() == other);
                assert forall|j: int| 0 <= j < i implies (#[trigger] before[j]).key() != other by {
                    assert(self.kept@[j].key() != other);
                }
            }
            if first_for(before, other, i) {
                assert(self.kept@[i].key() == other);
                assert forall|j: int| 0 <= j < i implies (
                #[trigger] self.kept@[j]).key() != other by {
                    assert(before[j].key() != other);
                }
            }
        }
        proof {
            let old_map = old(self).snapshots();
            let new_map = self.snapshots();
            assert forall|other: (Seq<char>, <Id as AggregateId>::Key)| other != key
                && old_map.dom().contains(other) implies #[trigger] new_map[other]
                == old_map[other] by {
                let i = choose|i: int| first_for(before, other, i);
                let j = choose|j: int| first_for(self.kept@, other, j);
                assert(first_for(before, other, i));
                assert(first_for(self.kept@, other, i));
                assert(i == j);
            }
            assert forall|other: (Seq<char>, <Id as AggregateId>::Key)| #[trigger]
                new_map.dom().contains(other) == old_map.insert(key, snapshot).dom().contains(
                    other,
                ) by {
                if other != key && old_map.dom().contains(other) {
                    let i = choose|i: int| first_for(before, other, i);
                    assert(first_for(self.kept@, other, i));
                }
                if other != key && new_map.dom().contains(other) {
                    let i = choose|i: int| first_for(self.kept@, other, i);
                    assert(first_for(before, other, i));
                }
            }
            let j = choose|j: int| first_for(self.kept@, key, j);
            assert(first_for(self.kept@, key, j));
            assert(new_map[key] == snapshot);
            assert(new_map =~= old_map.insert(key, snapshot));
        }
    }
}

/// Where an entry is for an aggregate instance, there is a first one.
proof fn lemma_first_for<Id: AggregateId, Pos>(
    kept: Seq<Kept<Id, Pos>>,
    key: (Seq<char>, <Id as AggregateId>::Key),
    j: int,
)
    requires
        0 <= j < kept.len(),
        kept[j].key() == key,
    ensures
        exists|i: int| first_for(kept, key, i),
    decreases j,
{
    if exists|m: int| 0 <= m < j && (#[trigger] kept[m]).key() == key {
        let m = choose|m: int| 0 <= m < j && (#[trigger] kept[m]).key() == key;
        lemma_first_for(kept, key, m);
    } else {
        assert(first_for(kept, key, j));
    }
}

impl<Id: AggregateId, Pos> Default for InMemorySnapshotStore<Id, Pos> {
    fn default() -> (r: Self)
        ensures
            r.policy() == SnapshotPolicy::Always,
            r.snapshots() == Map::<(Seq<char>, <Id as AggregateId>::Key), Snapshot<Pos>>::empty(),
    {
        InMemorySnapshotStore::always()
    }
}

impl<Id: AggregateId, Pos: Clone> SnapshotStore for InMemorySnapshotStore<Id, Pos> {
    type Id = Id;

    type Position = Pos;

    type Error = Infallible;

    open spec fn finds(
        &self,
        aggregate_kind: Seq<char>,
        aggregate_id: <Id as AggregateId>::Key,
        result: Result<Option<Snapshot<Pos>>, Infallible>,
    ) -> bool {
        let key = (aggregate_kind, aggregate_id);
        match result {
            Ok(Some(snapshot)) => self.snapshots().dom().contains(key) && snapshot.is_copy_of(
                self.snapshots()[key],
            ),
            Ok(None) => !self.snapshots().dom().contains(key),
            Err(_) => false,
        }
    }

    open spec fn takes_offer(
        self,
        aggregate_kind: Seq<char>,
        aggregate_id: <Id as AggregateId>::Key,
        snapshot: Snapshot<Pos>,
        events_since_last_snapshot: u64,
        after: Self,
        result: Result<(), Infallible>,
    ) -> bool {
        &&& result is Ok
        &&& after.policy() == self.policy()
        &&& after.snapshots() == if self.policy().calls_for(events_since_last_snapshot) {
            self.snapshots().insert((aggregate_kind, aggregate_id), snapshot)
        } else {
            self.snapshots()
        }
    }

    fn load(&self, aggregate_kind: &str, aggregate_id: &Id) -> (r: Result<
        Option<Snapshot<Pos>>,
        Infallible,
    >) {
        match self.find(aggregate_kind, aggregate_id) {
            Some(i) => {
                let snapshot = &self.kept[i].snapshot;
                let data = snapshot.data.clone();
                assert(data@ =~= snapshot.data@);
                assert(forall|j: int|
                    first_for(self.kept@, (aggregate_kind@, aggregate_id.key()), j) ==> j == i);
                Ok(Some(Snapshot { position: snapshot.position.clone(), data }))
            },
            None => Ok(None),
        }
    }

    fn should_snapshot(
        &self,
        aggregate_kind: &str,
        aggregate_id: &Id,
        events_since_last_snapshot: u64,
    ) -> (r: bool)
        ensures
            r == self.policy().calls_for(events_since_last_snapshot),
    {
        self.policy.should_snapshot(events_since_last_snapshot)
    }

    fn offer_snapshot(
        &mut self,
        aggregate_kind: &str,
        aggregate_id: &Id,
        snapshot: Snapshot<Pos>,
        events_since_last_snapshot: u64,
    ) -> (r: Result<(), Infallible>) {
        if self.policy.should_snapshot(events_since_last_snapshot) {
            self.keep(aggregate_kind, aggregate_id, snapshot);
        }
        Ok(())
    }
}

} // verus!
