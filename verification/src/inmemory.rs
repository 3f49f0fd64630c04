//! An event store that keeps its events in memory.

use vstd::prelude::*;
use std::convert::Infallible;
use std::marker::PhantomData;
use crate::codec::Codec;
use crate::concurrency::{ConcurrencyConflict, ConcurrencyStrategy};
use crate::id::AggregateId;
use crate::store::{
    copied, AppendError, EventFilter, EventStore, PersistableEvent, StoredEvent, Transaction,
};
use crate::text::Describe;

verus! {

/// Error type of [`InMemoryEventStore`], which cannot fail: no value of it exists.
#[derive(Debug, Clone, Copy, PartialEq, Eq)]
pub enum InMemoryError {
    Never(Infallible),
}

impl Describe for InMemoryError {
    open spec fn describes(&self, text: Seq<char>) -> bool {
        text == "infallible"@
    }

    fn message(&self) -> (text: String) {
        String::from_str("infallible")
    }
}

impl From<Infallible> for InMemoryError {
    fn from(x: Infallible) -> (r: Self) {
        InMemoryError::Never(x)
    }
}

impl vstd::std_specs::convert::FromSpecImpl<Infallible> for InMemoryError {
    open spec fn obeys_from_spec() -> bool {
        true
    }

    open spec fn from_spec(x: Infallible) -> Self {
        InMemoryError::Never(x)
    }
}

/// One entry of the log: an event with the aggregate instance it belongs to.
struct Record<Id, M> {
    aggregate_kind: String,
    aggregate_id: Id,
    event: PersistableEvent<M>,
}

impl<Id: AggregateId, M: Clone> Record<Id, M> {
    /// The event that the record stands for, at a position.
    spec fn stored(self, position: u64) -> StoredEvent<Id, u64, M> {
        StoredEvent {
            aggregate_kind: self.aggregate_kind,
            aggregate_id: self.aggregate_id,
            kind: self.event.kind,
            position,
            data: self.event.data,
            metadata: self.event.metadata,
        }
    }

    /// A copy of the event that the record stands for.
    fn to_stored(&self, position: u64) -> (r: StoredEvent<Id, u64, M>)
        ensures
            r.is_copy_of(self.stored(position)),
    {
        let data = self.event.data.clone();
        assert(data@ =~= self.event.data@);
        StoredEvent {
            aggregate_kind: self.aggregate_kind.clone(),
            aggregate_id: self.aggregate_id.duplicate(),
            kind: self.event.kind.clone(),
            position,
            data,
            metadata: self.event.metadata.clone(),
        }
    }
}

/// In-memory event store.
///
/// One log holds the events of all streams. An event's position is its place in the log, so
/// positions order events across streams. A stream holds the events of one aggregate instance, told
/// by its kind and the key of its identifier.
pub struct InMemoryEventStore<Id, C, M> where C: Codec {
    codec: C,
    log: Vec<Record<Id, M>>,
}

/// The aggregate instance that an event belongs to: its kind and the key of its identifier.
pub open spec fn stream_of<Id: AggregateId, M>(event: StoredEvent<Id, u64, M>) -> (
    Seq<char>,
    <Id as AggregateId>::Key,
) {
    (event.aggregate_kind@, event.aggregate_id.key())
}

/// The events of `log` that belong to an aggregate instance.
pub open spec fn stream<Id: AggregateId, M>(
    log: Seq<StoredEvent<Id, u64, M>>,
    key: (Seq<char>, <Id as AggregateId>::Key),
) -> Seq<StoredEvent<Id, u64, M>> {
    log.filter(|event: StoredEvent<Id, u64, M>| stream_of(event) == key)
}

/// The version of a stream: the position of its last event.
pub open spec fn version<Id: AggregateId, M>(
    log: Seq<StoredEvent<Id, u64, M>>,
    key: (Seq<char>, <Id as AggregateId>::Key),
) -> Option<u64> {
    let events = stream(log, key);
    if events.len() == 0 {
        None
    } else {
        Some(events.last().position)
    }
}

/// `after` is `before` with `events` added at its end, as events of one aggregate instance.
pub open spec fn extended<Id: AggregateId, M>(
    before: Seq<StoredEvent<Id, u64, M>>,
    aggregate_kind: Seq<char>,
    aggregate_id: <Id as AggregateId>::Key,
    events: Seq<PersistableEvent<M>>,
    after: Seq<StoredEvent<Id, u64, M>>,
) -> bool {
    &&& after.len() == before.len() + events.len()
    &&& forall|i: int| 0 <= i < before.len() ==> #[trigger] after[i] == before[i]
    &&& forall|i: int|
        before.len() <= i < after.len() ==> {
            let event = events[i - before.len()];
            &&& (#[trigger] after[i]).aggregate_kind@ == aggregate_kind
            &&& after[i].aggregate_id.key() == aggregate_id
            &&& after[i].kind == event.kind
            &&& after[i].position == i
            &&& after[i].data == event.data
            &&& after[i].metadata == event.metadata
        }
}

/// The filter names one aggregate instance.
pub open spec fn scoped<Id, Pos>(filter: EventFilter<Id, Pos>) -> bool {
    filter.aggregate_kind is Some && filter.aggregate_id is Some
}

/// The filter asks for the event: it is of the kind, belongs to the aggregate instance where the
/// filter names one, and comes after the position where there is one.
pub open spec fn asks_for<Id: AggregateId, M>(
    filter: EventFilter<Id, u64>,
    event: StoredEvent<Id, u64, M>,
) -> bool {
    &&& filter.event_kind@ == event.kind@
    &&& scoped(filter) ==> stream_of(event) == (
        filter.aggregate_kind->Some_0@,
        filter.aggregate_id->Some_0.key(),
    )
    &&& filter.after_position matches Some(after) ==> event.position > after
}

/// Some filter asks for the event.
pub open spec fn some_filter_asks<Id: AggregateId, M>(
    filters: Seq<EventFilter<Id, u64>>,
    event: StoredEvent<Id, u64, M>,
) -> bool {
    exists|j: int| 0 <= j < filters.len() && asks_for(#[trigger] filters[j], event)
}

/// The events of the log that some filter asks for, in the order of the log.
pub open spec fn selection<Id: AggregateId, M>(
    log: Seq<StoredEvent<Id, u64, M>>,
    filters: Seq<EventFilter<Id, u64>>,
) -> Seq<StoredEvent<Id, u64, M>> {
    log.filter(|event: StoredEvent<Id, u64, M>| some_filter_asks(filters, event))
}

impl<Id, C: Codec, M> InMemoryEventStore<Id, C, M> {
    /// The codec that the store was made with.
    pub closed spec fn made_with(&self) -> C {
        self.codec
    }
}

impl<Id: AggregateId, C: Codec, M: Clone> InMemoryEventStore<Id, C, M> {
    /// All events of the store, by position.
    pub closed spec fn log(&self) -> Seq<StoredEvent<Id, u64, M>> {
        Seq::new(self.log@.len(), |i: int| self.log@[i].stored(i as u64))
    }

    /// An event's position is its place in the log, and all positions fit.
    pub proof fn positions(&self)
        ensures
            self.log().len() <= u64::MAX,
            forall|i: int| 0 <= i < self.log().len() ==> (#[trigger] self.log()[i]).position == i,
    {
        assert(self.log.len() == self.log@.len());
    }

    /// An empty store.
    #[must_use]
    pub fn new(codec: C) -> (r: Self)
        ensures
            r.made_with() == codec,
            r.log() == Seq::<StoredEvent<Id, u64, M>>::empty(),
    {
        let r = InMemoryEventStore { codec, log: Vec::new() };
        assert(r.log() =~= Seq::<StoredEvent<Id, u64, M>>::empty());
        r
    }

    /// Whether event `i` of the log belongs to an aggregate instance.
    fn belongs_to(&self, i: usize, aggregate_kind: &String, aggregate_id: &Id) -> (r: bool)
        requires
            i < self.log().len(),
        ensures
            r == (stream_of(self.log()[i as int]) == (aggregate_kind@, aggregate_id.key())),
    {
        let record = &self.log[i];
        record.aggregate_kind == *aggregate_kind && record.aggregate_id.same(aggregate_id)
    }

    /// The position of the last event of a stream.
    fn last_position(&self, aggregate_kind: &str, aggregate_id: &Id) -> (r: Option<u64>)
        ensures
            r == version(self.log(), (aggregate_kind@, aggregate_id.key())),
    {
        let ghost key = (aggregate_kind@, aggregate_id.key());
        let kind = aggregate_kind.to_string();
        let mut last: Option<u64> = None;
        for i in 0..self.log.len()
            invariant
                key == (kind@, aggregate_id.key()),
                last == version(self.log().take(i as int), key),
        {
            proof {
                let head = self.log().take(i as int);
                assert(self.log().take(i + 1) =~= head.push(self.log()[i as int]));
                head.lemma_filter_push(
                    self.log()[i as int],
                    |event: StoredEvent<Id, u64, M>| stream_of(event) == key,
                );
            }
            if self.belongs_to(i, &kind, aggregate_id) {
                last = Some(i as u64);
            }
        }
        assert(self.log().take(self.log@.len() as int) =~= self.log());
        last
    }

    /// Adds events of one aggregate instance at the end of the log.
    fn push_all(&mut self, aggregate_kind: &str, aggregate_id: &Id, events: Vec<PersistableEvent<M>>)
        ensures
            final(self).made_with() == old(self).made_with(),
            extended(old(self).log(), aggregate_kind@, aggregate_id.key(), events@, final(self).log()),
    {
        for event in it: events
            invariant
                it.seq() == events@,
                self.made_with() == old(self).made_with(),
                extended(
                    old(self).log(),
                    aggregate_kind@,
                    aggregate_id.key(),
                    events@.take(it.index()),
                    self.log(),
                ),
        {
            let ghost before = self.log();
            self.log.push(
                Record {
                    aggregate_kind: aggregate_kind.to_string(),
                    aggregate_id: aggregate_id.duplicate(),
                    event,
                },
            );
            assert(self.log.len() == before.len() + 1);
            assert(forall|i: int| 0 <= i < before.len() ==> #[trigger] self.log()[i] == before[i]);
        }
        assert(events@.take(events@.len() as int) =~= events@);
    }

    /// Whether a filter asks for event `i` of the log.
    fn is_asked_for(&self, filter: &EventFilter<Id, u64>, i: usize) -> (r: bool)
        requires
            i < self.log().len(),
        ensures
            r == asks_for(*filter, self.log()[i as int]),
    {
        if filter.event_kind != self.log[i].event.kind {
            return false;
        }
        match filter.after_position {
            Some(after) => if i as u64 <= after {
                return false;
            },
            None => {},
        }
        match (&filter.aggregate_kind, &filter.aggregate_id) {
            (Some(aggregate_kind), Some(aggregate_id)) => self.belongs_to(
                i,
                aggregate_kind,
                aggregate_id,
            ),
            _ => true,
        }
    }

    /// Whether some filter asks for event `i` of the log.
    fn is_selected(&self, filters: &[EventFilter<Id, u64>], i: usize) -> (r: bool)
        requires
            i < self.log().len(),
        ensures
            r == some_filter_asks(filters@, self.log()[i as int]),
    {
        for j in 0..filters.len()
            invariant
                i < self.log().len(),
                forall|m: int|
                    0 <= m < j ==> !asks_for(#[trigger] filters@[m], self.log()[i as int]),
        {
            if self.is_asked_for(&filters[j], i) {
                return true;
            }
        }
        false
    }

    /// Loads the events that some filter asks for, in the order of their positions.
    fn select(&self, filters: &[EventFilter<Id, u64>]) -> (r: Vec<StoredEvent<Id, u64, M>>)
        ensures
            copied(selection(self.log(), filters@), r@),
    {
        let ghost pred = |event: StoredEvent<Id, u64, M>| some_filter_asks(filters@, event);
        let mut result: Vec<StoredEvent<Id, u64, M>> = Vec::new();
        assert(selection(self.log().take(0), filters@) =~= Seq::empty()) by {
            reveal(Seq::filter);
        }
        for i in 0..self.log.len()
            invariant
                pred == (|event: StoredEvent<Id, u64, M>| some_filter_asks(filters@, event)),
                copied(selection(self.log().take(i as int), filters@), result@),
        {
            proof {
                let head = self.log().take(i as int);
                assert(self.log().take(i + 1) =~= head.push(self.log()[i as int]));
                head.lemma_filter_push(self.log()[i as int], pred);
            }
            if self.is_selected(filters, i) {
                result.push(self.log[i].to_stored(i as u64));
            }
        }
        assert(self.log().take(self.log@.len() as int) =~= self.log());
        result
    }
}

/// A log that was extended by at least one event of an aggregate instance has events of its
/// stream.
proof fn lemma_extended_holds<Id: AggregateId, M>(
    before: Seq<StoredEvent<Id, u64, M>>,
    aggregate_kind: Seq<char>,
    aggregate_id: <Id as AggregateId>::Key,
    events: Seq<PersistableEvent<M>>,
    after: Seq<StoredEvent<Id, u64, M>>,
)
    requires
        extended(before, aggregate_kind, aggregate_id, events, after),
        events.len() > 0,
    ensures
        stream(after, (aggregate_kind, aggregate_id)).len() > 0,
{
    let key = (aggregate_kind, aggregate_id);
    let pred = |event: StoredEvent<Id, u64, M>| stream_of(event) == key;
    assert(pred(after[before.len() as int]));
    after.lemma_filter_contains(pred, before.len() as int);
}

impl<Id: AggregateId, C: Codec, M: Clone> EventStore for InMemoryEventStore<Id, C, M> {
    type Id = Id;

    type Position = u64;

    type Error = InMemoryError;

    type Codec = C;

    type Metadata = M;

    open spec fn used_codec(&self) -> C {
        self.made_with()
    }

    open spec fn loads(
        &self,
        filters: Seq<EventFilter<Id, u64>>,
        result: Result<Seq<StoredEvent<Id, u64, M>>, InMemoryError>,
    ) -> bool {
        result matches Ok(events) && copied(selection(self.log(), filters), events)
    }

    open spec fn reports(
        &self,
        aggregate_kind: Seq<char>,
        aggregate_id: <Id as AggregateId>::Key,
        result: Result<Option<u64>, InMemoryError>,
    ) -> bool {
        result == Ok::<Option<u64>, InMemoryError>(
            version(self.log(), (aggregate_kind, aggregate_id)),
        )
    }

    open spec fn appends(
        self,
        aggregate_kind: Seq<char>,
        aggregate_id: <Id as AggregateId>::Key,
        expected_version: Option<u64>,
        events: Seq<PersistableEvent<M>>,
        after: Self,
        result: Result<(), AppendError<u64, InMemoryError>>,
    ) -> bool {
        let current = version(self.log(), (aggregate_kind, aggregate_id));
        if expected_version is Some && current != expected_version {
            &&& result == Err::<(), AppendError<u64, InMemoryError>>(
                AppendError::Conflict(
                    ConcurrencyConflict { expected: expected_version, actual: current },
                ),
            )
            &&& after == self
        } else {
            &&& result is Ok
            &&& after.made_with() == self.made_with()
            &&& extended(self.log(), aggregate_kind, aggregate_id, events, after.log())
        }
    }

    open spec fn appends_new(
        self,
        aggregate_kind: Seq<char>,
        aggregate_id: <Id as AggregateId>::Key,
        events: Seq<PersistableEvent<M>>,
        after: Self,
        result: Result<(), AppendError<u64, InMemoryError>>,
    ) -> bool {
        let current = version(self.log(), (aggregate_kind, aggregate_id));
        if current is Some {
            &&& result == Err::<(), AppendError<u64, InMemoryError>>(
                AppendError::Conflict(ConcurrencyConflict { expected: None, actual: current }),
            )
            &&& after == self
        } else {
            &&& result is Ok
            &&& after.made_with() == self.made_with()
            &&& extended(self.log(), aggregate_kind, aggregate_id, events, after.log())
        }
    }

    fn codec(&self) -> (r: &C) {
        &self.codec
    }

    fn stream_version(&self, aggregate_kind: &str, aggregate_id: &Id) -> (r: Result<
        Option<u64>,
        InMemoryError,
    >) {
        Ok(self.last_position(aggregate_kind, aggregate_id))
    }

    fn begin<Conc: ConcurrencyStrategy>(
        &mut self,
        aggregate_kind: &str,
        aggregate_id: Id,
        expected_version: Option<u64>,
    ) -> (tx: Transaction<'_, Self, Conc>) {
        Transaction {
            store: self,
            aggregate_kind: aggregate_kind.to_string(),
            aggregate_id,
            expected_version,
            events: Vec::new(),
            strategy: PhantomData,
        }
    }

    fn append(
        &mut self,
        aggregate_kind: &str,
        aggregate_id: &Id,
        expected_version: Option<u64>,
        events: Vec<PersistableEvent<M>>,
    ) -> (r: Result<(), AppendError<u64, InMemoryError>>) {
        if let Some(expected) = expected_version {
            match self.stream_version(aggregate_kind, aggregate_id) {
                Ok(current) => {
                    if current != Some(expected) {
                        return Err(
                            AppendError::Conflict(
                                ConcurrencyConflict { expected: Some(expected), actual: current },
                            ),
                        );
                    }
                },
                Err(error) => return Err(AppendError::store(error)),
            }
        }
        self.push_all(aggregate_kind, aggregate_id, events);
        proof {
            if events@.len() > 0 {
                lemma_extended_holds(
                    old(self).log(),
                    aggregate_kind@,
                    aggregate_id.key(),
                    events@,
                    self.log(),
                );
            }
        }
        Ok(())
    }

    fn load_events(&self, filters: &[EventFilter<Id, u64>]) -> (r: Result<
        Vec<StoredEvent<Id, u64, M>>,
        InMemoryError,
    >) {
        Ok(self.select(filters))
    }

    fn append_expecting_new(
        &mut self,
        aggregate_kind: &str,
        aggregate_id: &Id,
        events: Vec<PersistableEvent<M>>,
    ) -> (r: Result<(), AppendError<u64, InMemoryError>>) {
        match self.stream_version(aggregate_kind, aggregate_id) {
            Ok(Some(actual)) => {
                return Err(
                    AppendError::Conflict(
                        ConcurrencyConflict { expected: None, actual: Some(actual) },
                    ),
                );
            },
            Ok(None) => {},
            Err(error) => return Err(AppendError::store(error)),
        }
        self.push_all(aggregate_kind, aggregate_id, events);
        proof {
            if events@.len() > 0 {
                lemma_extended_holds(
                    old(self).log(),
                    aggregate_kind@,
                    aggregate_id.key(),
                    events@,
                    self.log(),
                );
            }
        }
        Ok(())
    }
}

} // verus!
