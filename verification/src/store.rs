//! Persistence: stored events, filters, transactions, and the store interface.

use vstd::prelude::*;
use vstd::string::*;
use std::marker::PhantomData;
use crate::codec::{Codec, SerializableEvent};
use crate::concurrency::{ConcurrencyConflict, ConcurrencyStrategy, Optimistic, Unchecked};
use crate::id::AggregateId;
use crate::text::{joined, Describe};

pub use crate::codec::JsonCodec;
pub use crate::inmemory;

verus! {

/// Raw event data ready to be written to a store.
///
/// Generic over the metadata type `M`.
#[derive(Debug, Clone)]
pub struct PersistableEvent<M> {
    pub kind: String,
    pub data: Vec<u8>,
    pub metadata: M,
}

/// An event loaded from a store, with its position.
///
/// Generic over the aggregate identifier `Id`, the position `Pos` and the metadata `M`.
#[derive(Debug, Clone)]
pub struct StoredEvent<Id, Pos, M> {
    pub aggregate_kind: String,
    pub aggregate_id: Id,
    pub kind: String,
    pub position: Pos,
    pub data: Vec<u8>,
    pub metadata: M,
}

impl<Id: AggregateId, Pos, M: Clone> StoredEvent<Id, Pos, M> {
    /// `self` tells of the same event as `other`, with cloned metadata.
    pub open spec fn is_copy_of(self, other: Self) -> bool {
        &&& self.aggregate_kind@ == other.aggregate_kind@
        &&& self.aggregate_id.key() == other.aggregate_id.key()
        &&& self.kind@ == other.kind@
        &&& self.position == other.position
        &&& self.data@ == other.data@
        &&& cloned(other.metadata, self.metadata)
    }
}

/// The events of `copies` are, one by one, copies of those of `events`.
pub open spec fn copied<Id: AggregateId, Pos, M: Clone>(
    events: Seq<StoredEvent<Id, Pos, M>>,
    copies: Seq<StoredEvent<Id, Pos, M>>,
) -> bool {
    &&& copies.len() == events.len()
    &&& forall|i: int| 0 <= i < events.len() ==> (#[trigger] copies[i]).is_copy_of(events[i])
}

/// Which events a store should load.
///
/// A filter names an event kind, and may narrow it to one aggregate instance and to the events
/// after a position.
#[derive(Debug, Clone, PartialEq, Eq)]
pub struct EventFilter<Id, Pos = ()> {
    pub event_kind: String,
    pub aggregate_kind: Option<String>,
    pub aggregate_id: Option<Id>,
    /// Only events whose position is strictly greater are loaded.
    pub after_position: Option<Pos>,
}

impl<Id, Pos> EventFilter<Id, Pos> {
    /// All events of a kind, of every aggregate.
    #[must_use]
    pub fn for_event(kind: impl Into<String>) -> (r: Self)
        ensures
            call_ensures(Into::<String>::into, (kind,), r.event_kind),
            r.aggregate_kind is None,
            r.aggregate_id is None,
            r.after_position is None,
    {
        EventFilter {
            event_kind: kind.into(),
            aggregate_kind: None,
            aggregate_id: None,
            after_position: None,
        }
    }

    /// The events of a kind of one aggregate instance.
    #[must_use]
    pub fn for_aggregate(
        event_kind: impl Into<String>,
        aggregate_kind: impl Into<String>,
        aggregate_id: impl Into<Id>,
    ) -> (r: Self)
        ensures
            call_ensures(Into::<String>::into, (event_kind,), r.event_kind),
            r.aggregate_kind matches Some(kind) && call_ensures(
                Into::<String>::into,
                (aggregate_kind,),
                kind,
            ),
            r.aggregate_id matches Some(id) && call_ensures(Into::<Id>::into, (aggregate_id,), id),
            r.after_position is None,
    {
        EventFilter {
            event_kind: event_kind.into(),
            aggregate_kind: Some(aggregate_kind.into()),
            aggregate_id: Some(aggregate_id.into()),
            after_position: None,
        }
    }

    /// The events of a kind of one aggregate instance, whose identifier needs no conversion.
    pub(crate) fn for_instance(event_kind: &str, aggregate_kind: &str, aggregate_id: Id) -> (r: Self)
        ensures
            r.event_kind@ == event_kind@,
            r.aggregate_kind matches Some(kind) && kind@ == aggregate_kind@,
            r.aggregate_id == Some(aggregate_id),
            r.after_position is None,
    {
        EventFilter {
            event_kind: event_kind.to_string(),
            aggregate_kind: Some(aggregate_kind.to_string()),
            aggregate_id: Some(aggregate_id),
            after_position: None,
        }
    }

    /// Narrows the filter to the events whose position is strictly greater than `position`.
    ///
    /// After a snapshot taken at a position, this loads only the events that came later.
    #[must_use]
    pub fn after(self, position: Pos) -> (r: Self)
        ensures
            r == (EventFilter { after_position: Some(position), ..self }),
    {
        EventFilter {
            event_kind: self.event_kind,
            aggregate_kind: self.aggregate_kind,
            aggregate_id: self.aggregate_id,
            after_position: Some(position),
        }
    }
}

/// The filters ask for the events of the given kinds of one aggregate instance, after a position
/// where there is one.
pub open spec fn instance_filters<Id: AggregateId, Pos>(
    kinds: Seq<&str>,
    aggregate_kind: Seq<char>,
    aggregate_id: <Id as AggregateId>::Key,
    after: Option<Pos>,
    filters: Seq<EventFilter<Id, Pos>>,
) -> bool {
    &&& filters.len() == kinds.len()
    &&& forall|i: int|
        0 <= i < filters.len() ==> {
            &&& (#[trigger] filters[i]).event_kind@ == kinds[i]@
            &&& filters[i].aggregate_kind matches Some(kind) && kind@ == aggregate_kind
            &&& filters[i].aggregate_id matches Some(id) && id.key() == aggregate_id
            &&& filters[i].after_position == after
        }
}

/// The filters ask for the events of the given kinds, of all aggregates.
pub open spec fn kind_filters<Id, Pos>(
    kinds: Seq<&str>,
    filters: Seq<EventFilter<Id, Pos>>,
) -> bool {
    &&& filters.len() == kinds.len()
    &&& forall|i: int|
        0 <= i < filters.len() ==> {
            &&& (#[trigger] filters[i]).event_kind@ == kinds[i]@
            &&& filters[i].aggregate_kind is None
            &&& filters[i].aggregate_id is None
            &&& filters[i].after_position is None
        }
}

/// Error of an append with version checking.
#[derive(Debug)]
pub enum AppendError<Pos, StoreError> {
    /// Another writer modified the stream.
    Conflict(ConcurrencyConflict<Pos>),
    /// The store failed.
    Store(StoreError),
}

impl<Pos, StoreError> AppendError<Pos, StoreError> {
    /// The variant for an error of the store.
    pub fn store(err: StoreError) -> (r: Self)
        ensures
            r == AppendError::<Pos, StoreError>::Store(err),
    {
        AppendError::Store(err)
    }

    /// What [`AppendError::message`] may write.
    pub open spec fn describes(&self, text: Seq<char>) -> bool where
        Pos: core::fmt::Debug,
        StoreError: Describe,
     {
        match self {
            AppendError::Conflict(conflict) => conflict.describes(text),
            AppendError::Store(error) => exists|inner: Seq<char>|
                #[trigger] error.describes(inner) && text
                    == "store error: "@ + inner,
        }
    }

    /// The error in words.
    pub fn message(&self) -> (text: String) where
        Pos: core::fmt::Debug,
        StoreError: Describe,

        ensures
            self.describes(text@),
    {
        match self {
            AppendError::Conflict(conflict) => conflict.message(),
            AppendError::Store(error) => joined("store error: ", error.message().as_str()),
        }
    }
}

impl<Pos, StoreError> vstd::std_specs::convert::FromSpecImpl<ConcurrencyConflict<Pos>>
    for AppendError<Pos, StoreError> {
    open spec fn obeys_from_spec() -> bool {
        true
    }

    open spec fn from_spec(conflict: ConcurrencyConflict<Pos>) -> Self {
        AppendError::Conflict(conflict)
    }
}

impl<Pos, StoreError> From<ConcurrencyConflict<Pos>> for AppendError<Pos, StoreError> {
    fn from(conflict: ConcurrencyConflict<Pos>) -> (r: Self) {
        AppendError::Conflict(conflict)
    }
}

/// The outcome of an append whose only failures are those of the store.
pub open spec fn store_failure<Pos, StoreError>(result: Result<(), StoreError>) -> Result<
    (),
    AppendError<Pos, StoreError>,
> {
    match result {
        Ok(done) => Ok(done),
        Err(error) => Err(AppendError::Store(error)),
    }
}

/// Asking the store for the version of a stream, where it does not fail, gives one.
pub open spec fn has_version<S: EventStore>(
    store: S,
    aggregate_kind: Seq<char>,
    aggregate_id: <S::Id as AggregateId>::Key,
) -> bool {
    forall|result: Result<Option<S::Position>, S::Error>| #[trigger]
        store.reports(aggregate_kind, aggregate_id, result) ==> !(result matches Ok(None))
}

/// The persistence layer of event streams.
///
/// A stream holds the events of one aggregate instance, named by the aggregate's kind and
/// identifier. How a store answers is given by the relations `loads`, `appends` and `appends_new`,
/// which an implementation may define, and by `reports`, which it must define. Every store promises
/// that it hands out the codec `used_codec`, that an append without an expected version meets no
/// conflict, and that a stream has a version once events were appended to it.
pub trait EventStore: Sized {
    /// Aggregate identifier type.
    type Id: AggregateId;

    /// Position type, which orders events and serves as the version of a stream.
    type Position: Copy;

    /// Error type of the store.
    type Error;

    /// Serialisation codec.
    type Codec: Codec;

    /// Metadata kept beside each event.
    type Metadata;

    /// The codec that [`EventStore::codec`] hands out.
    spec fn used_codec(&self) -> Self::Codec;

    /// Loading the events that match `filters` may give `result`.
    open spec fn loads(
        &self,
        filters: Seq<EventFilter<Self::Id, Self::Position>>,
        result: Result<
            Seq<StoredEvent<Self::Id, Self::Position, Self::Metadata>>,
            Self::Error,
        >,
    ) -> bool {
        true
    }

    /// Asking for the version of a stream may give `result`.
    spec fn reports(
        &self,
        aggregate_kind: Seq<char>,
        aggregate_id: <Self::Id as AggregateId>::Key,
        result: Result<Option<Self::Position>, Self::Error>,
    ) -> bool;

    /// Appending to a stream of `self` may give `result` and leave the store as `after`.
    open spec fn appends(
        self,
        aggregate_kind: Seq<char>,
        aggregate_id: <Self::Id as AggregateId>::Key,
        expected_version: Option<Self::Position>,
        events: Seq<PersistableEvent<Self::Metadata>>,
        after: Self,
        result: Result<(), AppendError<Self::Position, Self::Error>>,
    ) -> bool {
        true
    }

    /// Starting a stream of `self` may give `result` and leave the store as `after`.
    open spec fn appends_new(
        self,
        aggregate_kind: Seq<char>,
        aggregate_id: <Self::Id as AggregateId>::Key,
        events: Seq<PersistableEvent<Self::Metadata>>,
        after: Self,
        result: Result<(), AppendError<Self::Position, Self::Error>>,
    ) -> bool {
        true
    }

    /// The codec of the store.
    fn codec(&self) -> (r: &Self::Codec)
        ensures
            *r == self.used_codec(),
    ;

    /// The current version (latest position) of a stream, or `None` for a stream without events.
    fn stream_version(&self, aggregate_kind: &str, aggregate_id: &Self::Id) -> (r: Result<
        Option<Self::Position>,
        Self::Error,
    >)
        ensures
            self.reports(aggregate_kind@, aggregate_id.key(), r),
    ;

    /// Begins a transaction that appends to a stream.
    fn begin<C: ConcurrencyStrategy>(
        &mut self,
        aggregate_kind: &str,
        aggregate_id: Self::Id,
        expected_version: Option<Self::Position>,
    ) -> (tx: Transaction<'_, Self, C>)
        ensures
            *tx.store == *old(self),
            *final(self) == *final(tx.store),
            tx.aggregate_kind@ == aggregate_kind@,
            tx.aggregate_id.key() == aggregate_id.key(),
            tx.expected_version == expected_version,
            tx.events@ == Seq::<PersistableEvent<Self::Metadata>>::empty(),
    ;

    /// Appends events, with optional version checking.
    ///
    /// With an expected version, the append fails with a conflict if the stream has another one.
    /// Without, there is no conflict.
    fn append(
        &mut self,
        aggregate_kind: &str,
        aggregate_id: &Self::Id,
        expected_version: Option<Self::Position>,
        events: Vec<PersistableEvent<Self::Metadata>>,
    ) -> (r: Result<(), AppendError<Self::Position, Self::Error>>)
        ensures
            old(self).appends(
                aggregate_kind@,
                aggregate_id.key(),
                expected_version,
                events@,
                *final(self),
                r,
            ),
            expected_version is None ==> !(r matches Err(AppendError::Conflict(_))),
            r is Ok && events@.len() > 0 ==> forall|
                version: Result<Option<Self::Position>, Self::Error>,
            | #[trigger]
                final(self).reports(aggregate_kind@, aggregate_id.key(), version) ==> !(version matches Ok(
                    None,
                )),
    ;

    /// Loads the events that match the filters, merged by position.
    fn load_events(&self, filters: &[EventFilter<Self::Id, Self::Position>]) -> (r: Result<
        Vec<StoredEvent<Self::Id, Self::Position, Self::Metadata>>,
        Self::Error,
    >)
        ensures
            self.loads(filters@, crate::codec::result_view(r)),
    ;

    /// Appends events to a stream that must not have any.
    ///
    /// The append fails with a conflict if the stream has events.
    fn append_expecting_new(
        &mut self,
        aggregate_kind: &str,
        aggregate_id: &Self::Id,
        events: Vec<PersistableEvent<Self::Metadata>>,
    ) -> (r: Result<(), AppendError<Self::Position, Self::Error>>)
        ensures
            old(self).appends_new(aggregate_kind@, aggregate_id.key(), events@, *final(self), r),
            r is Ok && events@.len() > 0 ==> forall|
                version: Result<Option<Self::Position>, Self::Error>,
            | #[trigger]
                final(self).reports(aggregate_kind@, aggregate_id.key(), version) ==> !(version matches Ok(
                    None,
                )),
    ;
}

/// A batch of events for one stream, written on commit.
///
/// Events gather in the transaction. `commit` hands all of them to the store at once; a
/// transaction that is dropped without it leaves the store as it was.
///
/// The strategy `C` decides how `commit` treats other writers.
pub struct Transaction<'a, S: EventStore, C: ConcurrencyStrategy = Unchecked> {
    pub store: &'a mut S,
    pub aggregate_kind: String,
    pub aggregate_id: S::Id,
    pub expected_version: Option<S::Position>,
    pub events: Vec<PersistableEvent<S::Metadata>>,
    pub strategy: PhantomData<C>,
}

impl<'a, S: EventStore, C: ConcurrencyStrategy> Transaction<'a, S, C> {
    /// A transaction without events.
    pub fn new(
        store: &'a mut S,
        aggregate_kind: String,
        aggregate_id: S::Id,
        expected_version: Option<S::Position>,
    ) -> (tx: Self)
        ensures
            *tx.store == *old(store),
            *final(store) == *final(tx.store),
            tx.aggregate_kind == aggregate_kind,
            tx.aggregate_id == aggregate_id,
            tx.expected_version == expected_version,
            tx.events@ == Seq::<PersistableEvent<S::Metadata>>::empty(),
    {
        Transaction {
            store,
            aggregate_kind,
            aggregate_id,
            expected_version,
            events: Vec::new(),
            strategy: PhantomData,
        }
    }

    /// Adds an event to the batch, written down by the store's codec.
    ///
    /// Where the codec fails, the batch stays as it was.
    pub fn append<E>(&mut self, event: E, metadata: S::Metadata) -> (r: Result<
        (),
        <S::Codec as Codec>::Error,
    >) where E: SerializableEvent<S::Codec>
        ensures
            match r {
                Ok(()) => {
                    let added = final(self).events@.last();
                    &&& final(self).events@ == old(self).events@.push(added)
                    &&& event.persists(
                        old(self).store.used_codec(),
                        Ok((added.kind@, added.data@)),
                    )
                    &&& added.metadata == metadata
                },
                Err(error) => {
                    &&& final(self).events@ == old(self).events@
                    &&& event.persists(old(self).store.used_codec(), Err(error))
                },
            },
            *final(self).store == *old(self).store,
            *final(final(self).store) == *final(old(self).store),
            final(self).aggregate_kind == old(self).aggregate_kind,
            final(self).aggregate_id == old(self).aggregate_id,
            final(self).expected_version == old(self).expected_version,
    {
        let written = event.to_persistable(self.store.codec(), metadata);
        match written {
            Ok(persistable) => {
                self.events.push(persistable);
                Ok(())
            },
            Err(error) => Err(error),
        }
    }
}

impl<'a, S: EventStore> Transaction<'a, S, Unchecked> {
    /// Writes the batch without version checking.
    pub fn commit(self) -> (r: Result<(), S::Error>)
        ensures
            old(self.store).appends(
                self.aggregate_kind@,
                self.aggregate_id.key(),
                None,
                self.events@,
                *final(self.store),
                store_failure(r),
            ),
            r is Ok && self.events@.len() > 0 ==> has_version(
                *final(self.store),
                self.aggregate_kind@,
                self.aggregate_id.key(),
            ),
    {
        let outcome = self.store.append(
            self.aggregate_kind.as_str(),
            &self.aggregate_id,
            None,
            self.events,
        );
        match outcome {
            Ok(done) => Ok(done),
            Err(AppendError::Store(error)) => Err(error),
            Err(AppendError::Conflict(_)) => vstd::pervasive::unreached(),
        }
    }
}

impl<'a, S: EventStore> Transaction<'a, S, Optimistic> {
    /// `commit` of this transaction may give `result` and leave the store as `after`.
    ///
    /// Without an expected version the stream must be new.
    pub open spec fn commits(
        before: S,
        aggregate_kind: Seq<char>,
        aggregate_id: <S::Id as AggregateId>::Key,
        expected_version: Option<S::Position>,
        events: Seq<PersistableEvent<S::Metadata>>,
        after: S,
        result: Result<(), AppendError<S::Position, S::Error>>,
    ) -> bool {
        match expected_version {
            Some(version) => before.appends(
                aggregate_kind,
                aggregate_id,
                Some(version),
                events,
                after,
                result,
            ),
            None => before.appends_new(aggregate_kind, aggregate_id, events, after, result),
        }
    }

    /// Writes the batch, unless the stream version is no longer the expected one.
    ///
    /// Without an expected version the stream must be new.
    pub fn commit(self) -> (r: Result<(), AppendError<S::Position, S::Error>>)
        ensures
            Self::commits(
                *old(self.store),
                self.aggregate_kind@,
                self.aggregate_id.key(),
                self.expected_version,
                self.events@,
                *final(self.store),
                r,
            ),
            r is Ok && self.events@.len() > 0 ==> has_version(
                *final(self.store),
                self.aggregate_kind@,
                self.aggregate_id.key(),
            ),
    {
        match self.expected_version {
            Some(version) => self.store.append(
                self.aggregate_kind.as_str(),
                &self.aggregate_id,
                Some(version),
                self.events,
            ),
            None => self.store.append_expecting_new(
                self.aggregate_kind.as_str(),
                &self.aggregate_id,
                self.events,
            ),
        }
    }
}

} // verus!
