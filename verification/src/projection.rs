//! Projections: read models that are rebuilt from stored events.

use vstd::prelude::*;
use vstd::string::*;
use std::marker::PhantomData;
use crate::aggregate::Aggregate;
use crate::codec::{decodes, Codec, EventDecodeError, ProjectionEvent};
use crate::event::DomainEvent;
use crate::id::AggregateId;
use crate::repository::aggregate_event_filters;
use crate::store::{instance_filters, kind_filters, EventFilter, EventStore, StoredEvent};
use crate::text::{joined, Describe};

verus! {

/// Errors of rebuilding a projection or an aggregate.
#[derive(Debug)]
pub enum ProjectionError<StoreError, CodecError> {
    /// The store failed to load events.
    Store(StoreError),
    /// The data of an event could not be decoded.
    Codec { event_kind: String, error: CodecError },
    /// An event could not be read back as one of the expected kinds.
    EventDecode(EventDecodeError<CodecError>),
    /// The data of a snapshot could not be decoded.
    SnapshotDeserialize(CodecError),
}

/// The error that caused a [`ProjectionError`].
#[derive(Debug)]
pub enum ProjectionErrorSource<'a, StoreError, CodecError> {
    Store(&'a StoreError),
    Codec(&'a CodecError),
    EventDecode(&'a EventDecodeError<CodecError>),
}

impl<StoreError, CodecError> ProjectionError<StoreError, CodecError> {
    /// What [`ProjectionError::message`] may write.
    pub open spec fn describes(&self, text: Seq<char>) -> bool where
        StoreError: Describe,
        CodecError: Describe,
     {
        match self {
            ProjectionError::Store(error) => exists|inner: Seq<char>| #[trigger]
                error.describes(inner) && text == "failed to load events: "@ + inner,
            ProjectionError::Codec { event_kind, error } => exists|inner: Seq<char>| #[trigger]
                error.describes(inner) && text == "failed to decode event kind `"@
                    + event_kind@ + "`: "@ + inner,
            ProjectionError::EventDecode(error) => exists|inner: Seq<char>| #[trigger]
                error.describes(inner) && text == "failed to decode event: "@ + inner,
            ProjectionError::SnapshotDeserialize(error) => exists|inner: Seq<char>| #[trigger]
                error.describes(inner) && text == "failed to deserialize snapshot: "@ + inner,
        }
    }

    /// The error in words.
    pub fn message(&self) -> (text: String) where
        StoreError: Describe,
        CodecError: Describe,

        ensures
            self.describes(text@),
    {
        match self {
            ProjectionError::Store(error) => joined(
                "failed to load events: ",
                error.message().as_str(),
            ),
            ProjectionError::Codec { event_kind, error } => {
                let mut text = String::from_str("failed to decode event kind `");
                text.append(event_kind.as_str());
                text.append("`: ");
                let inner = error.message();
                text.append(inner.as_str());
                text
            },
            ProjectionError::EventDecode(error) => joined(
                "failed to decode event: ",
                error.message().as_str(),
            ),
            ProjectionError::SnapshotDeserialize(error) => joined(
                "failed to deserialize snapshot: ",
                error.message().as_str(),
            ),
        }
    }

    /// The error that caused this one.
    pub fn source(&self) -> (r: Option<ProjectionErrorSource<'_, StoreError, CodecError>>)
        ensures
            r == Some(
                match self {
                    ProjectionError::Store(error) => ProjectionErrorSource::Store(error),
                    ProjectionError::Codec { event_kind: _, error } => ProjectionErrorSource::Codec(
                        error,
                    ),
                    ProjectionError::EventDecode(error) => ProjectionErrorSource::EventDecode(error),
                    ProjectionError::SnapshotDeserialize(error) => ProjectionErrorSource::Codec(
                        error,
                    ),
                },
            ),
    {
        let source = match self {
            ProjectionError::Store(error) => ProjectionErrorSource::Store(error),
            ProjectionError::Codec { event_kind: _, error } => ProjectionErrorSource::Codec(error),
            ProjectionError::EventDecode(error) => ProjectionErrorSource::EventDecode(error),
            ProjectionError::SnapshotDeserialize(error) => ProjectionErrorSource::Codec(error),
        };
        Some(source)
    }
}

/// A read model that can be built from stored events.
///
/// Its handlers for events are implementations of [`ApplyProjection`].
pub trait Projection: Default + Sized {
    /// Metadata that the handlers expect.
    type Metadata;
}

/// Applies an event to a projection, with the identifier of the aggregate instance that the event
/// belongs to and the metadata that was stored with it.
pub trait ApplyProjection<Id, E, M>: Sized {
    /// Applying `event` to `self` may give `after`.
    open spec fn projects(self, aggregate_id: Id, event: E, metadata: M, after: Self) -> bool {
        true
    }

    /// Applies an event to the projection.
    fn apply_projection(&mut self, aggregate_id: &Id, event: &E, metadata: &M)
        ensures
            old(self).projects(*aggregate_id, *event, *metadata, *final(self)),
    ;
}

/// Why the handler of an event failed.
#[derive(Debug)]
pub enum HandlerError<CodecError> {
    Codec(CodecError),
    EventDecode(EventDecodeError<CodecError>),
}

/// `converted` may come of cloning the metadata and converting the clone.
pub open spec fn converts<M: Clone + Into<N>, N>(metadata: M, converted: N) -> bool {
    exists|copy: M|
        cloned(metadata, copy) && #[trigger] call_ensures(Into::<N>::into, (copy,), converted)
}

/// Clones the metadata and converts the clone.
fn convert<M: Clone + Into<N>, N>(metadata: &M) -> (converted: N)
    ensures
        converts(*metadata, converted),
{
    metadata.clone().into()
}

/// Applying an event with converted metadata may lead from one projection to the other.
pub open spec fn takes<S: EventStore, P: Projection, E>(
    aggregate_id: S::Id,
    event: E,
    metadata: S::Metadata,
    before: P,
    after: P,
) -> bool where
    P: ApplyProjection<S::Id, E, P::Metadata>,
    S::Metadata: Clone + Into<P::Metadata>,
 {
    exists|converted: P::Metadata| #[trigger]
        converts(metadata, converted) && before.projects(aggregate_id, event, converted, after)
}

/// The kind is one of the given ones.
pub open spec fn among(kinds: Seq<&str>, kind: Seq<char>) -> bool {
    exists|i: int| 0 <= i < kinds.len() && (#[trigger] kinds[i])@ == kind
}

/// The first kinds, with the next one added.
proof fn lemma_among_next(kinds: Seq<&str>, i: int)
    requires
        0 <= i < kinds.len(),
    ensures
        kinds.take(i + 1) == kinds.take(i).push(kinds[i]),
        forall|kind: Seq<char>| #[trigger]
            among(kinds.take(i + 1), kind) <==> among(kinds.take(i), kind) || kind == kinds[i]@,
{
    assert(kinds.take(i + 1) =~= kinds.take(i).push(kinds[i]));
    assert(kinds.take(i + 1)[i] == kinds[i]);
    assert forall|kind: Seq<char>| #[trigger] among(kinds.take(i + 1), kind) <==> among(
        kinds.take(i),
        kind,
    ) || kind == kinds[i]@ by {
        if among(kinds.take(i), kind) {
            let k = choose|k: int| 0 <= k < i && (#[trigger] kinds.take(i)[k])@ == kind;
            assert(kinds.take(i + 1)[k]@ == kind);
        }
        if among(kinds.take(i + 1), kind) {
            let k = choose|k: int| 0 <= k < i + 1 && (#[trigger] kinds.take(i + 1)[k])@ == kind;
            if k < i {
                assert(kinds.take(i)[k]@ == kind);
            }
        }
    }
}

/// Decoding stored data as an event of type `E` and applying it may give `result` and lead from
/// one projection to the other.
pub open spec fn decodes_and_applies<S: EventStore, P: Projection, E>(
    codec: S::Codec,
    aggregate_id: S::Id,
    data: Seq<u8>,
    metadata: S::Metadata,
    before: P,
    after: P,
    result: Result<(), HandlerError<<S::Codec as Codec>::Error>>,
) -> bool where
    E: serde::de::DeserializeOwned,
    P: ApplyProjection<S::Id, E, P::Metadata>,
    S::Metadata: Clone + Into<P::Metadata>,
 {
    exists|decoded: Result<E, <S::Codec as Codec>::Error>|
        {
            &&& #[trigger] decodes(codec, data, decoded)
            &&& match decoded {
                Ok(event) => result is Ok && takes::<S, P, E>(
                    aggregate_id,
                    event,
                    metadata,
                    before,
                    after,
                ),
                Err(error) => {
                    &&& after == before
                    &&& result matches Err(HandlerError::Codec(e)) && e == error
                },
            }
        }
}

/// Reading stored data of the given kind back as an event of the sum type `E` and applying it may
/// give `result` and lead from one projection to the other.
pub open spec fn reads_and_applies<S: EventStore, P: Projection, E>(
    codec: S::Codec,
    kind: Seq<char>,
    aggregate_id: S::Id,
    data: Seq<u8>,
    metadata: S::Metadata,
    before: P,
    after: P,
    result: Result<(), HandlerError<<S::Codec as Codec>::Error>>,
) -> bool where
    E: ProjectionEvent<S::Codec>,
    P: ApplyProjection<S::Id, E, P::Metadata>,
    S::Metadata: Clone + Into<P::Metadata>,
 {
    exists|read: Result<E, EventDecodeError<<S::Codec as Codec>::Error>>|
        {
            &&& #[trigger] E::restores(kind, data, codec, read)
            &&& match read {
                Ok(event) => result is Ok && takes::<S, P, E>(
                    aggregate_id,
                    event,
                    metadata,
                    before,
                    after,
                ),
                Err(error) => {
                    &&& after == before
                    &&& result matches Err(HandlerError::EventDecode(e)) && e == error
                },
            }
        }
}

/// Decoding stored data with a function and applying the event may give `result` and lead from one
/// projection to the other.
spec fn applies_decoded<S, P, E, F>(
    decode: F,
    codec: S::Codec,
    aggregate_id: S::Id,
    data: Seq<u8>,
    metadata: S::Metadata,
    before: P,
    after: P,
    result: Result<(), HandlerError<<S::Codec as Codec>::Error>>,
) -> bool where
    P: Projection + ApplyProjection<S::Id, E, P::Metadata>,
    S: EventStore,
    S::Metadata: Clone + Into<P::Metadata>,
    F: Fn(&S::Codec, &[u8]) -> Result<E, HandlerError<<S::Codec as Codec>::Error>>,
 {
    exists|bytes: &[u8], decoded: Result<E, HandlerError<<S::Codec as Codec>::Error>>|
        {
            &&& bytes@ == data
            &&& #[trigger] call_ensures(decode, (&codec, bytes), decoded)
            &&& match decoded {
                Ok(event) => result is Ok && takes::<S, P, E>(
                    aggregate_id,
                    event,
                    metadata,
                    before,
                    after,
                ),
                Err(error) => after == before && (result matches Err(e) && e == error),
            }
        }
}

/// Decodes an event of one type.
fn decode_event<C: Codec, E: serde::de::DeserializeOwned>(codec: &C, data: &[u8]) -> (r: Result<
    E,
    HandlerError<C::Error>,
>)
    ensures
        match r {
            Ok(event) => decodes(*codec, data@, Ok(event)),
            Err(HandlerError::Codec(error)) => decodes::<C, E>(*codec, data@, Err(error)),
            Err(HandlerError::EventDecode(_)) => false,
        },
{
    let decoded: Result<E, C::Error> = codec.deserialize(data);
    assert(decodes(*codec, data@, decoded));
    match decoded {
        Ok(event) => Ok(event),
        Err(error) => Err(HandlerError::Codec(error)),
    }
}

/// Reads an event of a sum type back.
fn read_event<C: Codec, E: ProjectionEvent<C>>(kind: &str, codec: &C, data: &[u8]) -> (r: Result<
    E,
    HandlerError<C::Error>,
>)
    ensures
        read_outcome(kind@, *codec, data@, r),
{
    match E::from_stored(kind, data, codec) {
        Ok(event) => Ok(event),
        Err(error) => Err(HandlerError::EventDecode(error)),
    }
}

/// Reading an event of a sum type back may give `result`.
spec fn read_outcome<C: Codec, E: ProjectionEvent<C>>(
    kind: Seq<char>,
    codec: C,
    data: Seq<u8>,
    result: Result<E, HandlerError<C::Error>>,
) -> bool {
    match result {
        Ok(event) => E::restores(kind, data, codec, Ok(event)),
        Err(HandlerError::EventDecode(error)) => E::restores(kind, data, codec, Err(error)),
        Err(HandlerError::Codec(_)) => false,
    }
}

/// The filters that load the events of the given kinds, of all aggregates.
fn kind_event_filters<Id, Pos>(kinds: &'static [&'static str]) -> (r: Vec<EventFilter<Id, Pos>>)
    ensures
        kind_filters(kinds@, r@),
{
    let mut filters: Vec<EventFilter<Id, Pos>> = Vec::new();
    for i in 0..kinds.len()
        invariant
            kind_filters(kinds@.take(i as int), filters@),
    {
        filters.push(EventFilter::for_event(kinds[i]));
    }
    assert(kinds@.take(kinds@.len() as int) =~= kinds@);
    filters
}

/// Decodes stored data and applies the event to a projection.
trait EventHandler<P: Projection, S: EventStore> {
    /// The handler can be called.
    spec fn ready(&self) -> bool;

    /// Handling stored data may give `result` and lead from one projection to the other.
    spec fn responds(
        &self,
        codec: S::Codec,
        aggregate_id: S::Id,
        data: Seq<u8>,
        metadata: S::Metadata,
        before: P,
        after: P,
        result: Result<(), HandlerError<<S::Codec as Codec>::Error>>,
    ) -> bool;

    /// Handles stored data.
    fn handle(
        &self,
        projection: &mut P,
        aggregate_id: &S::Id,
        data: &[u8],
        metadata: &S::Metadata,
        codec: &S::Codec,
    ) -> (r: Result<(), HandlerError<<S::Codec as Codec>::Error>>)
        requires
            self.ready(),
        ensures
            self.responds(
                *codec,
                *aggregate_id,
                data@,
                *metadata,
                *old(projection),
                *final(projection),
                r,
            ),
    ;
}

/// Handler of an event type, made of a function that decodes it.
struct DecodingHandler<E, F> {
    decode: F,
    event: PhantomData<E>,
}

impl<P, S, E, F> EventHandler<P, S> for DecodingHandler<E, F> where
    P: Projection + ApplyProjection<S::Id, E, P::Metadata>,
    S: EventStore,
    S::Metadata: Clone + Into<P::Metadata>,
    F: Fn(&S::Codec, &[u8]) -> Result<E, HandlerError<<S::Codec as Codec>::Error>>,
 {
    spec fn ready(&self) -> bool {
        forall|codec: &S::Codec, data: &[u8]| call_requires(self.decode, (codec, data))
    }

    spec fn responds(
        &self,
        codec: S::Codec,
        aggregate_id: S::Id,
        data: Seq<u8>,
        metadata: S::Metadata,
        before: P,
        after: P,
        result: Result<(), HandlerError<<S::Codec as Codec>::Error>>,
    ) -> bool {
        applies_decoded::<S, P, E, F>(
            self.decode,
            codec,
            aggregate_id,
            data,
            metadata,
            before,
            after,
            result,
        )
    }

    fn handle(
        &self,
        projection: &mut P,
        aggregate_id: &S::Id,
        data: &[u8],
        metadata: &S::Metadata,
        codec: &S::Codec,
    ) -> (r: Result<(), HandlerError<<S::Codec as Codec>::Error>>) {
        match (self.decode)(codec, data) {
            Ok(event) => {
                let converted: P::Metadata = convert(metadata);
                projection.apply_projection(aggregate_id, &event, &converted);
                Ok(())
            },
            Err(error) => Err(error),
        }
    }
}

/// An event kind with what is registered for it.
struct Entry<T> {
    kind: String,
    handler: T,
}

impl<T> Entry<T> {
    fn new(kind: String, handler: T) -> (r: Self)
        ensures
            r.kind == kind,
            r.handler == handler,
    {
        Entry { kind, handler }
    }
}

/// The handler that responds to events of a kind: the last one registered for it.
spec fn handler_for<T>(handlers: Seq<Entry<T>>, kind: Seq<char>) -> Option<T>
    decreases handlers.len(),
{
    if handlers.len() == 0 {
        None
    } else if handlers.last().kind@ == kind {
        Some(handlers.last().handler)
    } else {
        handler_for(handlers.drop_last(), kind)
    }
}

/// Collects the events that a projection is built from, and builds it.
///
/// Each registration adds filters by which events are loaded, and handlers that apply them. A
/// later registration for an event kind replaces an earlier handler for it.
#[verifier::reject_recursive_types(S)]
#[verifier::reject_recursive_types(P)]
pub struct ProjectionBuilder<'a, S, P> where S: EventStore, P: Projection {
    store: &'a S,
    handlers: Vec<Entry<Box<dyn EventHandler<P, S> + 'a>>>,
    filters: Vec<EventFilter<S::Id, S::Position>>,
}

impl<'a, S, P> ProjectionBuilder<'a, S, P> where S: EventStore, P: Projection {
    #[verifier::type_invariant]
    spec fn handlers_ready(&self) -> bool {
        forall|i: int| 0 <= i < self.handlers@.len() ==> (#[trigger] self.handlers@[i]).handler.ready()
    }

    /// The store that events are loaded from.
    pub closed spec fn store(&self) -> S {
        *self.store
    }

    /// The filters by which events are loaded.
    pub closed spec fn filters(&self) -> Seq<EventFilter<S::Id, S::Position>> {
        self.filters@
    }

    /// Handling a stored event may give `result` and lead from one projection to the other.
    pub closed spec fn responds(
        &self,
        stored: StoredEvent<S::Id, S::Position, S::Metadata>,
        before: P,
        after: P,
        result: Result<(), HandlerError<<S::Codec as Codec>::Error>>,
    ) -> bool {
        match handler_for(self.handlers@, stored.kind@) {
            Some(handler) => handler.responds(
                self.store.used_codec(),
                stored.aggregate_id,
                stored.data@,
                stored.metadata,
                before,
                after,
                result,
            ),
            None => after == before && result is Ok,
        }
    }

    /// A builder without registrations.
    pub(crate) fn new(store: &'a S) -> (r: Self)
        ensures
            r.store() == *store,
            r.filters() == Seq::<EventFilter<S::Id, S::Position>>::empty(),
            forall|
                stored: StoredEvent<S::Id, S::Position, S::Metadata>,
                before: P,
                after: P,
                result: Result<(), HandlerError<<S::Codec as Codec>::Error>>,
            | #[trigger]
                r.responds(stored, before, after, result) == (after == before && result is Ok),
    {
        ProjectionBuilder { store, handlers: Vec::new(), filters: Vec::new() }
    }

    /// Adds a filter, and registers a function that decodes the events of a kind.
    fn registered<E, F>(
        self,
        kind: &str,
        filter: EventFilter<S::Id, S::Position>,
        decode: F,
    ) -> (r: Self) where
        E: 'a,
        P: ApplyProjection<S::Id, E, P::Metadata>,
        S::Metadata: Clone + Into<P::Metadata>,
        F: Fn(&S::Codec, &[u8]) -> Result<E, HandlerError<<S::Codec as Codec>::Error>> + 'a,

        requires
            forall|codec: &S::Codec, data: &[u8]| call_requires(decode, (codec, data)),
        ensures
            r.store() == self.store(),
            r.filters() == self.filters().push(filter),
            forall|
                stored: StoredEvent<S::Id, S::Position, S::Metadata>,
                before: P,
                after: P,
                result: Result<(), HandlerError<<S::Codec as Codec>::Error>>,
            | #[trigger]
                r.responds(stored, before, after, result) ==> if stored.kind@ == kind@ {
                    applies_decoded::<S, P, E, F>(
                        decode,
                        self.store().used_codec(),
                        stored.aggregate_id,
                        stored.data@,
                        stored.metadata,
                        before,
                        after,
                        result,
                    )
                } else {
                    self.responds(stored, before, after, result)
                },
    {
        proof {
            use_type_invariant(&self);
        }
        let ghost earlier = self.handlers@;
        let handler: Box<dyn EventHandler<P, S> + 'a> = Box::new(
            DecodingHandler { decode, event: PhantomData::<E> },
        );
        let entry = Entry::new(kind.to_string(), handler);
        let mut handlers = self.handlers;
        handlers.push(entry);
        let mut filters = self.filters;
        filters.push(filter);
        assert(handlers@.drop_last() =~= earlier);
        assert(handlers@.last().handler.ready());
        ProjectionBuilder { store: self.store, handlers, filters }
    }

    /// Registers an event type, of all aggregates.
    #[must_use]
    pub fn event<E>(self) -> (r: Self) where
        E: DomainEvent + serde::de::DeserializeOwned + 'a,
        P: ApplyProjection<S::Id, E, P::Metadata>,
        S::Metadata: Clone + Into<P::Metadata>,

        ensures
            r.store() == self.store(),
            r.filters() == self.filters().push(r.filters().last()),
            r.filters().last().event_kind@ == E::KIND@,
            r.filters().last().aggregate_kind is None,
            r.filters().last().aggregate_id is None,
            r.filters().last().after_position is None,
            forall|
                stored: StoredEvent<S::Id, S::Position, S::Metadata>,
                before: P,
                after: P,
                result: Result<(), HandlerError<<S::Codec as Codec>::Error>>,
            | #[trigger]
                r.responds(stored, before, after, result) ==> if stored.kind@ == E::KIND@ {
                    decodes_and_applies::<S, P, E>(
                        self.store().used_codec(),
                        stored.aggregate_id,
                        stored.data@,
                        stored.metadata,
                        before,
                        after,
                        result,
                    )
                } else {
                    self.responds(stored, before, after, result)
                },
    {
        let filter = EventFilter::for_event(E::KIND);
        self.registered(E::KIND, filter, decode_event::<S::Codec, E>)
    }

    /// Registers an event type, of one aggregate instance.
    #[must_use]
    pub fn event_for<A, E>(self, aggregate_id: &S::Id) -> (r: Self) where
        A: Aggregate<Id = S::Id>,
        E: DomainEvent + serde::de::DeserializeOwned + 'a,
        P: ApplyProjection<S::Id, E, P::Metadata>,
        S::Metadata: Clone + Into<P::Metadata>,

        ensures
            r.store() == self.store(),
            r.filters() == self.filters().push(r.filters().last()),
            r.filters().last().event_kind@ == E::KIND@,
            r.filters().last().aggregate_kind matches Some(kind) && kind@ == A::KIND@,
            r.filters().last().aggregate_id matches Some(id) && id.key() == aggregate_id.key(),
            r.filters().last().after_position is None,
            forall|
                stored: StoredEvent<S::Id, S::Position, S::Metadata>,
                before: P,
                after: P,
                result: Result<(), HandlerError<<S::Codec as Codec>::Error>>,
            | #[trigger]
                r.responds(stored, before, after, result) ==> if stored.kind@ == E::KIND@ {
                    decodes_and_applies::<S, P, E>(
                        self.store().used_codec(),
                        stored.aggregate_id,
                        stored.data@,
                        stored.metadata,
                        before,
                        after,
                        result,
                    )
                } else {
                    self.responds(stored, before, after, result)
                },
    {
        let filter = EventFilter::for_instance(E::KIND, A::KIND, aggregate_id.duplicate());
        self.registered(E::KIND, filter, decode_event::<S::Codec, E>)
    }

    /// Registers one kind of a sum type.
    fn registered_kind<E>(
        self,
        kind: &'static str,
        filter: EventFilter<S::Id, S::Position>,
    ) -> (r: Self) where
        E: ProjectionEvent<S::Codec> + 'a,
        P: ApplyProjection<S::Id, E, P::Metadata>,
        S::Metadata: Clone + Into<P::Metadata>,

        ensures
            r.store() == self.store(),
            r.filters() == self.filters().push(filter),
            forall|
                stored: StoredEvent<S::Id, S::Position, S::Metadata>,
                before: P,
                after: P,
                result: Result<(), HandlerError<<S::Codec as Codec>::Error>>,
            | #[trigger]
                r.responds(stored, before, after, result) ==> if stored.kind@ == kind@ {
                    reads_and_applies::<S, P, E>(
                        self.store().used_codec(),
                        stored.kind@,
                        stored.aggregate_id,
                        stored.data@,
                        stored.metadata,
                        before,
                        after,
                        result,
                    )
                } else {
                    self.responds(stored, before, after, result)
                },
    {
        let decode = move |codec: &S::Codec, data: &[u8]|
            -> (r: Result<E, HandlerError<<S::Codec as Codec>::Error>>)
            ensures
                read_outcome(kind@, *codec, data@, r),
            { read_event(kind, codec, data) };
        self.registered(kind, filter, decode)
    }

    /// Registers kinds of a sum type, each with a filter.
    fn registered_kinds<E>(
        self,
        kinds: &'static [&'static str],
        filters: Vec<EventFilter<S::Id, S::Position>>,
    ) -> (r: Self) where
        E: ProjectionEvent<S::Codec> + 'a,
        P: ApplyProjection<S::Id, E, P::Metadata>,
        S::Metadata: Clone + Into<P::Metadata>,

        requires
            filters@.len() == kinds@.len(),
        ensures
            r.store() == self.store(),
            r.filters() == self.filters() + filters@,
            forall|
                stored: StoredEvent<S::Id, S::Position, S::Metadata>,
                before: P,
                after: P,
                result: Result<(), HandlerError<<S::Codec as Codec>::Error>>,
            | #[trigger]
                r.responds(stored, before, after, result) ==> if among(kinds@, stored.kind@) {
                    reads_and_applies::<S, P, E>(
                        self.store().used_codec(),
                        stored.kind@,
                        stored.aggregate_id,
                        stored.data@,
                        stored.metadata,
                        before,
                        after,
                        result,
                    )
                } else {
                    self.responds(stored, before, after, result)
                },
    {
        let ghost start = self;
        let mut builder = self;
        let mut i: usize = 0;
        assert(start.filters() + filters@.take(0) =~= start.filters());
        for filter in it: filters
            invariant
                it.seq() == filters@,
                filters@.len() == kinds@.len(),
                i == it.index(),
                builder.store() == start.store(),
                builder.filters() == start.filters() + filters@.take(it.index()),
                forall|
                    stored: StoredEvent<S::Id, S::Position, S::Metadata>,
                    before: P,
                    after: P,
                    result: Result<(), HandlerError<<S::Codec as Codec>::Error>>,
                | #[trigger]
                    builder.responds(stored, before, after, result) ==> if among(
                        kinds@.take(it.index()),
                        stored.kind@,
                    ) {
                        reads_and_applies::<S, P, E>(
                            start.store().used_codec(),
                            stored.kind@,
                            stored.aggregate_id,
                            stored.data@,
                            stored.metadata,
                            before,
                            after,
                            result,
                        )
                    } else {
                        start.responds(stored, before, after, result)
                    },
        {
            let ghost n = it.index();
            proof {
                lemma_among_next(kinds@, n);
            }
            builder = builder.registered_kind::<E>(kinds[i], filter);
            i = i + 1;
            assert(builder.filters() =~= start.filters() + filters@.take(n + 1));
        }
        assert(filters@.take(filters@.len() as int) =~= filters@);
        assert(kinds@.take(kinds@.len() as int) =~= kinds@);
        builder
    }

    /// Registers all events of a sum type, of all aggregates.
    #[must_use]
    pub fn events<E>(self) -> (r: Self) where
        E: ProjectionEvent<S::Codec> + 'a,
        P: ApplyProjection<S::Id, E, P::Metadata>,
        S::Metadata: Clone + Into<P::Metadata>,

        ensures
            r.store() == self.store(),
            r.filters().take(self.filters().len() as int) == self.filters(),
            kind_filters(E::EVENT_KINDS@, r.filters().skip(self.filters().len() as int)),
            forall|
                stored: StoredEvent<S::Id, S::Position, S::Metadata>,
                before: P,
                after: P,
                result: Result<(), HandlerError<<S::Codec as Codec>::Error>>,
            | #[trigger]
                r.responds(stored, before, after, result) ==> if among(
                    E::EVENT_KINDS@,
                    stored.kind@,
                ) {
                    reads_and_applies::<S, P, E>(
                        self.store().used_codec(),
                        stored.kind@,
                        stored.aggregate_id,
                        stored.data@,
                        stored.metadata,
                        before,
                        after,
                        result,
                    )
                } else {
                    self.responds(stored, before, after, result)
                },
    {
        let filters = kind_event_filters(E::EVENT_KINDS);
        let r = self.registered_kinds::<E>(E::EVENT_KINDS, filters);
        assert(r.filters().take(self.filters().len() as int) =~= self.filters());
        assert(r.filters().skip(self.filters().len() as int) =~= filters@);
        r
    }

    /// Registers all events of one aggregate instance.
    #[must_use]
    pub fn events_for<A>(self, aggregate_id: &S::Id) -> (r: Self) where
        A: Aggregate<Id = S::Id>,
        A::Event: ProjectionEvent<S::Codec> + 'a,
        P: ApplyProjection<S::Id, A::Event, P::Metadata>,
        S::Metadata: Clone + Into<P::Metadata>,

        ensures
            r.store() == self.store(),
            r.filters().take(self.filters().len() as int) == self.filters(),
            instance_filters(
                A::Event::EVENT_KINDS@,
                A::KIND@,
                aggregate_id.key(),
                None,
                r.filters().skip(self.filters().len() as int),
            ),
            forall|
                stored: StoredEvent<S::Id, S::Position, S::Metadata>,
                before: P,
                after: P,
                result: Result<(), HandlerError<<S::Codec as Codec>::Error>>,
            | #[trigger]
                r.responds(stored, before, after, result) ==> if among(
                    A::Event::EVENT_KINDS@,
                    stored.kind@,
                ) {
                    reads_and_applies::<S, P, A::Event>(
                        self.store().used_codec(),
                        stored.kind@,
                        stored.aggregate_id,
                        stored.data@,
                        stored.metadata,
                        before,
                        after,
                        result,
                    )
                } else {
                    self.responds(stored, before, after, result)
                },
    {
        let filters = aggregate_event_filters::<S, A::Event>(A::KIND, aggregate_id, None);
        let r = self.registered_kinds::<A::Event>(A::Event::EVENT_KINDS, filters);
        assert(r.filters().take(self.filters().len() as int) =~= self.filters());
        assert(r.filters().skip(self.filters().len() as int) =~= filters@);
        r
    }

    /// Handling the stored events in turn may lead from one projection to the other.
    pub open spec fn reaches(
        &self,
        from: P,
        stored: Seq<StoredEvent<S::Id, S::Position, S::Metadata>>,
        to: P,
    ) -> bool
        decreases stored.len(),
    {
        if stored.len() == 0 {
            to == from
        } else {
            exists|middle: P|
                self.reaches(from, stored.drop_last(), middle) && #[trigger] self.responds(
                    stored.last(),
                    middle,
                    to,
                    Ok(()),
                )
        }
    }

    /// Handling the stored events in turn may fail at one of them, of the given kind.
    pub open spec fn fails(
        &self,
        from: P,
        stored: Seq<StoredEvent<S::Id, S::Position, S::Metadata>>,
        event_kind: Seq<char>,
        error: HandlerError<<S::Codec as Codec>::Error>,
    ) -> bool {
        exists|n: int, middle: P, after: P|
            {
                &&& 0 <= n < stored.len()
                &&& self.reaches(from, stored.take(n), middle)
                &&& #[trigger] self.responds(stored[n], middle, after, Err(error))
                &&& stored[n].kind@ == event_kind
            }
    }

    /// Building the projection may give `result`.
    ///
    /// The events are loaded by the registered filters and handled in turn, on the projection that
    /// `Default` gives. An event of a kind that is not registered is passed over.
    pub open spec fn builds(
        &self,
        result: Result<P, ProjectionError<S::Error, <S::Codec as Codec>::Error>>,
    ) -> bool {
        match result {
            Err(ProjectionError::Store(error)) => self.store().loads(self.filters(), Err(error)),
            Err(ProjectionError::SnapshotDeserialize(_)) => false,
            _ => exists|start: P, stored: Seq<StoredEvent<S::Id, S::Position, S::Metadata>>|
                {
                    &&& #[trigger] call_ensures(P::default, (), start)
                    &&& #[trigger] self.store().loads(self.filters(), Ok(stored))
                    &&& match result {
                        Ok(projection) => self.reaches(start, stored, projection),
                        Err(ProjectionError::Codec { event_kind, error }) => self.fails(
                            start,
                            stored,
                            event_kind@,
                            HandlerError::Codec(error),
                        ),
                        Err(ProjectionError::EventDecode(error)) => exists|kind: Seq<char>|
                            #[trigger] self.fails(
                                start,
                                stored,
                                kind,
                                HandlerError::EventDecode(error),
                            ),
                        Err(_) => false,
                    }
                },
        }
    }

    /// Handles a stored event: passes it to the handler of its kind, if there is one.
    fn respond(
        &self,
        projection: &mut P,
        stored: &StoredEvent<S::Id, S::Position, S::Metadata>,
    ) -> (r: Result<(), HandlerError<<S::Codec as Codec>::Error>>)
        ensures
            self.responds(*stored, *old(projection), *final(projection), r),
    {
        proof {
            use_type_invariant(self);
        }
        let mut n: usize = self.handlers.len();
        assert(self.handlers@.take(n as int) =~= self.handlers@);
        while n > 0
            invariant
                n <= self.handlers@.len(),
                self.handlers_ready(),
                *projection == *old(projection),
                handler_for(self.handlers@, stored.kind@) == handler_for(
                    self.handlers@.take(n as int),
                    stored.kind@,
                ),
            decreases n,
        {
            n = n - 1;
            assert(self.handlers@.take(n + 1).drop_last() =~= self.handlers@.take(n as int));
            let entry = &self.handlers[n];
            if entry.kind == stored.kind {
                return entry.handler.handle(
                    projection,
                    &stored.aggregate_id,
                    stored.data.as_slice(),
                    &stored.metadata,
                    self.store.codec(),
                );
            }
        }
        Ok(())
    }

    /// Loads the registered events and builds the projection from them.
    pub fn load(self) -> (r: Result<P, ProjectionError<S::Error, <S::Codec as Codec>::Error>>)
        ensures
            self.builds(r),
    {
        let events = match self.store.load_events(self.filters.as_slice()) {
            Ok(events) => events,
            Err(error) => return Err(ProjectionError::Store(error)),
        };
        let mut projection = P::default();
        let ghost start = projection;
        for i in 0..events.len()
            invariant
                self.reaches(start, events@.take(i as int), projection),
                call_ensures(P::default, (), start),
                self.store().loads(self.filters(), Ok(events@)),
        {
            let ghost middle = projection;
            let outcome = self.respond(&mut projection, &events[i]);
            match outcome {
                Ok(()) => {
                    proof {
                        let next = events@.take(i + 1);
                        assert(next.drop_last() =~= events@.take(i as int));
                        assert(outcome->Ok_0 == ());
                        assert(self.responds(next.last(), middle, projection, Ok(())));
                        assert(self.reaches(start, next, projection));
                    }
                },
                Err(error) => {
                    let kind = events[i].kind.clone();
                    assert(self.fails(start, events@, kind@, error));
                    return match error {
                        HandlerError::Codec(error) => Err(
                            ProjectionError::Codec { event_kind: kind, error },
                        ),
                        HandlerError::EventDecode(error) => Err(
                            ProjectionError::EventDecode(error),
                        ),
                    };
                },
            }
        }
        assert(events@.take(events@.len() as int) =~= events@);
        Ok(projection)
    }
}

} // verus!
