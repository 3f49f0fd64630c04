//! Building blocks for event-sourced systems: aggregates that rebuild their state from events,
//! projections over event streams, and repositories that tie both to an event store.
//!
//! Every function states its behaviour in a contract that is checked by Verus. Behaviour that is
//! supplied from outside (aggregates, commands, codecs, stores) enters the contracts through the
//! relations that each trait declares next to its methods. An implementation that Verus checks is
//! held to the relations that it defines. Most of them admit every outcome unless an implementation
//! says more. A few have no such default, since the library rests on them: what tells identifiers
//! apart ([`AggregateId`]), and the codec and the versions of a store ([`EventStore`]). An
//! implementation that Verus does not check must keep what the contracts of its trait say of these.
//!
//! What holds across calls is stated and proved in [`laws`].

pub mod aggregate;
pub mod codec;
pub mod concurrency;
pub mod derive;
pub mod error;
pub mod event;
pub mod id;
pub mod inmemory;
pub mod laws;
pub mod projection;
pub mod repository;
pub mod snapshot;
pub mod snapshot_repository;
pub mod store;
pub mod test;
pub mod text;

pub use crate::aggregate::{Aggregate, Apply, Handle};
pub use crate::codec::{Codec, JsonCodec, ProjectionEvent, SerializableEvent};
pub use crate::concurrency::{ConcurrencyConflict, Optimistic, Unchecked};
pub use crate::error::{
    CommandError, OptimisticCommandError, OptimisticSnapshotCommandError, SnapshotCommandError,
};
pub use crate::event::DomainEvent;
pub use crate::id::AggregateId;
pub use crate::inmemory::InMemoryEventStore;
pub use crate::projection::{ApplyProjection, Projection, ProjectionError};
pub use crate::repository::Repository;
pub use crate::snapshot::{InMemorySnapshotStore, NoSnapshots, Snapshot, SnapshotStore};
pub use crate::snapshot_repository::SnapshotRepository;
pub use crate::store::{EventFilter, EventStore, PersistableEvent, StoredEvent, Transaction};
