//! Errors of running commands.

use vstd::prelude::*;
use crate::concurrency::ConcurrencyConflict;
use crate::projection::ProjectionError;
use crate::text::{joined, Describe};

verus! {

/// Error of a command without version checking.
#[derive(Debug)]
pub enum CommandError<AggregateError, StoreError, CodecError> {
    /// The aggregate refused the command.
    Aggregate(AggregateError),
    /// The aggregate could not be rebuilt.
    Projection(ProjectionError<StoreError, CodecError>),
    /// The events could not be encoded.
    Codec(CodecError),
    /// The store failed.
    Store(StoreError),
}

impl<AggregateError, StoreError, CodecError> CommandError<AggregateError, StoreError, CodecError> {
    /// What [`CommandError::message`] may write.
    pub open spec fn describes(&self, text: Seq<char>) -> bool where
        AggregateError: Describe,
        StoreError: Describe,
        CodecError: Describe,
     {
        match self {
            CommandError::Aggregate(error) => exists|inner: Seq<char>| #[trigger]
                error.describes(inner) && text == "aggregate rejected command: "@ + inner,
            CommandError::Projection(error) => exists|inner: Seq<char>| #[trigger]
                error.describes(inner) && text == "failed to rebuild aggregate state: "@ + inner,
            CommandError::Codec(error) => exists|inner: Seq<char>| #[trigger]
                error.describes(inner) && text == "failed to encode events: "@ + inner,
            CommandError::Store(error) => exists|inner: Seq<char>| #[trigger]
                error.describes(inner) && text == "failed to persist events: "@ + inner,
        }
    }

    /// The error in words.
    pub fn message(&self) -> (text: String) where
        AggregateError: Describe,
        StoreError: Describe,
        CodecError: Describe,

        ensures
            self.describes(text@),
    {
        match self {
            CommandError::Aggregate(error) => joined(
                "aggregate rejected command: ",
                error.message().as_str(),
            ),
            CommandError::Projection(error) => joined(
                "failed to rebuild aggregate state: ",
                error.message().as_str(),
            ),
            CommandError::Codec(error) => joined(
                "failed to encode events: ",
                error.message().as_str(),
            ),
            CommandError::Store(error) => joined(
                "failed to persist events: ",
                error.message().as_str(),
            ),
        }
    }
}

/// Error of a command without version checking, with snapshots.
#[derive(Debug)]
pub enum SnapshotCommandError<AggregateError, StoreError, CodecError, SnapshotError> {
    /// The aggregate refused the command.
    Aggregate(AggregateError),
    /// The aggregate could not be rebuilt.
    Projection(ProjectionError<StoreError, CodecError>),
    /// The events, or the snapshot, could not be encoded.
    Codec(CodecError),
    /// The store failed.
    Store(StoreError),
    /// The snapshot store failed.
    Snapshot(SnapshotError),
}

impl<AggregateError, StoreError, CodecError, SnapshotError>
    SnapshotCommandError<AggregateError, StoreError, CodecError, SnapshotError>
{
    /// What [`SnapshotCommandError::message`] may write.
    pub open spec fn describes(&self, text: Seq<char>) -> bool where
        AggregateError: Describe,
        StoreError: Describe,
        CodecError: Describe,
        SnapshotError: Describe,
     {
        match self {
            SnapshotCommandError::Aggregate(error) => exists|inner: Seq<char>| #[trigger]
                error.describes(inner) && text == "aggregate rejected command: "@ + inner,
            SnapshotCommandError::Projection(error) => exists|inner: Seq<char>| #[trigger]
                error.describes(inner) && text == "failed to rebuild aggregate state: "@ + inner,
            SnapshotCommandError::Codec(error) => exists|inner: Seq<char>| #[trigger]
                error.describes(inner) && text == "failed to encode events: "@ + inner,
            SnapshotCommandError::Store(error) => exists|inner: Seq<char>| #[trigger]
                error.describes(inner) && text == "failed to persist events: "@ + inner,
            SnapshotCommandError::Snapshot(error) => exists|inner: Seq<char>| #[trigger]
                error.describes(inner) && text == "snapshot operation failed: "@ + inner,
        }
    }

    /// The error in words.
    pub fn message(&self) -> (text: String) where
        AggregateError: Describe,
        StoreError: Describe,
        CodecError: Describe,
        SnapshotError: Describe,

        ensures
            self.describes(text@),
    {
        match self {
            SnapshotCommandError::Aggregate(error) => joined(
                "aggregate rejected command: ",
                error.message().as_str(),
            ),
            SnapshotCommandError::Projection(error) => joined(
                "failed to rebuild aggregate state: ",
                error.message().as_str(),
            ),
            SnapshotCommandError::Codec(error) => joined(
                "failed to encode events: ",
                error.message().as_str(),
            ),
            SnapshotCommandError::Store(error) => joined(
                "failed to persist events: ",
                error.message().as_str(),
            ),
            SnapshotCommandError::Snapshot(error) => joined(
                "snapshot operation failed: ",
                error.message().as_str(),
            ),
        }
    }
}

/// Error of a command with version checking.
#[derive(Debug)]
pub enum OptimisticCommandError<AggregateError, Position, StoreError, CodecError> {
    /// The aggregate refused the command.
    Aggregate(AggregateError),
    /// Another writer changed the stream between loading and committing.
    Concurrency(ConcurrencyConflict<Position>),
    /// The aggregate could not be rebuilt.
    Projection(ProjectionError<StoreError, CodecError>),
    /// The events could not be encoded.
    Codec(CodecError),
    /// The store failed.
    Store(StoreError),
}

impl<AggregateError, Position, StoreError, CodecError>
    OptimisticCommandError<AggregateError, Position, StoreError, CodecError>
{
    /// What [`OptimisticCommandError::message`] may write.
    pub open spec fn describes(&self, text: Seq<char>) -> bool where
        AggregateError: Describe,
        Position: core::fmt::Debug,
        StoreError: Describe,
        CodecError: Describe,
     {
        match self {
            OptimisticCommandError::Aggregate(error) => exists|inner: Seq<char>| #[trigger]
                error.describes(inner) && text == "aggregate rejected command: "@ + inner,
            OptimisticCommandError::Concurrency(conflict) => conflict.describes(text),
            OptimisticCommandError::Projection(error) => exists|inner: Seq<char>| #[trigger]
                error.describes(inner) && text == "failed to rebuild aggregate state: "@ + inner,
            OptimisticCommandError::Codec(error) => exists|inner: Seq<char>| #[trigger]
                error.describes(inner) && text == "failed to encode events: "@ + inner,
            OptimisticCommandError::Store(error) => exists|inner: Seq<char>| #[trigger]
                error.describes(inner) && text == "failed to persist events: "@ + inner,
        }
    }

    /// The error in words.
    pub fn message(&self) -> (text: String) where
        AggregateError: Describe,
        Position: core::fmt::Debug,
        StoreError: Describe,
        CodecError: Describe,

        ensures
            self.describes(text@),
    {
        match self {
            OptimisticCommandError::Aggregate(error) => joined(
                "aggregate rejected command: ",
                error.message().as_str(),
            ),
            OptimisticCommandError::Concurrency(conflict) => conflict.message(),
            OptimisticCommandError::Projection(error) => joined(
                "failed to rebuild aggregate state: ",
                error.message().as_str(),
            ),
            OptimisticCommandError::Codec(error) => joined(
                "failed to encode events: ",
                error.message().as_str(),
            ),
            OptimisticCommandError::Store(error) => joined(
                "failed to persist events: ",
                error.message().as_str(),
            ),
        }
    }
}

/// Error of a command with version checking and snapshots.
#[derive(Debug)]
pub enum OptimisticSnapshotCommandError<
    AggregateError,
    Position,
    StoreError,
    CodecError,
    SnapshotError,
> {
    /// The aggregate refused the command.
    Aggregate(AggregateError),
    /// Another writer changed the stream between loading and committing.
    Concurrency(ConcurrencyConflict<Position>),
    /// The aggregate could not be rebuilt.
    Projection(ProjectionError<StoreError, CodecError>),
    /// The events, or the snapshot, could not be encoded.
    Codec(CodecError),
    /// The store failed.
    Store(StoreError),
    /// The snapshot store failed.
    Snapshot(SnapshotError),
}

impl<AggregateError, Position, StoreError, CodecError, SnapshotError>
    OptimisticSnapshotCommandError<AggregateError, Position, StoreError, CodecError, SnapshotError>
{
    /// What [`OptimisticSnapshotCommandError::message`] may write.
    pub open spec fn describes(&self, text: Seq<char>) -> bool where
        AggregateError: Describe,
        Position: core::fmt::Debug,
        StoreError: Describe,
        CodecError: Describe,
        SnapshotError: Describe,
     {
        match self {
            OptimisticSnapshotCommandError::Aggregate(error) => exists|inner: Seq<char>| #[trigger]
                error.describes(inner) && text == "aggregate rejected command: "@ + inner,
            OptimisticSnapshotCommandError::Concurrency(conflict) => conflict.describes(text),
            OptimisticSnapshotCommandError::Projection(error) => exists|inner: Seq<char>| #[trigger]
                error.describes(inner) && text == "failed to rebuild aggregate state: "@ + inner,
            OptimisticSnapshotCommandError::Codec(error) => exists|inner: Seq<char>| #[trigger]
                error.describes(inner) && text == "failed to encode events: "@ + inner,
            OptimisticSnapshotCommandError::Store(error) => exists|inner: Seq<char>| #[trigger]
                error.describes(inner) && text == "failed to persist events: "@ + inner,
            OptimisticSnapshotCommandError::Snapshot(error) => exists|inner: Seq<char>| #[trigger]
                error.describes(inner) && text == "snapshot operation failed: "@ + inner,
        }
    }

    /// The error in words.
    pub fn message(&self) -> (text: String) where
        AggregateError: Describe,
        Position: core::fmt::Debug,
        StoreError: Describe,
        CodecError: Describe,
        SnapshotError: Describe,

        ensures
            self.describes(text@),
    {
        match self {
            OptimisticSnapshotCommandError::Aggregate(error) => joined(
                "aggregate rejected command: ",
                error.message().as_str(),
            ),
            OptimisticSnapshotCommandError::Concurrency(conflict) => conflict.message(),
            OptimisticSnapshotCommandError::Projection(error) => joined(
                "failed to rebuild aggregate state: ",
                error.message().as_str(),
            ),
            OptimisticSnapshotCommandError::Codec(error) => joined(
                "failed to encode events: ",
                error.message().as_str(),
            ),
            OptimisticSnapshotCommandError::Store(error) => joined(
                "failed to persist events: ",
                error.message().as_str(),
            ),
            OptimisticSnapshotCommandError::Snapshot(error) => joined(
                "snapshot operation failed: ",
                error.message().as_str(),
            ),
        }
    }
}

} // verus!
