//! Laws of error messages: fixed words, and behind them what the cause says of itself.

use vstd::prelude::*;
use crate::codec::EventDecodeError;
use crate::concurrency::ConcurrencyConflict;
use crate::error::{
    CommandError, OptimisticCommandError, OptimisticSnapshotCommandError, SnapshotCommandError,
};
use crate::projection::ProjectionError;
use crate::store::AppendError;
use crate::text::{debug_form, Describe};

verus! {

/// The message of a conflict names the version that was expected, or that a new stream was, and the
/// one that was found, or that the stream was empty.
pub proof fn law_conflict_message<Pos: core::fmt::Debug>(
    conflict: ConcurrencyConflict<Pos>,
    text: Seq<char>,
)
    requires
        conflict.describes(text),
    ensures
        match (conflict.expected, conflict.actual) {
            (Some(expected), Some(actual)) => exists|e: Seq<char>, a: Seq<char>|
                #[trigger] debug_form(expected, e) && #[trigger] debug_form(actual, a) && text
                    == "concurrency conflict: expected version "@ + e + ", found "@ + a,
            (Some(expected), None) => exists|e: Seq<char>| #[trigger]
                debug_form(expected, e) && text == "concurrency conflict: expected version "@ + e
                    + ", found empty stream"@,
            (None, Some(actual)) => exists|a: Seq<char>| #[trigger]
                debug_form(actual, a) && text
                    == "concurrency conflict: expected new stream, found version "@ + a,
            (None, None) => text == "concurrency conflict: unexpected empty state"@,
        },
{
}

/// The message of a failed append is that of the conflict, or quotes the store.
pub proof fn law_append_error_message<Pos: core::fmt::Debug, StoreError: Describe>(
    error: AppendError<Pos, StoreError>,
    text: Seq<char>,
)
    requires
        error.describes(text),
    ensures
        match error {
            AppendError::Conflict(conflict) => conflict.describes(text),
            AppendError::Store(cause) => exists|inner: Seq<char>| #[trigger]
                cause.describes(inner) && text == "store error: "@ + inner,
        },
{
}

/// The message of an event that cannot be read back names its kind and the kinds that could be, or
/// quotes the codec.
pub proof fn law_decode_error_message<CodecError: Describe>(
    error: EventDecodeError<CodecError>,
    text: Seq<char>,
)
    requires
        error.describes(text),
    ensures
        match error {
            EventDecodeError::UnknownKind { kind, expected } => exists|list: Seq<char>| #[trigger]
                debug_form(expected, list) && text == "unknown event kind `"@ + kind@
                    + "`, expected one of "@ + list,
            EventDecodeError::Codec(cause) => exists|inner: Seq<char>| #[trigger]
                cause.describes(inner) && text == "codec error: "@ + inner,
        },
{
}

/// The message of a failure to rebuild says which step failed and quotes the cause; one of a single
/// event names its kind.
pub proof fn law_projection_error_message<StoreError: Describe, CodecError: Describe>(
    error: ProjectionError<StoreError, CodecError>,
    text: Seq<char>,
)
    requires
        error.describes(text),
    ensures
        match error {
            ProjectionError::Store(cause) => exists|inner: Seq<char>| #[trigger]
                cause.describes(inner) && text == "failed to load events: "@ + inner,
            ProjectionError::Codec { event_kind, error: cause } => exists|inner: Seq<char>|
                #[trigger] cause.describes(inner) && text == "failed to decode event kind `"@
                    + event_kind@ + "`: "@ + inner,
            ProjectionError::EventDecode(cause) => exists|inner: Seq<char>| #[trigger]
                cause.describes(inner) && text == "failed to decode event: "@ + inner,
            ProjectionError::SnapshotDeserialize(cause) => exists|inner: Seq<char>| #[trigger]
                cause.describes(inner) && text == "failed to deserialize snapshot: "@ + inner,
        },
{
}

/// The message of a command without version checking says which step failed and quotes the cause.
pub proof fn law_command_error_message<
    AggregateError: Describe,
    StoreError: Describe,
    CodecError: Describe,
>(error: CommandError<AggregateError, StoreError, CodecError>, text: Seq<char>)
    requires
        error.describes(text),
    ensures
        match error {
            CommandError::Aggregate(cause) => exists|inner: Seq<char>| #[trigger]
                cause.describes(inner) && text == "aggregate rejected command: "@ + inner,
            CommandError::Projection(cause) => exists|inner: Seq<char>| #[trigger]
                cause.describes(inner) && text == "failed to rebuild aggregate state: "@ + inner,
            CommandError::Codec(cause) => exists|inner: Seq<char>| #[trigger]
                cause.describes(inner) && text == "failed to encode events: "@ + inner,
            CommandError::Store(cause) => exists|inner: Seq<char>| #[trigger]
                cause.describes(inner) && text == "failed to persist events: "@ + inner,
        },
{
}

/// The message of a command with snapshots and without version checking says which step failed
/// and quotes the cause.
pub proof fn law_snapshot_command_error_message<
    AggregateError: Describe,
    StoreError: Describe,
    CodecError: Describe,
    SnapshotError: Describe,
>(
    error: SnapshotCommandError<AggregateError, StoreError, CodecError, SnapshotError>,
    text: Seq<char>,
)
    requires
        error.describes(text),
    ensures
        match error {
            SnapshotCommandError::Aggregate(cause) => exists|inner: Seq<char>| #[trigger]
                cause.describes(inner) && text == "aggregate rejected command: "@ + inner,
            SnapshotCommandError::Projection(cause) => exists|inner: Seq<char>| #[trigger]
                cause.describes(inner) && text == "failed to rebuild aggregate state: "@ + inner,
            SnapshotCommandError::Codec(cause) => exists|inner: Seq<char>| #[trigger]
                cause.describes(inner) && text == "failed to encode events: "@ + inner,
            SnapshotCommandError::Store(cause) => exists|inner: Seq<char>| #[trigger]
                cause.describes(inner) && text == "failed to persist events: "@ + inner,
            SnapshotCommandError::Snapshot(cause) => exists|inner: Seq<char>| #[trigger]
                cause.describes(inner) && text == "snapshot operation failed: "@ + inner,
        },
{
}

/// The message of a command with version checking says which step failed and quotes the cause.
pub proof fn law_optimistic_command_error_message<
    AggregateError: Describe,
    Position: core::fmt::Debug,
    StoreError: Describe,
    CodecError: Describe,
>(error: OptimisticCommandError<AggregateError, Position, StoreError, CodecError>, text: Seq<char>)
    requires
        error.describes(text),
    ensures
        match error {
            OptimisticCommandError::Aggregate(cause) => exists|inner: Seq<char>| #[trigger]
                cause.describes(inner) && text == "aggregate rejected command: "@ + inner,
            OptimisticCommandError::Concurrency(conflict) => conflict.describes(text),
            OptimisticCommandError::Projection(cause) => exists|inner: Seq<char>| #[trigger]
                cause.describes(inner) && text == "failed to rebuild aggregate state: "@ + inner,
            OptimisticCommandError::Codec(cause) => exists|inner: Seq<char>| #[trigger]
                cause.describes(inner) && text == "failed to encode events: "@ + inner,
            OptimisticCommandError::Store(cause) => exists|inner: Seq<char>| #[trigger]
                cause.describes(inner) && text == "failed to persist events: "@ + inner,
        },
{
}

/// The message of a command with version checking and snapshots says which step failed and
/// quotes the cause.
pub proof fn law_optimistic_snapshot_command_error_message<
    AggregateError: Describe,
    Position: core::fmt::Debug,
    StoreError: Describe,
    CodecError: Describe,
    SnapshotError: Describe,
>(
    error: OptimisticSnapshotCommandError<
        AggregateError,
        Position,
        StoreError,
        CodecError,
        SnapshotError,
    >,
    text: Seq<char>,
)
    requires
        error.describes(text),
    ensures
        match error {
            OptimisticSnapshotCommandError::Aggregate(cause) => exists|inner: Seq<char>| #[trigger]
                cause.describes(inner) && text == "aggregate rejected command: "@ + inner,
            OptimisticSnapshotCommandError::Concurrency(conflict) => conflict.describes(text),
            OptimisticSnapshotCommandError::Projection(cause) => exists|inner: Seq<char>| #[trigger]
                cause.describes(inner) && text == "failed to rebuild aggregate state: "@ + inner,
            OptimisticSnapshotCommandError::Codec(cause) => exists|inner: Seq<char>| #[trigger]
                cause.describes(inner) && text == "failed to encode events: "@ + inner,
            OptimisticSnapshotCommandError::Store(cause) => exists|inner: Seq<char>| #[trigger]
                cause.describes(inner) && text == "failed to persist events: "@ + inner,
            OptimisticSnapshotCommandError::Snapshot(cause) => exists|inner: Seq<char>| #[trigger]
                cause.describes(inner) && text == "snapshot operation failed: "@ + inner,
        },
{
}

} // verus!
