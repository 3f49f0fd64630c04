//! Error messages, word for word.

use event_sourcing::codec::EventDecodeError;
use event_sourcing::concurrency::ConcurrencyConflict;
use event_sourcing::inmemory::InMemoryError;
use event_sourcing::projection::ProjectionErrorSource;
use event_sourcing::store::AppendError;
use event_sourcing::{
    CommandError, OptimisticCommandError, OptimisticSnapshotCommandError, ProjectionError,
    SnapshotCommandError,
};

const CONFLICT: ConcurrencyConflict<u64> = ConcurrencyConflict {
    expected: Some(3),
    actual: Some(5),
};

#[test]
fn conflicts_name_the_versions() {
    let message = |expected, actual| ConcurrencyConflict::<u64> { expected, actual }.message();
    assert_eq!(
        message(Some(3), Some(5)),
        "concurrency conflict: expected version 3, found 5"
    );
    assert_eq!(
        message(Some(3), None),
        "concurrency conflict: expected version 3, found empty stream"
    );
    assert!(message(None, Some(5)).contains("expected new stream, found version 5"));
    assert!(message(None, None).contains("unexpected empty state"));
}

#[test]
fn append_errors_pass_conflicts_on_and_quote_the_store() {
    let conflict: AppendError<u64, String> = AppendError::from(CONFLICT);
    assert!(matches!(conflict, AppendError::Conflict(_)));
    assert_eq!(conflict.message(), CONFLICT.message());

    let store: AppendError<u64, String> = AppendError::store("disk full".to_string());
    assert!(matches!(store, AppendError::Store(_)));
    assert_eq!(store.message(), "store error: disk full");
}

#[test]
fn decode_errors_name_the_kinds() {
    let unknown: EventDecodeError<String> = EventDecodeError::UnknownKind {
        kind: "removed".to_string(),
        expected: &["added", "renamed"],
    };
    assert_eq!(
        unknown.message(),
        "unknown event kind `removed`, expected one of [\"added\", \"renamed\"]"
    );
    assert!(unknown.source().is_none());

    let codec = EventDecodeError::Codec("bad byte".to_string());
    assert_eq!(codec.message(), "codec error: bad byte");
    assert_eq!(codec.source(), Some(&"bad byte".to_string()));
}

type Rebuild = ProjectionError<String, String>;

#[test]
fn projection_errors_quote_their_cause() {
    let store: Rebuild = ProjectionError::Store("offline".to_string());
    assert_eq!(store.message(), "failed to load events: offline");
    assert!(matches!(store.source(), Some(ProjectionErrorSource::Store(_))));

    let codec: Rebuild = ProjectionError::Codec {
        event_kind: "added".to_string(),
        error: "bad byte".to_string(),
    };
    assert_eq!(codec.message(), "failed to decode event kind `added`: bad byte");
    assert!(matches!(codec.source(), Some(ProjectionErrorSource::Codec(_))));

    let decode: Rebuild =
        ProjectionError::EventDecode(EventDecodeError::Codec("bad byte".to_string()));
    assert_eq!(decode.message(), "failed to decode event: codec error: bad byte");
    assert!(matches!(decode.source(), Some(ProjectionErrorSource::EventDecode(_))));

    let snapshot: Rebuild = ProjectionError::SnapshotDeserialize("bad byte".to_string());
    assert_eq!(snapshot.message(), "failed to deserialize snapshot: bad byte");
    assert!(matches!(snapshot.source(), Some(ProjectionErrorSource::Codec(_))));
}

fn rebuild() -> Rebuild {
    ProjectionError::Store("offline".to_string())
}

#[test]
fn command_errors_say_what_failed() {
    type Failure = CommandError<String, String, String>;
    let text = |error: Failure| error.message();
    assert_eq!(
        text(CommandError::Aggregate("no".to_string())),
        "aggregate rejected command: no"
    );
    assert_eq!(
        text(CommandError::Projection(rebuild())),
        "failed to rebuild aggregate state: failed to load events: offline"
    );
    assert_eq!(
        text(CommandError::Codec("bad".to_string())),
        "failed to encode events: bad"
    );
    assert_eq!(
        text(CommandError::Store("full".to_string())),
        "failed to persist events: full"
    );
}

#[test]
fn snapshot_command_errors_say_what_failed() {
    type Failure = SnapshotCommandError<String, String, String, String>;
    let text = |error: Failure| error.message();
    assert_eq!(
        text(SnapshotCommandError::Aggregate("no".to_string())),
        "aggregate rejected command: no"
    );
    assert_eq!(
        text(SnapshotCommandError::Projection(rebuild())),
        "failed to rebuild aggregate state: failed to load events: offline"
    );
    assert_eq!(
        text(SnapshotCommandError::Codec("bad".to_string())),
        "failed to encode events: bad"
    );
    assert_eq!(
        text(SnapshotCommandError::Store("full".to_string())),
        "failed to persist events: full"
    );
    assert_eq!(
        text(SnapshotCommandError::Snapshot("lost".to_string())),
        "snapshot operation failed: lost"
    );
}

#[test]
fn optimistic_command_errors_say_what_failed() {
    type Failure = OptimisticCommandError<String, u64, String, String>;
    let text = |error: Failure| error.message();
    assert_eq!(
        text(OptimisticCommandError::Aggregate("no".to_string())),
        "aggregate rejected command: no"
    );
    assert_eq!(text(OptimisticCommandError::Concurrency(CONFLICT)), CONFLICT.message());
    assert_eq!(
        text(OptimisticCommandError::Projection(rebuild())),
        "failed to rebuild aggregate state: failed to load events: offline"
    );
    assert_eq!(
        text(OptimisticCommandError::Codec("bad".to_string())),
        "failed to encode events: bad"
    );
    assert_eq!(
        text(OptimisticCommandError::Store("full".to_string())),
        "failed to persist events: full"
    );
}

#[test]
fn optimistic_snapshot_command_errors_say_what_failed() {
    type Failure = OptimisticSnapshotCommandError<String, u64, String, String, String>;
    let text = |error: Failure| error.message();
    assert_eq!(
        text(OptimisticSnapshotCommandError::Aggregate("no".to_string())),
        "aggregate rejected command: no"
    );
    assert_eq!(
        text(OptimisticSnapshotCommandError::Concurrency(CONFLICT)),
        CONFLICT.message()
    );
    assert_eq!(
        text(OptimisticSnapshotCommandError::Projection(rebuild())),
        "failed to rebuild aggregate state: failed to load events: offline"
    );
    assert_eq!(
        text(OptimisticSnapshotCommandError::Codec("bad".to_string())),
        "failed to encode events: bad"
    );
    assert_eq!(
        text(OptimisticSnapshotCommandError::Store("full".to_string())),
        "failed to persist events: full"
    );
    assert_eq!(
        text(OptimisticSnapshotCommandError::Snapshot("lost".to_string())),
        "snapshot operation failed: lost"
    );
}

#[test]
fn errors_over_the_in_memory_store_have_messages() {
    let refused: OptimisticCommandError<String, u64, InMemoryError, String> =
        OptimisticCommandError::Aggregate("no".to_string());
    assert_eq!(refused.message(), "aggregate rejected command: no");
}
