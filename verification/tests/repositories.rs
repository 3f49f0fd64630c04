//! Repositories over stores that fail on demand, and over identifiers of one's own.

use std::collections::BTreeMap;

use event_sourcing::codec::{Codec, EventDecodeError, ProjectionEvent, SerializableEvent};
use event_sourcing::concurrency::ConcurrencyStrategy;
use event_sourcing::inmemory::InMemoryError;
use event_sourcing::snapshot::{InMemorySnapshotStore, NoSnapshots, Snapshot, SnapshotStore};
use event_sourcing::store::{
    AppendError, EventFilter, EventStore, PersistableEvent, StoredEvent, Transaction,
};
use event_sourcing::test::RepositoryTestExt;
use event_sourcing::{
    Aggregate, AggregateId, CommandError, ConcurrencyConflict, Handle, InMemoryEventStore,
    JsonCodec, OptimisticCommandError, OptimisticSnapshotCommandError, ProjectionError, Repository,
    SnapshotCommandError,
};
use serde::de::Error as DecodeFailure;
use serde::{Deserialize, Deserializer, Serialize, Serializer};

#[derive(Debug, Clone, PartialEq, Eq)]
enum Change {
    Added(i64),
    Unwritable,
}

impl<C: Codec> SerializableEvent<C> for Change {
    fn to_persistable<M>(self, codec: &C, metadata: M) -> Result<PersistableEvent<M>, C::Error> {
        let data = match self {
            Change::Added(amount) => codec.serialize(&amount)?,
            // A map with keys that are not strings has no JSON form.
            Change::Unwritable => codec.serialize(&BTreeMap::from([((1, 2), 3)]))?,
        };
        Ok(PersistableEvent {
            kind: "added".to_string(),
            data,
            metadata,
        })
    }
}

impl<C: Codec> ProjectionEvent<C> for Change {
    const EVENT_KINDS: &'static [&'static str] = &["added", "listed-but-unread"];

    fn from_stored(
        kind: &str,
        data: &[u8],
        codec: &C,
    ) -> Result<Self, EventDecodeError<C::Error>> {
        match kind {
            "added" => codec
                .deserialize(data)
                .map(Change::Added)
                .map_err(EventDecodeError::Codec),
            _ => Err(EventDecodeError::UnknownKind {
                kind: kind.to_string(),
                expected: <Self as ProjectionEvent<C>>::EVENT_KINDS,
            }),
        }
    }
}

#[derive(Debug, Default, Clone, PartialEq, Eq)]
struct Sum {
    value: i64,
}

impl Serialize for Sum {
    fn serialize<S: Serializer>(&self, serializer: S) -> Result<S::Ok, S::Error> {
        self.value.serialize(serializer)
    }
}

impl<'de> Deserialize<'de> for Sum {
    fn deserialize<D: Deserializer<'de>>(deserializer: D) -> Result<Self, D::Error> {
        let value = i64::deserialize(deserializer)?;
        if value < 0 {
            return Err(D::Error::custom("negative"));
        }
        Ok(Sum { value })
    }
}

impl Aggregate for Sum {
    const KIND: &'static str = "sum";
    type Event = Change;
    type Error = String;
    type Id = String;

    fn apply(&mut self, event: &Change) {
        if let Change::Added(amount) = event {
            self.value += amount;
        }
    }
}

/// Adds amounts, one event each.
struct Add(Vec<i64>);

/// Succeeds without events where the sum is the given one.
struct Expect(i64);

struct WriteNothingSensible;

impl Handle<Add> for Sum {
    fn handle(&self, command: &Add) -> Result<Vec<Change>, String> {
        Ok(command.0.iter().map(|amount| Change::Added(*amount)).collect())
    }
}

impl Handle<Expect> for Sum {
    fn handle(&self, command: &Expect) -> Result<Vec<Change>, String> {
        if self.value == command.0 {
            Ok(vec![])
        } else {
            Err(format!("sum is {}", self.value))
        }
    }
}

impl Handle<WriteNothingSensible> for Sum {
    fn handle(&self, _: &WriteNothingSensible) -> Result<Vec<Change>, String> {
        Ok(vec![Change::Added(1), Change::Unwritable])
    }
}

type Memory = InMemoryEventStore<String, JsonCodec, u8>;

/// What a scripted store does instead of the real thing.
#[derive(Default)]
struct Script {
    conflicts: usize,
    appends_seen: usize,
    fail_append: bool,
    fail_load: bool,
    /// How often the version is told before it fails.
    versions_left: Option<usize>,
    /// Another writer adds an event after the version was first told.
    write_while_loading: bool,
}

struct Scripted {
    memory: std::cell::RefCell<Memory>,
    codec: JsonCodec,
    script: std::cell::RefCell<Script>,
}

impl Scripted {
    fn new(script: Script) -> Self {
        Scripted {
            memory: std::cell::RefCell::new(InMemoryEventStore::new(JsonCodec)),
            codec: JsonCodec,
            script: std::cell::RefCell::new(script),
        }
    }

    fn outcome(&self) -> Result<(), AppendError<u64, String>> {
        let mut script = self.script.borrow_mut();
        script.appends_seen += 1;
        if script.conflicts > 0 {
            script.conflicts -= 1;
            return Err(AppendError::Conflict(ConcurrencyConflict {
                expected: None,
                actual: Some(9),
            }));
        }
        if script.fail_append {
            return Err(AppendError::store("append failed".to_string()));
        }
        Ok(())
    }
}

fn never(error: AppendError<u64, InMemoryError>) -> AppendError<u64, String> {
    match error {
        AppendError::Conflict(conflict) => AppendError::Conflict(conflict),
        AppendError::Store(_) => unreachable!(),
    }
}

impl EventStore for Scripted {
    type Id = String;
    type Position = u64;
    type Error = String;
    type Codec = JsonCodec;
    type Metadata = u8;

    fn used_codec(&self) -> JsonCodec {
        unreachable!()
    }

    fn reports(
        &self,
        _: <String as AggregateId>::Key,
        _: <String as AggregateId>::Key,
        _: Result<Option<u64>, String>,
    ) -> bool {
        unreachable!()
    }

    fn codec(&self) -> &JsonCodec {
        &self.codec
    }

    fn stream_version(&self, kind: &str, id: &String) -> Result<Option<u64>, String> {
        let mut script = self.script.borrow_mut();
        if let Some(left) = script.versions_left {
            if left == 0 {
                return Err("version failed".to_string());
            }
            script.versions_left = Some(left - 1);
        }
        let version = self.memory.borrow().stream_version(kind, id).unwrap();
        if script.write_while_loading {
            script.write_while_loading = false;
            let other = raw("added", b"100");
            self.memory.borrow_mut().append(kind, id, None, vec![other]).unwrap();
        }
        Ok(version)
    }

    fn begin<C: ConcurrencyStrategy>(
        &mut self,
        kind: &str,
        id: String,
        expected_version: Option<u64>,
    ) -> Transaction<'_, Self, C> {
        Transaction::new(self, kind.to_string(), id, expected_version)
    }

    fn append(
        &mut self,
        kind: &str,
        id: &String,
        expected_version: Option<u64>,
        events: Vec<PersistableEvent<u8>>,
    ) -> Result<(), AppendError<u64, String>> {
        self.outcome()?;
        self.memory
            .borrow_mut()
            .append(kind, id, expected_version, events)
            .map_err(never)
    }

    fn load_events(
        &self,
        filters: &[EventFilter<String, u64>],
    ) -> Result<Vec<StoredEvent<String, u64, u8>>, String> {
        if self.script.borrow().fail_load {
            return Err("load failed".to_string());
        }
        Ok(self.memory.borrow().load_events(filters).unwrap())
    }

    fn append_expecting_new(
        &mut self,
        kind: &str,
        id: &String,
        events: Vec<PersistableEvent<u8>>,
    ) -> Result<(), AppendError<u64, String>> {
        self.outcome()?;
        self.memory
            .borrow_mut()
            .append_expecting_new(kind, id, events)
            .map_err(never)
    }
}

fn id() -> String {
    "s1".to_string()
}

fn memory() -> Memory {
    InMemoryEventStore::new(JsonCodec)
}

fn raw(kind: &str, data: &[u8]) -> PersistableEvent<u8> {
    PersistableEvent {
        kind: kind.to_string(),
        data: data.to_vec(),
        metadata: 0,
    }
}

fn stored(store: &Memory) -> Vec<(u64, Vec<u8>, u8)> {
    store
        .load_events(&[EventFilter::for_event("added")])
        .unwrap()
        .into_iter()
        .map(|event| (event.position, event.data, event.metadata))
        .collect()
}

#[test]
fn a_command_stores_its_events_with_the_metadata() {
    let mut repo = Repository::new(memory());
    repo.execute_command::<Sum, Add>(&id(), &Add(vec![2, 3]), &7).unwrap();
    repo.execute_command::<Sum, Add>(&id(), &Add(vec![4]), &8).unwrap();

    assert_eq!(
        stored(repo.event_store()),
        vec![(0, b"2".to_vec(), 7), (1, b"3".to_vec(), 7), (2, b"4".to_vec(), 8)]
    );
    assert_eq!(repo.load::<Sum>(&id()).unwrap(), Sum { value: 9 });
    assert_eq!(repo.load::<Sum>(&"other".to_string()).unwrap(), Sum { value: 0 });
}

#[test]
fn the_aggregate_builder_loads_as_the_repository_does() {
    let mut repo = Repository::new(memory());
    repo.execute_command::<Sum, Add>(&id(), &Add(vec![2, 3]), &0).unwrap();
    assert_eq!(repo.aggregate_builder::<Sum>().load(&id()).unwrap(), Sum { value: 5 });

    let repo = repo.with_snapshots(InMemorySnapshotStore::always());
    assert_eq!(repo.aggregate_builder::<Sum>().load(&id()).unwrap(), Sum { value: 5 });
    assert_eq!(repo.load::<Sum>(&id()).unwrap(), Sum { value: 5 });
}

#[test]
fn loading_after_a_command_gives_the_earlier_state_with_its_events_applied() {
    let mut repo = Repository::new(memory()).without_concurrency_checking();
    let mut expected = Sum::default();
    for amounts in [vec![1], vec![], vec![5, -3], vec![10]] {
        for amount in &amounts {
            expected.apply(&Change::Added(*amount));
        }
        repo.execute_command::<Sum, Add>(&id(), &Add(amounts), &0).unwrap();
        assert_eq!(repo.load::<Sum>(&id()).unwrap(), expected);
    }
}

#[test]
fn a_refused_command_changes_nothing() {
    let mut repo = Repository::new(memory());
    repo.execute_command::<Sum, Add>(&id(), &Add(vec![2]), &0).unwrap();
    let refused = repo.execute_command::<Sum, Expect>(&id(), &Expect(3), &0);
    assert!(matches!(refused, Err(OptimisticCommandError::Aggregate(error)) if error == "sum is 2"));
    repo.execute_command::<Sum, Expect>(&id(), &Expect(2), &0).unwrap();
    assert_eq!(stored(repo.event_store()).len(), 1);

    let mut repo = repo.without_concurrency_checking();
    let refused = repo.execute_command::<Sum, Expect>(&id(), &Expect(3), &0);
    assert!(matches!(refused, Err(CommandError::Aggregate(_))));
    assert_eq!(stored(repo.event_store()).len(), 1);
}

#[test]
fn an_event_that_cannot_be_encoded_keeps_all_events_out() {
    let mut repo = Repository::new(memory());
    let failed =
        repo.execute_command::<Sum, WriteNothingSensible>(&id(), &WriteNothingSensible, &0);
    assert!(matches!(failed, Err(OptimisticCommandError::Codec(_))));
    assert!(stored(repo.event_store()).is_empty());

    let mut repo = repo.without_concurrency_checking();
    let failed =
        repo.execute_command::<Sum, WriteNothingSensible>(&id(), &WriteNothingSensible, &0);
    assert!(matches!(failed, Err(CommandError::Codec(_))));
    assert!(stored(repo.event_store()).is_empty());
}

#[test]
fn events_that_cannot_be_read_back_are_reported() {
    let mut repo = Repository::new(memory());
    repo.inject_raw_event(Sum::KIND, &id(), raw("added", b"x")).unwrap();
    assert!(matches!(
        repo.load::<Sum>(&id()),
        Err(ProjectionError::EventDecode(EventDecodeError::Codec(_)))
    ));
    let failed = repo.execute_command::<Sum, Add>(&id(), &Add(vec![1]), &0);
    assert!(matches!(failed, Err(OptimisticCommandError::Projection(_))));

    let mut repo = Repository::new(memory());
    repo.inject_raw_event(Sum::KIND, &id(), raw("listed-but-unread", b"1")).unwrap();
    match repo.load::<Sum>(&id()) {
        Err(ProjectionError::EventDecode(EventDecodeError::UnknownKind { kind, expected })) => {
            assert_eq!(kind, "listed-but-unread");
            assert_eq!(expected, ["added", "listed-but-unread"]);
        }
        other => panic!("unexpected outcome: {other:?}"),
    }
}

#[test]
fn an_event_of_a_foreign_kind_is_no_conflict_for_a_sole_writer() {
    let mut repo = Repository::new(memory());
    repo.inject_raw_event(Sum::KIND, &id(), raw("legacy", b"")).unwrap();
    repo.execute_command::<Sum, Add>(&id(), &Add(vec![2]), &0).unwrap();
    assert_eq!(repo.event_store().stream_version(Sum::KIND, &id()).unwrap(), Some(1));

    repo.inject_raw_event(Sum::KIND, &id(), raw("legacy", b"")).unwrap();
    let attempts = repo.execute_with_retry::<Sum, Add>(&id(), &Add(vec![3]), &0, 4).unwrap();
    assert_eq!(attempts, 1);
    assert_eq!(repo.load::<Sum>(&id()).unwrap(), Sum { value: 5 });

    let mut repo = repo.with_snapshots(InMemorySnapshotStore::always());
    repo.execute_command::<Sum, Add>(&id(), &Add(vec![4]), &0).unwrap();
    repo.execute_command::<Sum, Add>(&id(), &Add(vec![5]), &0).unwrap();
    assert_eq!(repo.load::<Sum>(&id()).unwrap(), Sum { value: 14 });
    assert_eq!(repo.event_store().stream_version(Sum::KIND, &id()).unwrap(), Some(5));
}

#[test]
fn an_event_that_another_writer_adds_while_loading_is_a_conflict() {
    let script = Script { write_while_loading: true, ..Script::default() };
    let mut repo = Repository::new(Scripted::new(script));
    let failed = repo.execute_command::<Sum, Add>(&id(), &Add(vec![1]), &0);
    match failed {
        Err(OptimisticCommandError::Concurrency(conflict)) => {
            assert_eq!(conflict, ConcurrencyConflict { expected: None, actual: Some(0) });
        }
        other => panic!("unexpected outcome: {other:?}"),
    }
    let attempts = repo.execute_with_retry::<Sum, Add>(&id(), &Add(vec![1]), &0, 1).unwrap();
    assert_eq!(attempts, 1);
    assert_eq!(repo.load::<Sum>(&id()).unwrap(), Sum { value: 101 });
}

#[test]
fn retries_stop_at_the_first_success() {
    for conflicts in 0..=3 {
        let mut repo = Repository::new(Scripted::new(Script { conflicts, ..Script::default() }));
        let attempts = repo
            .execute_with_retry::<Sum, Add>(&id(), &Add(vec![1]), &0, 3)
            .unwrap();
        assert_eq!(attempts, conflicts + 1);
        assert_eq!(repo.load::<Sum>(&id()).unwrap(), Sum { value: 1 });
    }
}

#[test]
fn retries_end_in_a_conflict_when_none_is_left() {
    let mut repo = Repository::new(Scripted::new(Script { conflicts: 4, ..Script::default() }));
    let failed = repo.execute_with_retry::<Sum, Add>(&id(), &Add(vec![1]), &0, 3);
    assert!(matches!(failed, Err(OptimisticCommandError::Concurrency(_))));
    assert_eq!(repo.event_store().script.borrow().appends_seen, 4);

    let mut repo = Repository::new(Scripted::new(Script { conflicts: 1, ..Script::default() }));
    let failed = repo.execute_with_retry::<Sum, Add>(&id(), &Add(vec![1]), &0, 0);
    assert!(matches!(failed, Err(OptimisticCommandError::Concurrency(_))));
}

#[test]
fn retries_can_be_without_limit() {
    let mut repo = Repository::new(Scripted::new(Script { conflicts: 2, ..Script::default() }));
    let attempts = repo.execute_with_retry::<Sum, Add>(&id(), &Add(vec![1]), &0, usize::MAX);
    assert!(matches!(attempts, Ok(3)));
}

#[test]
fn other_errors_end_the_retries_at_once() {
    let script = Script { conflicts: 1, fail_append: true, ..Script::default() };
    let mut repo = Repository::new(Scripted::new(script));
    let failed = repo.execute_with_retry::<Sum, Add>(&id(), &Add(vec![1]), &0, 5);
    assert!(matches!(failed, Err(OptimisticCommandError::Store(error)) if error == "append failed"));
    assert_eq!(repo.event_store().script.borrow().appends_seen, 2);
}

#[test]
fn failures_of_the_store_are_passed_on() {
    let script = || Script { fail_load: true, ..Script::default() };
    let mut repo = Repository::new(Scripted::new(script()));
    assert!(matches!(
        repo.load::<Sum>(&id()),
        Err(ProjectionError::Store(error)) if error == "load failed"
    ));
    assert!(matches!(
        repo.execute_command::<Sum, Add>(&id(), &Add(vec![1]), &0),
        Err(OptimisticCommandError::Projection(ProjectionError::Store(_)))
    ));

    let script = || Script { fail_append: true, ..Script::default() };
    let mut repo = Repository::new(Scripted::new(script())).without_concurrency_checking();
    assert!(matches!(
        repo.execute_command::<Sum, Add>(&id(), &Add(vec![1]), &0),
        Err(CommandError::Store(error)) if error == "append failed"
    ));

    let mut repo = Repository::new(Scripted::new(script()))
        .with_snapshots(InMemorySnapshotStore::always());
    assert!(matches!(
        repo.execute_command::<Sum, Add>(&id(), &Add(vec![1]), &0),
        Err(OptimisticSnapshotCommandError::Store(_))
    ));
    assert!(repo.snapshot_store().load(Sum::KIND, &id()).unwrap().is_none());

    let mut repo = Repository::new(Scripted::new(script()))
        .with_snapshots(InMemorySnapshotStore::always())
        .without_concurrency_checking();
    assert!(matches!(
        repo.execute_command::<Sum, Add>(&id(), &Add(vec![1]), &0),
        Err(SnapshotCommandError::Store(_))
    ));
}

#[test]
fn only_commands_with_version_checking_ask_for_the_version() {
    let script = || Script { versions_left: Some(0), ..Script::default() };
    let mut repo = Repository::new(Scripted::new(script()));
    assert_eq!(repo.load::<Sum>(&id()).unwrap(), Sum { value: 0 });
    assert_eq!(repo.aggregate_builder::<Sum>().load(&id()).unwrap(), Sum { value: 0 });
    assert!(matches!(
        repo.execute_command::<Sum, Add>(&id(), &Add(vec![1]), &0),
        Err(OptimisticCommandError::Projection(ProjectionError::Store(error)))
            if error == "version failed"
    ));
    assert_eq!(repo.event_store().script.borrow().appends_seen, 0);

    let mut repo = repo.without_concurrency_checking();
    repo.execute_command::<Sum, Add>(&id(), &Add(vec![1]), &0).unwrap();
    assert_eq!(repo.load::<Sum>(&id()).unwrap(), Sum { value: 1 });
    assert_eq!(repo.aggregate_builder::<Sum>().load(&id()).unwrap(), Sum { value: 1 });

    let mut repo = repo.with_snapshots(InMemorySnapshotStore::never());
    repo.execute_command::<Sum, Add>(&id(), &Add(vec![2]), &0).unwrap();
    assert_eq!(repo.load::<Sum>(&id()).unwrap(), Sum { value: 3 });
    assert_eq!(repo.aggregate_builder::<Sum>().load(&id()).unwrap(), Sum { value: 3 });

    let mut repo = Repository::new(Scripted::new(script()))
        .with_snapshots(InMemorySnapshotStore::never());
    assert!(matches!(
        repo.execute_command::<Sum, Add>(&id(), &Add(vec![1]), &0),
        Err(OptimisticSnapshotCommandError::Projection(ProjectionError::Store(_)))
    ));
    assert_eq!(repo.load::<Sum>(&id()).unwrap(), Sum { value: 0 });
}

#[test]
fn a_version_that_cannot_be_told_leaves_the_snapshot_out() {
    let script = || Script { versions_left: Some(1), ..Script::default() };
    let mut repo = Repository::new(Scripted::new(script()))
        .with_snapshots(InMemorySnapshotStore::always());
    assert!(matches!(
        repo.execute_command::<Sum, Add>(&id(), &Add(vec![1]), &0),
        Err(OptimisticSnapshotCommandError::Store(error)) if error == "version failed"
    ));
    assert!(repo.snapshot_store().load(Sum::KIND, &id()).unwrap().is_none());
    repo.event_store().script.borrow_mut().versions_left = None;
    assert_eq!(repo.load::<Sum>(&id()).unwrap(), Sum { value: 1 });

    let mut repo = Repository::new(Scripted::new(script()))
        .with_snapshots(InMemorySnapshotStore::never());
    repo.execute_command::<Sum, Add>(&id(), &Add(vec![1]), &0).unwrap();
}

#[test]
fn a_snapshot_is_taken_at_the_version_of_the_stream() {
    let mut repo = Repository::new(memory()).with_snapshots(InMemorySnapshotStore::always());
    repo.execute_command::<Sum, Add>(&"other".to_string(), &Add(vec![9]), &0).unwrap();
    repo.execute_command::<Sum, Add>(&id(), &Add(vec![2, 3]), &0).unwrap();

    let snapshot = repo.snapshot_store().load(Sum::KIND, &id()).unwrap().unwrap();
    assert_eq!(snapshot.position, 2);
    assert_eq!(snapshot.data, b"5".to_vec());

    repo.execute_command::<Sum, Add>(&id(), &Add(vec![4]), &0).unwrap();
    let snapshot = repo.snapshot_store().load(Sum::KIND, &id()).unwrap().unwrap();
    assert_eq!(snapshot.position, 3);
    assert_eq!(snapshot.data, b"9".to_vec());
    assert_eq!(repo.load::<Sum>(&id()).unwrap(), Sum { value: 9 });
}

#[test]
fn snapshots_are_taken_once_enough_events_have_come() {
    let mut repo = Repository::new(memory()).with_snapshots(InMemorySnapshotStore::every(3));
    let position = |repo: &event_sourcing::SnapshotRepository<Memory, InMemorySnapshotStore<String, u64>>| {
        repo.snapshot_store()
            .load(Sum::KIND, &id())
            .unwrap()
            .map(|snapshot| snapshot.position)
    };
    let mut seen = vec![];
    for _ in 0..7 {
        repo.execute_command::<Sum, Add>(&id(), &Add(vec![1]), &0).unwrap();
        seen.push(position(&repo));
    }
    assert_eq!(
        seen,
        vec![None, None, Some(2), Some(2), Some(2), Some(5), Some(5)]
    );
    assert_eq!(repo.load::<Sum>(&id()).unwrap(), Sum { value: 7 });
}

#[test]
fn with_and_without_snapshots_the_same_state_is_loaded() {
    let amounts = [vec![1, 2], vec![3], vec![], vec![4, 5, 6], vec![7]];
    let mut plain = Repository::new(memory());
    let mut snapped = Repository::new(memory()).with_snapshots(InMemorySnapshotStore::every(2));
    let mut refused = Repository::new(memory()).with_snapshots(NoSnapshots::new());
    for command in amounts {
        plain.execute_command::<Sum, Add>(&id(), &Add(command.clone()), &0).unwrap();
        snapped.execute_command::<Sum, Add>(&id(), &Add(command.clone()), &0).unwrap();
        refused.execute_command::<Sum, Add>(&id(), &Add(command), &0).unwrap();
        let expected = plain.load::<Sum>(&id()).unwrap();
        assert_eq!(snapped.load::<Sum>(&id()).unwrap(), expected);
        assert_eq!(refused.load::<Sum>(&id()).unwrap(), expected);
        assert!(refused.snapshot_store().load(Sum::KIND, &id()).unwrap().is_none());
    }
}

/// Holds one snapshot and refuses all that are offered.
struct Fixed {
    snapshot: Snapshot<u64>,
}

impl SnapshotStore for Fixed {
    type Id = String;
    type Position = u64;
    type Error = String;

    fn load(&self, _: &str, _: &String) -> Result<Option<Snapshot<u64>>, String> {
        Ok(Some(self.snapshot.clone()))
    }

    fn offer_snapshot(
        &mut self,
        _: &str,
        _: &String,
        snapshot: Snapshot<u64>,
        events_since_last_snapshot: u64,
    ) -> Result<(), String> {
        Err(format!("refused {} at {}", events_since_last_snapshot, snapshot.position))
    }
}

#[test]
fn only_events_after_the_snapshot_are_replayed() {
    let mut plain = Repository::new(memory());
    plain.execute_command::<Sum, Add>(&id(), &Add(vec![1, 2, 4]), &0).unwrap();
    let fixed = Fixed {
        snapshot: Snapshot { position: 1, data: b"100".to_vec() },
    };
    let mut repo = plain.with_snapshots(fixed);
    assert_eq!(repo.load::<Sum>(&id()).unwrap(), Sum { value: 104 });

    let failed = repo.execute_command::<Sum, Add>(&id(), &Add(vec![8, 16]), &0);
    assert!(matches!(
        failed,
        Err(OptimisticSnapshotCommandError::Snapshot(error)) if error == "refused 3 at 4"
    ));
    assert_eq!(stored(repo.event_store()).len(), 5);

    let mut repo = repo.without_concurrency_checking();
    let failed = repo.execute_command::<Sum, Add>(&id(), &Add(vec![32]), &0);
    assert!(matches!(
        failed,
        Err(SnapshotCommandError::Snapshot(error)) if error == "refused 4 at 5"
    ));
}

#[test]
fn a_snapshot_that_cannot_be_decoded_is_reported() {
    let mut plain = Repository::new(memory());
    plain.execute_command::<Sum, Add>(&id(), &Add(vec![1]), &0).unwrap();
    let fixed = Fixed {
        snapshot: Snapshot { position: 0, data: b"-1".to_vec() },
    };
    let mut repo = plain.with_snapshots(fixed);
    assert!(matches!(
        repo.load::<Sum>(&id()),
        Err(ProjectionError::SnapshotDeserialize(_))
    ));
    assert!(matches!(
        repo.execute_command::<Sum, Add>(&id(), &Add(vec![1]), &0),
        Err(OptimisticSnapshotCommandError::Projection(_))
    ));
    assert_eq!(stored(repo.event_store()).len(), 1);
}

#[test]
fn commands_with_snapshots_fail_as_those_without() {
    let mut repo = Repository::new(memory()).with_snapshots(InMemorySnapshotStore::never());
    assert!(matches!(
        repo.execute_command::<Sum, Expect>(&id(), &Expect(3), &0),
        Err(OptimisticSnapshotCommandError::Aggregate(_))
    ));
    assert!(matches!(
        repo.execute_command::<Sum, WriteNothingSensible>(&id(), &WriteNothingSensible, &0),
        Err(OptimisticSnapshotCommandError::Codec(_))
    ));
    assert!(stored(repo.event_store()).is_empty());

    let mut repo = repo.without_concurrency_checking();
    assert!(matches!(
        repo.execute_command::<Sum, Expect>(&id(), &Expect(3), &0),
        Err(SnapshotCommandError::Aggregate(_))
    ));
    assert!(matches!(
        repo.execute_command::<Sum, WriteNothingSensible>(&id(), &WriteNothingSensible, &0),
        Err(SnapshotCommandError::Codec(_))
    ));
    assert!(stored(repo.event_store()).is_empty());
}

#[test]
fn retries_with_snapshots_count_attempts() {
    let mut repo = Repository::new(Scripted::new(Script { conflicts: 2, ..Script::default() }))
        .with_snapshots(InMemorySnapshotStore::always());
    let attempts = repo
        .execute_with_retry::<Sum, Add>(&id(), &Add(vec![1]), &0, 2)
        .unwrap();
    assert_eq!(attempts, 3);

    let mut repo = Repository::new(Scripted::new(Script { conflicts: 9, ..Script::default() }))
        .with_snapshots(InMemorySnapshotStore::always());
    let failed = repo.execute_with_retry::<Sum, Add>(&id(), &Add(vec![1]), &0, 2);
    assert!(matches!(failed, Err(OptimisticSnapshotCommandError::Concurrency(_))));
    assert_eq!(repo.event_store().script.borrow().appends_seen, 3);

    let failed = repo.execute_with_retry::<Sum, Expect>(&id(), &Expect(5), &0, 2);
    assert!(matches!(failed, Err(OptimisticSnapshotCommandError::Aggregate(_))));
}

#[test]
fn the_default_snapshot_store_keeps_every_snapshot() {
    let mut snapshots: InMemorySnapshotStore<String, u64> = InMemorySnapshotStore::default();
    assert!(snapshots.should_snapshot("sum", &id(), 0));
    for position in 0..3 {
        let data = vec![position as u8];
        snapshots.offer_snapshot("sum", &id(), Snapshot { position, data }, 0).unwrap();
    }
    let data = vec![77];
    snapshots
        .offer_snapshot("sum", &"other".to_string(), Snapshot { position: 9, data }, 0)
        .unwrap();

    let kept = snapshots.load("sum", &id()).unwrap().unwrap();
    assert_eq!((kept.position, kept.data), (2, vec![2]));
    let other = snapshots.load("sum", &"other".to_string()).unwrap().unwrap();
    assert_eq!((other.position, other.data), (9, vec![77]));
    assert!(snapshots.load("difference", &id()).unwrap().is_none());
}

#[test]
fn policies_say_when_to_take_a_snapshot() {
    let every = InMemorySnapshotStore::<String, u64>::every(3);
    assert!(!every.should_snapshot("sum", &id(), 2));
    assert!(every.should_snapshot("sum", &id(), 3));
    assert!(every.should_snapshot("sum", &id(), 4));
    let never = InMemorySnapshotStore::<String, u64>::never();
    assert!(!never.should_snapshot("sum", &id(), u64::MAX));
    let mut none = NoSnapshots::<String, u64>::default();
    assert!(!none.should_snapshot("sum", &id(), u64::MAX));
    none.offer_snapshot("sum", &id(), Snapshot { position: 0, data: vec![] }, 1).unwrap();
    assert!(none.load("sum", &id()).unwrap().is_none());
}

/// An identifier of two numbers.
#[derive(Debug, Clone, PartialEq, Eq)]
struct Place {
    row: u32,
    column: u32,
}

impl AggregateId for Place {
    type Key = (u32, u32);

    fn key(&self) -> (u32, u32) {
        (self.row, self.column)
    }

    fn same(&self, other: &Self) -> bool {
        self == other
    }

    fn duplicate(&self) -> Self {
        self.clone()
    }
}

#[derive(Debug, Default, PartialEq, Eq)]
struct Cell {
    value: i64,
}

impl Aggregate for Cell {
    const KIND: &'static str = "cell";
    type Event = Change;
    type Error = String;
    type Id = Place;

    fn apply(&mut self, event: &Change) {
        if let Change::Added(amount) = event {
            self.value += amount;
        }
    }
}

impl Handle<Add> for Cell {
    fn handle(&self, command: &Add) -> Result<Vec<Change>, String> {
        Ok(command.0.iter().map(|amount| Change::Added(*amount)).collect())
    }
}

#[test]
fn integers_are_identifiers() {
    let mut store = InMemoryEventStore::<i64, JsonCodec, u8>::new(JsonCodec);
    store.append("sum", &-1, None, vec![raw("added", b"1")]).unwrap();
    store.append("sum", &1, None, vec![raw("added", b"2")]).unwrap();
    assert_eq!(store.stream_version("sum", &-1).unwrap(), Some(0));
    assert_eq!(store.stream_version("sum", &1).unwrap(), Some(1));
    assert_eq!(store.stream_version("sum", &0).unwrap(), None);

    let mut snapshots = InMemorySnapshotStore::<u32, u64>::always();
    snapshots.offer_snapshot("sum", &7, Snapshot { position: 3, data: vec![1] }, 1).unwrap();
    assert_eq!(snapshots.load("sum", &7).unwrap().unwrap().position, 3);
    assert!(snapshots.load("sum", &8).unwrap().is_none());
    assert!(7u8.same(&7) && !7u8.same(&8));
    assert_eq!(usize::MAX.duplicate(), usize::MAX);
}

#[test]
fn identifiers_can_be_of_any_type() {
    let here = Place { row: 1, column: 2 };
    let there = Place { row: 2, column: 1 };
    let mut repo = Repository::new(InMemoryEventStore::<Place, JsonCodec, ()>::new(JsonCodec));
    repo.execute_command::<Cell, Add>(&here, &Add(vec![5]), &()).unwrap();
    repo.execute_command::<Cell, Add>(&there, &Add(vec![7]), &()).unwrap();
    assert_eq!(repo.load::<Cell>(&here).unwrap(), Cell { value: 5 });
    assert_eq!(repo.load::<Cell>(&there).unwrap(), Cell { value: 7 });
    assert_eq!(repo.event_store().stream_version("cell", &there).unwrap(), Some(1));
}
