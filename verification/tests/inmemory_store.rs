//! The in-memory event store: positions, versions, filters and transactions.

use event_sourcing::codec::{Codec, SerializableEvent};
use event_sourcing::concurrency::{ConcurrencyConflict, Optimistic, Unchecked};
use event_sourcing::store::{
    AppendError, EventFilter, EventStore, PersistableEvent, StoredEvent, Transaction,
};
use event_sourcing::{InMemoryEventStore, JsonCodec};

type Store = InMemoryEventStore<String, JsonCodec, &'static str>;
type Filter = EventFilter<String, u64>;

fn new_store() -> Store {
    InMemoryEventStore::new(JsonCodec)
}

fn event(kind: &str, data: u8) -> PersistableEvent<&'static str> {
    PersistableEvent {
        kind: kind.to_string(),
        data: vec![data],
        metadata: "meta",
    }
}

fn put(store: &mut Store, aggregate: &str, id: &str, kinds: &[&str]) {
    let events = kinds.iter().map(|kind| event(kind, 0)).collect();
    store
        .append(aggregate, &id.to_string(), None, events)
        .unwrap();
}

fn for_event(kind: &str) -> Filter {
    EventFilter::for_event(kind)
}

fn for_aggregate(kind: &str, aggregate: &str, id: &str) -> Filter {
    EventFilter::for_aggregate(kind, aggregate, id)
}

fn positions(store: &Store, filters: &[Filter]) -> Vec<u64> {
    let events = store.load_events(filters).unwrap();
    events.iter().map(|event| event.position).collect()
}

#[test]
fn filters_hold_what_they_were_made_of() {
    let all = for_event("added");
    assert_eq!(all.event_kind, "added");
    assert_eq!(all.aggregate_kind, None);
    assert_eq!(all.aggregate_id, None);
    assert_eq!(all.after_position, None);

    let one = for_aggregate("added", "counter", "c1").after(7);
    assert_eq!(one.event_kind, "added");
    assert_eq!(one.aggregate_kind, Some("counter".to_string()));
    assert_eq!(one.aggregate_id, Some("c1".to_string()));
    assert_eq!(one.after_position, Some(7));
    assert_eq!(one.clone().after(9).after_position, Some(9));
}

#[test]
fn an_empty_store_has_no_versions_and_no_events() {
    let store = new_store();
    assert_eq!(store.stream_version("counter", &"c1".to_string()).unwrap(), None);
    assert!(positions(&store, &[for_event("added")]).is_empty());
    assert!(positions(&store, &[]).is_empty());
}

#[test]
fn positions_are_global_and_versions_are_last_positions() {
    let mut store = new_store();
    put(&mut store, "counter", "c1", &["added", "added"]);
    put(&mut store, "counter", "c2", &["added"]);
    put(&mut store, "counter", "c1", &["added"]);

    assert_eq!(store.stream_version("counter", &"c1".to_string()).unwrap(), Some(3));
    assert_eq!(store.stream_version("counter", &"c2".to_string()).unwrap(), Some(2));
    assert_eq!(store.stream_version("gauge", &"c1".to_string()).unwrap(), None);
    assert_eq!(positions(&store, &[for_event("added")]), vec![0, 1, 2, 3]);
    assert_eq!(
        positions(&store, &[for_aggregate("added", "counter", "c1")]),
        vec![0, 1, 3]
    );
}

#[test]
fn appending_nothing_keeps_the_version() {
    let mut store = new_store();
    put(&mut store, "counter", "c1", &["added"]);
    put(&mut store, "counter", "c1", &[]);
    put(&mut store, "counter", "c2", &[]);
    assert_eq!(store.stream_version("counter", &"c1".to_string()).unwrap(), Some(0));
    assert_eq!(store.stream_version("counter", &"c2".to_string()).unwrap(), None);
}

#[test]
fn what_was_written_is_read_back() {
    let mut store = new_store();
    put(&mut store, "counter", "other", &["added"]);
    store
        .append(
            "counter",
            &"c1".to_string(),
            None,
            vec![event("added", 7), event("removed", 8)],
        )
        .unwrap();

    let loaded: Vec<StoredEvent<String, u64, &'static str>> = store
        .load_events(&[
            for_aggregate("removed", "counter", "c1"),
            for_aggregate("added", "counter", "c1"),
        ])
        .unwrap();

    assert_eq!(loaded.len(), 2);
    assert_eq!(loaded[0].aggregate_kind, "counter");
    assert_eq!(loaded[0].aggregate_id, "c1");
    assert_eq!(loaded[0].kind, "added");
    assert_eq!(loaded[0].position, 1);
    assert_eq!(loaded[0].data, vec![7]);
    assert_eq!(loaded[0].metadata, "meta");
    assert_eq!(loaded[1].kind, "removed");
    assert_eq!(loaded[1].position, 2);
    assert_eq!(loaded[1].data, vec![8]);
}

#[test]
fn an_append_adds_to_what_is_loaded() {
    let filters = [for_event("removed").after(0), for_aggregate("added", "counter", "c1").after(0)];
    let mut store = new_store();
    put(&mut store, "counter", "c1", &["added", "removed", "added"]);
    put(&mut store, "counter", "c2", &["added", "removed"]);
    let earlier = positions(&store, &filters);
    assert_eq!(earlier, vec![1, 2, 4]);

    put(&mut store, "counter", "c1", &["removed", "renamed", "added"]);
    let later = positions(&store, &filters);
    assert_eq!(later[..earlier.len()], earlier[..]);
    assert_eq!(later[earlier.len()..], [5, 7]);
}

#[test]
fn only_events_after_the_position_are_loaded() {
    let mut store = new_store();
    put(&mut store, "counter", "c1", &["added", "added", "added"]);
    let filter = for_aggregate("added", "counter", "c1");
    assert_eq!(positions(&store, &[filter.clone().after(0)]), vec![1, 2]);
    assert_eq!(positions(&store, &[filter.clone().after(1)]), vec![2]);
    assert!(positions(&store, &[filter.after(2)]).is_empty());
    assert_eq!(positions(&store, &[for_event("added").after(1)]), vec![2]);
}

#[test]
fn filters_are_merged_by_position_without_duplicates() {
    let mut store = new_store();
    put(&mut store, "counter", "c1", &["added", "removed"]);
    put(&mut store, "counter", "c2", &["added", "removed"]);

    assert_eq!(
        positions(&store, &[for_event("removed"), for_event("added")]),
        vec![0, 1, 2, 3]
    );
    assert_eq!(
        positions(
            &store,
            &[for_event("added"), for_aggregate("added", "counter", "c1"), for_event("added")]
        ),
        vec![0, 2]
    );
    assert_eq!(
        positions(&store, &[for_aggregate("removed", "counter", "c2"), for_event("added")]),
        vec![0, 2, 3]
    );
}

#[test]
fn a_filter_that_starts_later_takes_nothing_from_another() {
    let mut store = new_store();
    put(&mut store, "counter", "c1", &["added", "added", "added"]);
    let scoped = for_aggregate("added", "counter", "c1");

    assert_eq!(
        positions(&store, &[for_event("added"), for_event("added").after(1)]),
        vec![0, 1, 2]
    );
    assert_eq!(
        positions(&store, &[for_event("added").after(1), for_event("added")]),
        vec![0, 1, 2]
    );
    assert_eq!(positions(&store, &[scoped.clone(), scoped.clone().after(0)]), vec![0, 1, 2]);
    assert_eq!(
        positions(&store, &[for_event("added").after(1), scoped.clone().after(0)]),
        vec![1, 2]
    );
    assert_eq!(positions(&store, &[scoped.clone().after(0), scoped]), vec![0, 1, 2]);
}

#[test]
fn a_narrow_filter_hides_nothing_from_a_wide_one() {
    let mut store = new_store();
    put(&mut store, "counter", "c1", &["added", "added"]);
    put(&mut store, "counter", "c2", &["added"]);
    let scoped = for_aggregate("added", "counter", "c1");

    assert_eq!(
        positions(&store, &[scoped.clone().after(0), for_event("added")]),
        vec![0, 1, 2]
    );
    assert_eq!(
        positions(&store, &[scoped.after(1), for_event("added")]),
        vec![0, 1, 2]
    );
}

#[test]
fn a_filter_with_half_an_aggregate_counts_as_unscoped() {
    let mut store = new_store();
    put(&mut store, "counter", "c1", &["added"]);
    put(&mut store, "gauge", "g1", &["added"]);

    let mut only_kind = for_event("added");
    only_kind.aggregate_kind = Some("counter".to_string());
    let mut only_id = for_event("added");
    only_id.aggregate_id = Some("g1".to_string());

    assert_eq!(positions(&store, &[only_kind]), vec![0, 1]);
    assert_eq!(positions(&store, &[only_id]), vec![0, 1]);
}

#[test]
fn streams_are_told_apart_by_kind_and_identifier() {
    let mut store = new_store();
    put(&mut store, "a", "b::c", &["added"]);

    assert_eq!(store.stream_version("a", &"b::c".to_string()).unwrap(), Some(0));
    assert_eq!(store.stream_version("a::b", &"c".to_string()).unwrap(), None);
    assert!(positions(&store, &[for_aggregate("added", "a::b", "c")]).is_empty());
    assert_eq!(
        positions(
            &store,
            &[for_aggregate("added", "a", "b::c"), for_aggregate("added", "a::b", "c")]
        ),
        vec![0]
    );
    store
        .append_expecting_new("a::b", &"c".to_string(), vec![event("added", 1)])
        .unwrap();
    assert_eq!(store.stream_version("a::b", &"c".to_string()).unwrap(), Some(1));
    assert_eq!(store.stream_version("a", &"b::c".to_string()).unwrap(), Some(0));
}

#[test]
fn an_append_with_another_expected_version_is_refused() {
    let mut store = new_store();
    let id = "c1".to_string();
    put(&mut store, "counter", "c1", &["added", "added"]);

    let refused = store.append("counter", &id, Some(0), vec![event("added", 1)]);
    match refused {
        Err(AppendError::Conflict(conflict)) => {
            assert_eq!(conflict, ConcurrencyConflict { expected: Some(0), actual: Some(1) });
        }
        other => panic!("unexpected outcome: {other:?}"),
    }
    assert_eq!(positions(&store, &[for_event("added")]), vec![0, 1]);

    store
        .append("counter", &id, Some(1), vec![event("added", 1)])
        .unwrap();
    assert_eq!(store.stream_version("counter", &id).unwrap(), Some(2));

    match store.append("counter", &"new".to_string(), Some(5), vec![]) {
        Err(AppendError::Conflict(conflict)) => {
            assert_eq!(conflict, ConcurrencyConflict { expected: Some(5), actual: None });
        }
        other => panic!("unexpected outcome: {other:?}"),
    }
}

#[test]
fn a_stream_that_must_be_new_is_started_once() {
    let mut store = new_store();
    let id = "c1".to_string();

    store
        .append_expecting_new("counter", &id, vec![event("added", 1)])
        .unwrap();
    match store.append_expecting_new("counter", &id, vec![event("added", 2)]) {
        Err(AppendError::Conflict(conflict)) => {
            assert_eq!(conflict, ConcurrencyConflict { expected: None, actual: Some(0) });
        }
        other => panic!("unexpected outcome: {other:?}"),
    }
    assert_eq!(positions(&store, &[for_event("added")]), vec![0]);
}

struct Noted(u8);

impl<C: Codec> SerializableEvent<C> for Noted {
    fn to_persistable<M>(self, codec: &C, metadata: M) -> Result<PersistableEvent<M>, C::Error> {
        Ok(PersistableEvent {
            kind: "noted".to_string(),
            data: codec.serialize(&self.0)?,
            metadata,
        })
    }
}

#[test]
fn a_transaction_writes_on_commit_only() {
    let mut store = new_store();
    let id = "c1".to_string();
    {
        let mut tx: Transaction<'_, Store, Unchecked> = store.begin("counter", id.clone(), None);
        tx.append(Noted(1), "first").unwrap();
    }
    assert_eq!(store.stream_version("counter", &id).unwrap(), None);

    let mut tx: Transaction<'_, Store, Unchecked> = store.begin("counter", id.clone(), None);
    tx.append(Noted(1), "first").unwrap();
    tx.append(Noted(2), "second").unwrap();
    tx.commit().unwrap();

    let loaded = store
        .load_events(&[for_aggregate("noted", "counter", "c1")])
        .unwrap();
    assert_eq!(loaded.len(), 2);
    assert_eq!(loaded[0].data, b"1".to_vec());
    assert_eq!(loaded[0].metadata, "first");
    assert_eq!(loaded[1].data, b"2".to_vec());
    assert_eq!(loaded[1].metadata, "second");
}

#[test]
fn an_optimistic_transaction_checks_the_version() {
    let mut store = new_store();
    let id = "c1".to_string();

    let mut tx: Transaction<'_, Store, Optimistic> = store.begin("counter", id.clone(), None);
    tx.append(Noted(1), "m").unwrap();
    tx.commit().unwrap();

    let mut tx: Transaction<'_, Store, Optimistic> = store.begin("counter", id.clone(), None);
    tx.append(Noted(2), "m").unwrap();
    assert!(matches!(
        tx.commit(),
        Err(AppendError::Conflict(ConcurrencyConflict { expected: None, actual: Some(0) }))
    ));

    let mut tx: Transaction<'_, Store, Optimistic> = store.begin("counter", id.clone(), Some(0));
    tx.append(Noted(3), "m").unwrap();
    tx.commit().unwrap();

    let mut tx: Transaction<'_, Store, Optimistic> = store.begin("counter", id.clone(), Some(0));
    tx.append(Noted(4), "m").unwrap();
    assert!(matches!(
        tx.commit(),
        Err(AppendError::Conflict(ConcurrencyConflict { expected: Some(0), actual: Some(1) }))
    ));
    assert_eq!(positions(&store, &[for_event("noted")]), vec![0, 1]);
}

#[test]
fn an_unchecked_transaction_ignores_the_expected_version() {
    let mut store = new_store();
    let id = "c1".to_string();
    put(&mut store, "counter", "c1", &["added"]);

    let mut tx: Transaction<'_, Store, Unchecked> = store.begin("counter", id.clone(), Some(99));
    tx.append(Noted(1), "m").unwrap();
    tx.commit().unwrap();
    assert_eq!(store.stream_version("counter", &id).unwrap(), Some(1));
}

#[test]
fn the_json_codec_writes_and_reads_json() {
    let bytes = JsonCodec.serialize(&vec![1, 2, 3]).unwrap();
    assert_eq!(bytes, b"[1,2,3]".to_vec());
    let read: Vec<i32> = JsonCodec.deserialize(&bytes).unwrap();
    assert_eq!(read, vec![1, 2, 3]);
    let failed: Result<i32, _> = JsonCodec.deserialize(b"not-json");
    assert!(failed.is_err());
}
