//! Projections over the in-memory store.

use event_sourcing::codec::{Codec, EventDecodeError, ProjectionEvent, SerializableEvent};
use event_sourcing::store::{EventStore, PersistableEvent};
use event_sourcing::{
    Aggregate, ApplyProjection, DomainEvent, InMemoryEventStore, JsonCodec, Projection,
    ProjectionError, Repository,
};
use serde::{Deserialize, Deserializer};

#[derive(Debug, Clone, PartialEq, Eq)]
struct Opened(i64);

#[derive(Debug, Clone, PartialEq, Eq)]
struct Closed(i64);

impl<'de> Deserialize<'de> for Opened {
    fn deserialize<D: Deserializer<'de>>(deserializer: D) -> Result<Self, D::Error> {
        i64::deserialize(deserializer).map(Opened)
    }
}

impl<'de> Deserialize<'de> for Closed {
    fn deserialize<D: Deserializer<'de>>(deserializer: D) -> Result<Self, D::Error> {
        i64::deserialize(deserializer).map(Closed)
    }
}

impl DomainEvent for Opened {
    const KIND: &'static str = "opened";
}

impl DomainEvent for Closed {
    const KIND: &'static str = "closed";
}

/// Both events, and a kind that can be listed but not read.
#[derive(Debug, Clone, PartialEq, Eq)]
enum DoorEvent {
    Opened(Opened),
    Closed(Closed),
}

impl<C: Codec> ProjectionEvent<C> for DoorEvent {
    const EVENT_KINDS: &'static [&'static str] = &["opened", "closed", "jammed"];

    fn from_stored(
        kind: &str,
        data: &[u8],
        codec: &C,
    ) -> Result<Self, EventDecodeError<C::Error>> {
        match kind {
            "opened" => codec
                .deserialize(data)
                .map(DoorEvent::Opened)
                .map_err(EventDecodeError::Codec),
            "closed" => codec
                .deserialize(data)
                .map(DoorEvent::Closed)
                .map_err(EventDecodeError::Codec),
            _ => Err(EventDecodeError::UnknownKind {
                kind: kind.to_string(),
                expected: <Self as ProjectionEvent<C>>::EVENT_KINDS,
            }),
        }
    }
}

impl<C: Codec> SerializableEvent<C> for DoorEvent {
    fn to_persistable<M>(self, codec: &C, metadata: M) -> Result<PersistableEvent<M>, C::Error> {
        let (kind, data) = match self {
            DoorEvent::Opened(event) => ("opened", codec.serialize(&event.0)?),
            DoorEvent::Closed(event) => ("closed", codec.serialize(&event.0)?),
        };
        Ok(PersistableEvent {
            kind: kind.to_string(),
            data,
            metadata,
        })
    }
}

#[derive(Debug, Default)]
struct Door;

impl Aggregate for Door {
    const KIND: &'static str = "door";
    type Event = DoorEvent;
    type Error = String;
    type Id = String;

    fn apply(&mut self, _: &DoorEvent) {}
}

/// Metadata as projections want it.
#[derive(Debug, Clone, PartialEq, Eq)]
struct Author(String);

impl From<&'static str> for Author {
    fn from(name: &'static str) -> Self {
        Author(name.to_uppercase())
    }
}

/// Notes what it is told, in order.
#[derive(Debug, Default)]
struct Journal {
    lines: Vec<String>,
}

impl Projection for Journal {
    type Metadata = Author;
}

impl ApplyProjection<String, Opened, Author> for Journal {
    fn apply_projection(&mut self, id: &String, event: &Opened, author: &Author) {
        self.lines.push(format!("{id} opened {} by {}", event.0, author.0));
    }
}

impl ApplyProjection<String, Closed, Author> for Journal {
    fn apply_projection(&mut self, id: &String, event: &Closed, author: &Author) {
        self.lines.push(format!("{id} closed {} by {}", event.0, author.0));
    }
}

impl ApplyProjection<String, DoorEvent, Author> for Journal {
    fn apply_projection(&mut self, id: &String, event: &DoorEvent, author: &Author) {
        self.lines.push(format!("{id} {event:?} by {}", author.0));
    }
}

type Store = InMemoryEventStore<String, JsonCodec, &'static str>;

fn put(store: &mut Store, id: &str, kind: &str, data: &[u8], author: &'static str) {
    let event = PersistableEvent {
        kind: kind.to_string(),
        data: data.to_vec(),
        metadata: author,
    };
    store.append("door", &id.to_string(), None, vec![event]).unwrap();
}

fn doors() -> Repository<Store> {
    let mut store = InMemoryEventStore::new(JsonCodec);
    put(&mut store, "d1", "opened", b"1", "ann");
    put(&mut store, "d2", "opened", b"2", "bob");
    put(&mut store, "d1", "closed", b"3", "cid");
    put(&mut store, "d2", "painted", b"4", "dan");
    put(&mut store, "d1", "opened", b"5", "eve");
    Repository::new(store)
}

#[test]
fn events_of_a_type_come_from_all_aggregates_in_order() {
    let journal: Journal = doors().build_projection().event::<Opened>().load().unwrap();
    assert_eq!(
        journal.lines,
        vec!["d1 opened 1 by ANN", "d2 opened 2 by BOB", "d1 opened 5 by EVE"]
    );
}

#[test]
fn registrations_add_up_across_types() {
    let journal: Journal = doors()
        .build_projection()
        .event::<Closed>()
        .event::<Opened>()
        .load()
        .unwrap();
    assert_eq!(
        journal.lines,
        vec![
            "d1 opened 1 by ANN",
            "d2 opened 2 by BOB",
            "d1 closed 3 by CID",
            "d1 opened 5 by EVE"
        ]
    );
}

#[test]
fn events_of_one_aggregate_leave_the_others_out() {
    let journal: Journal = doors()
        .build_projection()
        .event_for::<Door, Opened>(&"d2".to_string())
        .event_for::<Door, Closed>(&"d1".to_string())
        .load()
        .unwrap();
    assert_eq!(journal.lines, vec!["d2 opened 2 by BOB", "d1 closed 3 by CID"]);
}

#[test]
fn events_of_a_sum_type_are_read_by_kind() {
    let journal: Journal = doors().build_projection().events::<DoorEvent>().load().unwrap();
    assert_eq!(
        journal.lines,
        vec![
            "d1 Opened(Opened(1)) by ANN",
            "d2 Opened(Opened(2)) by BOB",
            "d1 Closed(Closed(3)) by CID",
            "d1 Opened(Opened(5)) by EVE"
        ]
    );
}

#[test]
fn events_of_the_sum_type_of_one_aggregate() {
    let journal: Journal = doors()
        .build_projection()
        .events_for::<Door>(&"d1".to_string())
        .load()
        .unwrap();
    assert_eq!(
        journal.lines,
        vec![
            "d1 Opened(Opened(1)) by ANN",
            "d1 Closed(Closed(3)) by CID",
            "d1 Opened(Opened(5)) by EVE"
        ]
    );
}

#[test]
fn a_later_registration_for_a_kind_replaces_the_handler() {
    let journal: Journal = doors()
        .build_projection()
        .events::<DoorEvent>()
        .event::<Opened>()
        .load()
        .unwrap();
    assert_eq!(
        journal.lines,
        vec![
            "d1 opened 1 by ANN",
            "d2 opened 2 by BOB",
            "d1 Closed(Closed(3)) by CID",
            "d1 opened 5 by EVE"
        ]
    );

    let journal: Journal = doors()
        .build_projection()
        .event::<Opened>()
        .events_for::<Door>(&"d1".to_string())
        .load()
        .unwrap();
    assert_eq!(journal.lines[0], "d1 Opened(Opened(1)) by ANN");
    assert_eq!(journal.lines[1], "d2 Opened(Opened(2)) by BOB");
}

#[test]
fn a_projection_without_registrations_is_the_default() {
    let journal: Journal = doors().build_projection().load().unwrap();
    assert!(journal.lines.is_empty());
}

#[test]
fn data_of_an_event_type_that_cannot_be_decoded_is_reported_with_its_kind() {
    let mut store: Store = InMemoryEventStore::new(JsonCodec);
    put(&mut store, "d1", "opened", b"1", "ann");
    put(&mut store, "d1", "closed", b"never", "bob");
    let repo = Repository::new(store);
    let failed = repo
        .build_projection::<Journal>()
        .event::<Opened>()
        .event::<Closed>()
        .load();
    match failed {
        Err(ProjectionError::Codec { event_kind, .. }) => assert_eq!(event_kind, "closed"),
        other => panic!("unexpected outcome: {other:?}"),
    }
    let journal = repo.build_projection::<Journal>().event::<Opened>().load().unwrap();
    assert_eq!(journal.lines.len(), 1);
}

#[test]
fn an_event_of_a_sum_type_that_cannot_be_read_back_is_reported() {
    let mut store: Store = InMemoryEventStore::new(JsonCodec);
    put(&mut store, "d1", "jammed", b"1", "ann");
    let repo = Repository::new(store);
    match repo.build_projection::<Journal>().events::<DoorEvent>().load() {
        Err(ProjectionError::EventDecode(EventDecodeError::UnknownKind { kind, .. })) => {
            assert_eq!(kind, "jammed");
        }
        other => panic!("unexpected outcome: {other:?}"),
    }

    let mut store: Store = InMemoryEventStore::new(JsonCodec);
    put(&mut store, "d1", "opened", b"never", "ann");
    let repo = Repository::new(store);
    assert!(matches!(
        repo.build_projection::<Journal>()
            .events_for::<Door>(&"d1".to_string())
            .load(),
        Err(ProjectionError::EventDecode(EventDecodeError::Codec(_)))
    ));
}
