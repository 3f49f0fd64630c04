//! The given-when-then framework, on a counter.

use event_sourcing::test::TestFramework;
use event_sourcing::{Aggregate, Apply, Handle};

#[derive(Debug, Clone, PartialEq, Eq)]
struct ValueAdded {
    amount: i32,
}

#[derive(Debug, Clone, PartialEq, Eq)]
struct ValueSubtracted {
    amount: i32,
}

#[derive(Debug, Clone, PartialEq, Eq)]
enum CounterEvent {
    Added(ValueAdded),
    Subtracted(ValueSubtracted),
}

#[derive(Debug, Default)]
struct Counter {
    value: i32,
}

impl Aggregate for Counter {
    const KIND: &'static str = "counter";
    type Event = CounterEvent;
    type Error = String;
    type Id = String;

    fn apply(&mut self, event: &Self::Event) {
        match event {
            CounterEvent::Added(e) => Apply::apply(self, e),
            CounterEvent::Subtracted(e) => Apply::apply(self, e),
        }
    }
}

impl Apply<ValueAdded> for Counter {
    fn apply(&mut self, event: &ValueAdded) {
        self.value += event.amount;
    }
}

impl Apply<ValueSubtracted> for Counter {
    fn apply(&mut self, event: &ValueSubtracted) {
        self.value -= event.amount;
    }
}

struct AddValue {
    amount: i32,
}

struct SubtractValue {
    amount: i32,
}

struct DoNothing;

impl Handle<AddValue> for Counter {
    fn handle(&self, command: &AddValue) -> Result<Vec<Self::Event>, Self::Error> {
        if command.amount <= 0 {
            return Err("amount must be positive".to_string());
        }
        Ok(vec![CounterEvent::Added(ValueAdded {
            amount: command.amount,
        })])
    }
}

impl Handle<SubtractValue> for Counter {
    fn handle(&self, command: &SubtractValue) -> Result<Vec<Self::Event>, Self::Error> {
        if command.amount <= 0 {
            return Err("amount must be positive".to_string());
        }
        if self.value < command.amount {
            return Err("insufficient value".to_string());
        }
        Ok(vec![CounterEvent::Subtracted(ValueSubtracted {
            amount: command.amount,
        })])
    }
}

impl Handle<DoNothing> for Counter {
    fn handle(&self, _: &DoNothing) -> Result<Vec<Self::Event>, Self::Error> {
        Ok(vec![])
    }
}

type CounterTest = TestFramework<Counter>;

#[test]
fn given_no_events_when_add_then_produces_event() {
    CounterTest::new()
        .given_no_previous_events()
        .when(&AddValue { amount: 10 })
        .then_expect_events(&[CounterEvent::Added(ValueAdded { amount: 10 })]);
}

#[test]
fn given_events_when_subtract_then_produces_event() {
    CounterTest::new()
        .given(vec![CounterEvent::Added(ValueAdded { amount: 20 })])
        .when(&SubtractValue { amount: 5 })
        .then_expect_events(&[CounterEvent::Subtracted(ValueSubtracted { amount: 5 })]);
}

#[test]
fn given_insufficient_balance_when_subtract_then_error() {
    CounterTest::new()
        .given(vec![CounterEvent::Added(ValueAdded { amount: 10 })])
        .when(&SubtractValue { amount: 20 })
        .then_expect_error();
}

#[test]
fn given_insufficient_balance_when_subtract_then_error_message() {
    CounterTest::new()
        .given(vec![CounterEvent::Added(ValueAdded { amount: 10 })])
        .when(&SubtractValue { amount: 20 })
        .then_expect_error_message("insufficient value");
}

#[test]
fn given_events_and_more_events_when_command() {
    CounterTest::new()
        .given(vec![CounterEvent::Added(ValueAdded { amount: 10 })])
        .and(vec![CounterEvent::Added(ValueAdded { amount: 5 })])
        .when(&SubtractValue { amount: 12 })
        .then_expect_events(&[CounterEvent::Subtracted(ValueSubtracted { amount: 12 })]);
}

#[test]
fn invalid_command_returns_error() {
    CounterTest::new()
        .given_no_previous_events()
        .when(&AddValue { amount: -5 })
        .then_expect_error_message("amount must be positive");
}

#[test]
fn inspect_result_returns_raw_result() {
    let result = CounterTest::new()
        .given_no_previous_events()
        .when(&AddValue { amount: 10 })
        .inspect_result();

    assert!(result.is_ok());
    assert_eq!(result.unwrap().len(), 1);
}

#[test]
fn default_creates_new_framework() {
    let _framework: TestFramework<Counter> = TestFramework::default();
}

#[test]
fn no_events_are_expected_and_found() {
    CounterTest::new()
        .given_no_previous_events()
        .when(&DoNothing)
        .then_expect_no_events();
}

#[test]
fn the_exact_error_is_expected_and_found() {
    CounterTest::new()
        .given_no_previous_events()
        .when(&SubtractValue { amount: 1 })
        .then_expect_error_eq(&"insufficient value".to_string());
}

#[test]
fn produced_events_compares_kind_payload_and_count() {
    let added = |amount| CounterEvent::Added(ValueAdded { amount });
    let subtracted = |amount| CounterEvent::Subtracted(ValueSubtracted { amount });
    let outcome = CounterTest::new()
        .given_no_previous_events()
        .when(&AddValue { amount: 10 });

    assert!(outcome.produced_events(&[added(10)]));
    assert!(!outcome.produced_events(&[added(11)]));
    assert!(!outcome.produced_events(&[subtracted(10)]));
    assert!(!outcome.produced_events(&[]));
    assert!(!outcome.produced_events(&[added(10), added(10)]));
    assert!(!outcome.produced_no_events());
    assert!(!outcome.was_refused());
    assert!(!outcome.was_refused_with(&"insufficient value".to_string()));
    assert!(!outcome.was_refused_mentioning(""));
}

#[test]
fn a_refusal_is_told_from_events_and_from_other_refusals() {
    let outcome = CounterTest::new()
        .given_no_previous_events()
        .when(&SubtractValue { amount: 1 });

    assert!(outcome.was_refused());
    assert!(outcome.was_refused_with(&"insufficient value".to_string()));
    assert!(!outcome.was_refused_with(&"insufficient".to_string()));
    assert!(outcome.was_refused_mentioning("insufficient value"));
    assert!(outcome.was_refused_mentioning("sufficient"));
    assert!(outcome.was_refused_mentioning(""));
    assert!(!outcome.was_refused_mentioning("insufficient values"));
    assert!(!outcome.was_refused_mentioning("funds"));
    assert!(!outcome.produced_events(&[]));
    assert!(!outcome.produced_no_events());
}

#[test]
fn no_events_and_some_events_are_told_apart() {
    let outcome = CounterTest::new()
        .given_no_previous_events()
        .when(&DoNothing);

    assert!(outcome.produced_no_events());
    assert!(outcome.produced_events(&[]));
    assert!(!outcome.was_refused());
}

#[test]
fn and_continues_where_given_ended() {
    let first = vec![CounterEvent::Added(ValueAdded { amount: 7 })];
    let second = vec![
        CounterEvent::Subtracted(ValueSubtracted { amount: 2 }),
        CounterEvent::Added(ValueAdded { amount: 1 }),
    ];
    let whole: Vec<CounterEvent> = first.iter().chain(second.iter()).cloned().collect();

    for amount in 1..10 {
        let in_two = CounterTest::new()
            .given(first.clone())
            .and(second.clone())
            .when(&SubtractValue { amount })
            .inspect_result();
        let in_one = CounterTest::new()
            .given(whole.clone())
            .when(&SubtractValue { amount })
            .inspect_result();
        assert_eq!(in_two, in_one);
        assert_eq!(in_two.is_ok(), amount <= 6);
    }
}
