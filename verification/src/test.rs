//! Given-when-then tests of aggregates, without an event store.

use vstd::prelude::*;
use std::marker::PhantomData;
use crate::aggregate::{apply_all, fresh, reaches, Aggregate, Handle};
use crate::codec::result_view;
use crate::concurrency::ConcurrencyStrategy;
use crate::id::AggregateId;
use crate::repository::Repository;
use crate::store::{store_failure, EventStore, PersistableEvent};
use crate::text::{display_form, display_string, mentions, text_contains};

verus! {

/// Start of a given-when-then test of an aggregate.
pub struct TestFramework<A: Aggregate> {
    pub aggregate: PhantomData<A>,
}

impl<A: Aggregate> Default for TestFramework<A> {
    fn default() -> (r: Self)
        ensures
            r == (TestFramework::<A> { aggregate: PhantomData }),
    {
        TestFramework::new()
    }
}

impl<A: Aggregate> TestFramework<A> {
    /// A test of the aggregate.
    #[must_use]
    pub fn new() -> (r: Self)
        ensures
            r == (TestFramework::<A> { aggregate: PhantomData }),
    {
        TestFramework { aggregate: PhantomData }
    }

    /// Begins with an aggregate in its default state.
    #[must_use]
    pub fn given_no_previous_events(self) -> (r: TestExecutor<A>)
        ensures
            fresh(r.aggregate()),
    {
        TestExecutor { aggregate: A::default() }
    }

    /// Begins with an aggregate on which the events were applied, in turn.
    #[must_use]
    pub fn given(self, events: Vec<A::Event>) -> (r: TestExecutor<A>)
        ensures
            exists|start: A| #[trigger] fresh(start) && reaches(start, events@, r.aggregate()),
    {
        let mut aggregate = A::default();
        assert(fresh(aggregate));
        apply_all(&mut aggregate, &events);
        TestExecutor { aggregate }
    }
}

/// An aggregate that waits for a command.
pub struct TestExecutor<A: Aggregate> {
    aggregate: A,
}

impl<A: Aggregate> TestExecutor<A> {
    /// The state of the aggregate.
    pub closed spec fn aggregate(&self) -> A {
        self.aggregate
    }

    /// Runs a command on the aggregate.
    #[must_use]
    pub fn when<C>(self, command: &C) -> (r: TestResult<A>) where A: Handle<C>
        ensures
            self.aggregate().handles(*command, r.result()),
    {
        let result = self.aggregate.handle(command);
        TestResult { result }
    }

    /// Applies more events to the aggregate.
    #[must_use]
    pub fn and(self, events: Vec<A::Event>) -> (r: Self)
        ensures
            reaches(self.aggregate(), events@, r.aggregate()),
    {
        let mut aggregate = self.aggregate;
        apply_all(&mut aggregate, &events);
        TestExecutor { aggregate }
    }
}

/// The comparison of two values may give `answer`.
pub open spec fn compares<T: PartialEq>(left: T, right: T, answer: bool) -> bool {
    call_ensures(T::eq, (&left, &right), answer)
}

/// The comparison of two values can only find them equal.
pub open spec fn surely_equal<T: PartialEq>(left: T, right: T) -> bool {
    forall|answer: bool| #[trigger] compares(left, right, answer) ==> answer
}

/// The outcome of a command, ready to be compared with what is expected of it.
pub struct TestResult<A: Aggregate> {
    result: Result<Vec<A::Event>, A::Error>,
}

impl<A: Aggregate> TestResult<A> {
    /// What the aggregate answered to the command.
    pub closed spec fn result(&self) -> Result<Seq<A::Event>, A::Error> {
        result_view(self.result)
    }

    /// Whether the command brought about events that compare as equal to the expected ones.
    pub fn produced_events(&self, expected: &[A::Event]) -> (r: bool) where A::Event: PartialEq
        ensures
            r ==> {
                &&& self.result() matches Ok(events)
                &&& events.len() == expected@.len()
                &&& forall|i: int|
                    0 <= i < events.len() ==> compares(#[trigger] events[i], expected@[i], true)
            },
            !r ==> match self.result() {
                Ok(events) => events.len() != expected@.len() || exists|i: int|
                    0 <= i < events.len() && compares(#[trigger] events[i], expected@[i], false),
                Err(_) => true,
            },
    {
        match &self.result {
            Ok(events) => {
                if events.len() != expected.len() {
                    return false;
                }
                for i in 0..events.len()
                    invariant
                        self.result() == Ok::<Seq<A::Event>, A::Error>(events@),
                        events@.len() == expected@.len(),
                        forall|j: int|
                            0 <= j < i ==> compares(#[trigger] events@[j], expected@[j], true),
                {
                    let same = events[i].eq(&expected[i]);
                    assert(compares(events@[i as int], expected@[i as int], same));
                    if !same {
                        return false;
                    }
                }
                true
            },
            Err(_) => false,
        }
    }

    /// Whether the command was accepted and brought about no events.
    pub fn produced_no_events(&self) -> (r: bool)
        ensures
            r == (self.result() matches Ok(events) && events.len() == 0),
    {
        match &self.result {
            Ok(events) => events.is_empty(),
            Err(_) => false,
        }
    }

    /// Whether the command was refused.
    pub fn was_refused(&self) -> (r: bool)
        ensures
            r == self.result() is Err,
    {
        self.result.is_err()
    }

    /// Whether the command was refused with an error that compares as equal to the expected one.
    pub fn was_refused_with(&self, expected: &A::Error) -> (r: bool) where A::Error: PartialEq
        ensures
            match self.result() {
                Ok(_) => !r,
                Err(error) => compares(error, *expected, r),
            },
    {
        match &self.result {
            Ok(_) => false,
            Err(error) => error.eq(expected),
        }
    }

    /// Whether the command was refused with an error whose displayed form holds the text.
    pub fn was_refused_mentioning(&self, expected_substring: &str) -> (r: bool) where
        A::Error: core::fmt::Display,

        ensures
            self.result() is Ok ==> !r,
            self.result() matches Err(error) ==> exists|text: Seq<char>| #[trigger]
                display_form(error, text) && r == mentions(text, expected_substring@),
    {
        match &self.result {
            Ok(_) => false,
            Err(error) => {
                let text = display_string(error);
                let found = text_contains(text.as_str(), expected_substring);
                proof {
                    let written = text@;
                    assert(display_form(self.result()->Err_0, written));
                    assert(found == mentions(written, expected_substring@));
                }
                found
            },
        }
    }

    /// Insists on exactly the expected events.
    ///
    /// Where the command was refused, or brought about other events, the test fails: this
    /// function then panics.
    pub fn then_expect_events(self, expected: &[A::Event]) where
        A::Event: PartialEq + core::fmt::Debug,
        A::Error: core::fmt::Debug,

        requires
            self.result() matches Ok(events) && {
                &&& events.len() == expected@.len()
                &&& forall|i: int|
                    0 <= i < events.len() ==> surely_equal(#[trigger] events[i], expected@[i])
            },
        ensures
            self.result() matches Ok(events) && {
                &&& events.len() == expected@.len()
                &&& forall|i: int|
                    0 <= i < events.len() ==> call_ensures(
                        <A::Event as PartialEq>::eq,
                        (&#[trigger] events[i], &expected@[i]),
                        true,
                    )
            },
    {
        let matched = self.produced_events(expected);
        let events = self.result.expect("Expected events but got error");
        let outcome: Result<(), Vec<A::Event>> = if matched {
            Ok(())
        } else {
            Err(events)
        };
        outcome.expect("Expected events did not match actual events")
    }

    /// Insists that there are no events.
    ///
    /// Where the command was refused, or brought about events, the test fails: this function then
    /// panics.
    pub fn then_expect_no_events(self) where A::Event: core::fmt::Debug, A::Error: core::fmt::Debug
        requires
            self.result() matches Ok(events) && events.len() == 0,
    {
        let matched = self.produced_no_events();
        let events = self.result.expect("Expected no events but got error");
        let outcome: Result<(), Vec<A::Event>> = if matched {
            Ok(())
        } else {
            Err(events)
        };
        outcome.expect("Expected no events but got")
    }

    /// Insists that the command was refused.
    ///
    /// Where it was not, the test fails: this function then panics.
    pub fn then_expect_error(self) where A::Event: core::fmt::Debug
        requires
            self.result() is Err,
    {
        let outcome: Result<(), Vec<A::Event>> = match self.result {
            Ok(events) => Err(events),
            Err(_) => Ok(()),
        };
        outcome.expect("Expected error but got events")
    }

    /// Insists that the command was refused with the expected error.
    ///
    /// Where it was not refused, or with another error, the test fails: this function then panics.
    pub fn then_expect_error_eq(self, expected: &A::Error) where
        A::Event: core::fmt::Debug,
        A::Error: PartialEq + core::fmt::Debug,

        requires
            self.result() matches Err(error) && surely_equal(error, *expected),
        ensures
            self.result() matches Err(error) && call_ensures(
                <A::Error as PartialEq>::eq,
                (&error, expected),
                true,
            ),
    {
        let matched = self.was_refused_with(expected);
        let answered: Result<A::Error, Vec<A::Event>> = match self.result {
            Ok(events) => Err(events),
            Err(error) => Ok(error),
        };
        let error = answered.expect("Expected error but got events");
        let outcome: Result<(), A::Error> = if matched {
            Ok(())
        } else {
            Err(error)
        };
        outcome.expect("Expected error did not match actual error")
    }

    /// Insists that the command was refused with an error whose displayed form holds the text.
    ///
    /// Where it was not refused, or the text is not there, the test fails: this function then
    /// panics.
    pub fn then_expect_error_message(self, expected_substring: &str) where
        A::Event: core::fmt::Debug,
        A::Error: core::fmt::Display,

        requires
            self.result() matches Err(error) && forall|text: Seq<char>| #[trigger]
                display_form(error, text) ==> mentions(text, expected_substring@),
        ensures
            self.result() matches Err(error) && exists|text: Seq<char>| #[trigger]
                display_form(error, text) && mentions(text, expected_substring@),
    {
        let matched = self.was_refused_mentioning(expected_substring);
        let answered: Result<A::Error, Vec<A::Event>> = match self.result {
            Ok(events) => Err(events),
            Err(error) => Ok(error),
        };
        let error = answered.expect("Expected error but got events");
        let outcome: Result<(), String> = if matched {
            Ok(())
        } else {
            Err(display_string(&error))
        };
        outcome.expect("Expected error message did not contain the expected text")
    }

    /// What the aggregate answered to the command.
    pub fn inspect_result(self) -> (r: Result<Vec<A::Event>, A::Error>)
        ensures
            result_view(r) == self.result(),
    {
        self.result
    }
}

/// What tests do to the event store of a repository, past its commands.
pub trait RepositoryTestExt<S: EventStore> {
    /// The event store of the repository.
    spec fn tested_store(&self) -> S;

    /// Appends an event as it is to a stream, without version checking.
    fn inject_raw_event(
        &mut self,
        aggregate_kind: &str,
        aggregate_id: &S::Id,
        event: PersistableEvent<S::Metadata>,
    ) -> (r: Result<(), S::Error>)
        ensures
            old(self).tested_store().appends(
                aggregate_kind@,
                aggregate_id.key(),
                None,
                seq![event],
                final(self).tested_store(),
                store_failure(r),
            ),
    ;
}

impl<S: EventStore, C: ConcurrencyStrategy> RepositoryTestExt<S> for Repository<S, C> {
    open spec fn tested_store(&self) -> S {
        self.store()
    }

    fn inject_raw_event(
        &mut self,
        aggregate_kind: &str,
        aggregate_id: &S::Id,
        event: PersistableEvent<S::Metadata>,
    ) -> (r: Result<(), S::Error>) {
        self.append_raw(aggregate_kind, aggregate_id, event)
    }
}

} // verus!
