//! Concurrency strategies of repositories and transactions.

use vstd::prelude::*;
use vstd::string::*;
use crate::text::debug_string;

verus! {

/// How a write treats other writes to the same stream.
pub trait ConcurrencyStrategy {

}

/// Last writer wins: no version checking.
#[derive(Debug, Clone, Copy, Default, PartialEq, Eq)]
pub struct Unchecked;

/// The stream version is checked on commit.
#[derive(Debug, Clone, Copy, Default, PartialEq, Eq)]
pub struct Optimistic;

impl ConcurrencyStrategy for Unchecked {

}

impl ConcurrencyStrategy for Optimistic {

}

/// The version of a stream was not the expected one.
///
/// A version of `None` stands for a stream without events.
#[derive(Debug, Clone, PartialEq, Eq)]
pub struct ConcurrencyConflict<Pos> {
    /// The version that the writer expected.
    pub expected: Option<Pos>,
    /// The version that the stream had.
    pub actual: Option<Pos>,
}

impl<Pos: core::fmt::Debug> ConcurrencyConflict<Pos> {
    /// What [`ConcurrencyConflict::message`] may write.
    pub open spec fn describes(&self, text: Seq<char>) -> bool {
        match (self.expected, self.actual) {
            (Some(expected), Some(actual)) => exists|e: Seq<char>, a: Seq<char>|
                #[trigger] crate::text::debug_form(expected, e) && #[trigger] crate::text::debug_form(
                    actual,
                    a,
                ) && text == "concurrency conflict: expected version "@ + e + ", found "@ + a,
            (Some(expected), None) => exists|e: Seq<char>|
                #[trigger] crate::text::debug_form(expected, e) && text
                    == "concurrency conflict: expected version "@ + e + ", found empty stream"@,
            (None, Some(actual)) => exists|a: Seq<char>|
                #[trigger] crate::text::debug_form(actual, a) && text
                    == "concurrency conflict: expected new stream, found version "@ + a,
            (None, None) => text == "concurrency conflict: unexpected empty state"@,
        }
    }

    /// The conflict in words.
    pub fn message(&self) -> (text: String)
        ensures
            self.describes(text@),
    {
        match (&self.expected, &self.actual) {
            (Some(expected), Some(actual)) => {
                let mut text = String::from_str("concurrency conflict: expected version ");
                let e = debug_string(expected);
                text.append(e.as_str());
                text.append(", found ");
                let a = debug_string(actual);
                text.append(a.as_str());
                text
            },
            (Some(expected), None) => {
                let mut text = String::from_str("concurrency conflict: expected version ");
                let e = debug_string(expected);
                text.append(e.as_str());
                text.append(", found empty stream");
                text
            },
            (None, Some(actual)) => {
                let mut text = String::from_str(
                    "concurrency conflict: expected new stream, found version ",
                );
                let a = debug_string(actual);
                text.append(a.as_str());
                text
            },
            (None, None) => String::from_str("concurrency conflict: unexpected empty state"),
        }
    }
}

} // verus!
