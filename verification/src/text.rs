//! Text of values: concatenation, and the `Display` and `Debug` forms that error messages quote.

use vstd::prelude::*;
use vstd::string::*;

verus! {

/// Conversion of a string slice into an owned string, as the standard library documents it: the
/// characters are kept.
pub assume_specification<'b, 'a>[ <String as From<&'b str>>::from ](s: &'a str) -> (r: String)
    ensures
        r@ == s@,
;

/// The `Debug` form of a value, as `format!("{:?}", value)` of the standard library writes it.
///
/// Nothing is claimed of the text: the value's own `Debug` implementation decides it. Contracts
/// refer to it through [`debug_form`]. The call panics only where that implementation reports an
/// error, which the standard library calls an incorrect implementation.
#[verifier::external_body]
fn debug_text<T: core::fmt::Debug>(value: &T) -> (text: String)
{
    format!("{value:?}")
}

/// `text` is a `Debug` form of `value`.
pub closed spec fn debug_form<T: core::fmt::Debug>(value: T, text: Seq<char>) -> bool {
    exists|s: String| #[trigger] call_ensures(debug_text::<T>, (&value,), s) && s@ == text
}

/// `text` is a `Display` form of `value`.
pub open spec fn display_form<T: core::fmt::Display>(value: T, text: Seq<char>) -> bool {
    exists|s: String| #[trigger] to_string_from_display_ensures::<T>(&value, s) && s@ == text
}

/// The `Debug` form of a value is what formatting it writes.
proof fn law_debug_form_is_what_is_written<T: core::fmt::Debug>(value: T, text: Seq<char>)
    ensures
        debug_form(value, text) <==> exists|s: String|
            #[trigger] call_ensures(debug_text::<T>, (&value,), s) && s@ == text,
{
}

/// Writes a value in its `Debug` form.
pub fn debug_string<T: core::fmt::Debug>(value: &T) -> (text: String)
    ensures
        debug_form(*value, text@),
{
    debug_text(value)
}

/// Writes a value in its `Display` form.
pub fn display_string<T: core::fmt::Display>(value: &T) -> (text: String)
    ensures
        display_form(*value, text@),
{
    value.to_string()
}

/// `part` occurs in `text`.
pub open spec fn mentions(text: Seq<char>, part: Seq<char>) -> bool {
    exists|i: int|
        0 <= i && i + part.len() <= text.len() && #[trigger] text.subrange(i, i + part.len()) == part
}

/// Whether a text holds another, as `str::contains` of the standard library documents it: whether
/// the pattern matches a part of the text.
#[verifier::external_body]
pub(crate) fn text_contains(text: &str, part: &str) -> (r: bool)
    ensures
        r == mentions(text@, part@),
{
    text.contains(part)
}

/// A value that an error message can quote.
///
/// Everything with a `Display` form quotes as that form.
pub trait Describe {
    /// [`Describe::message`] may write `text`.
    spec fn describes(&self, text: Seq<char>) -> bool;

    /// The value in words.
    fn message(&self) -> (text: String)
        ensures
            self.describes(text@),
    ;
}

impl<T: core::fmt::Display> Describe for T {
    open spec fn describes(&self, text: Seq<char>) -> bool {
        display_form(*self, text)
    }

    fn message(&self) -> (text: String) {
        display_string(self)
    }
}

/// Joins two texts.
pub fn joined(left: &str, right: &str) -> (text: String)
    ensures
        text@ == left@ + right@,
{
    let mut text = String::from_str(left);
    text.append(right);
    text
}

} // verus!
