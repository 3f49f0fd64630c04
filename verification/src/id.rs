//! Identifiers of aggregate instances.

use vstd::prelude::*;

verus! {

/// An identifier of an aggregate instance.
///
/// Two identifiers are the same when their keys are equal. Strings and integers are identifiers. A
/// type of one's own becomes one by saying what its key is, how it is compared and how it is
/// copied.
pub trait AggregateId: Sized {
    /// What tells identifiers apart.
    type Key;

    /// The key of the identifier.
    spec fn key(&self) -> Self::Key;

    /// Whether two identifiers are the same.
    fn same(&self, other: &Self) -> (r: bool)
        ensures
            r == (self.key() == other.key()),
    ;

    /// A copy of the identifier.
    fn duplicate(&self) -> (r: Self)
        ensures
            r.key() == self.key(),
    ;
}

impl AggregateId for String {
    type Key = Seq<char>;

    open spec fn key(&self) -> Seq<char> {
        self@
    }

    fn same(&self, other: &Self) -> (r: bool) {
        *self == *other
    }

    fn duplicate(&self) -> (r: Self) {
        self.clone()
    }
}

impl AggregateId for u8 {
    type Key = u8;

    open spec fn key(&self) -> u8 {
        *self
    }

    fn same(&self, other: &Self) -> (r: bool) {
        *self == *other
    }

    fn duplicate(&self) -> (r: Self) {
        *self
    }
}

impl AggregateId for u16 {
    type Key = u16;

    open spec fn key(&self) -> u16 {
        *self
    }

    fn same(&self, other: &Self) -> (r: bool) {
        *self == *other
    }

    fn duplicate(&self) -> (r: Self) {
        *self
    }
}

impl AggregateId for u32 {
    type Key = u32;

    open spec fn key(&self) -> u32 {
        *self
    }

    fn same(&self, other: &Self) -> (r: bool) {
        *self == *other
    }

    fn duplicate(&self) -> (r: Self) {
        *self
    }
}

impl AggregateId for u64 {
    type Key = u64;

    open spec fn key(&self) -> u64 {
        *self
    }

    fn same(&self, other: &Self) -> (r: bool) {
        *self == *other
    }

    fn duplicate(&self) -> (r: Self) {
        *self
    }
}

impl AggregateId for u128 {
    type Key = u128;

    open spec fn key(&self) -> u128 {
        *self
    }

    fn same(&self, other: &Self) -> (r: bool) {
        *self == *other
    }

    fn duplicate(&self) -> (r: Self) {
        *self
    }
}

impl AggregateId for usize {
    type Key = usize;

    open spec fn key(&self) -> usize {
        *self
    }

    fn same(&self, other: &Self) -> (r: bool) {
        *self == *other
    }

    fn duplicate(&self) -> (r: Self) {
        *self
    }
}

impl AggregateId for i8 {
    type Key = i8;

    open spec fn key(&self) -> i8 {
        *self
    }

    fn same(&self, other: &Self) -> (r: bool) {
        *self == *other
    }

    fn duplicate(&self) -> (r: Self) {
        *self
    }
}

impl AggregateId for i16 {
    type Key = i16;

    open spec fn key(&self) -> i16 {
        *self
    }

    fn same(&self, other: &Self) -> (r: bool) {
        *self == *other
    }

    fn duplicate(&self) -> (r: Self) {
        *self
    }
}

impl AggregateId for i32 {
    type Key = i32;

    open spec fn key(&self) -> i32 {
        *self
    }

    fn same(&self, other: &Self) -> (r: bool) {
        *self == *other
    }

    fn duplicate(&self) -> (r: Self) {
        *self
    }
}

impl AggregateId for i64 {
    type Key = i64;

    open spec fn key(&self) -> i64 {
        *self
    }

    fn same(&self, other: &Self) -> (r: bool) {
        *self == *other
    }

    fn duplicate(&self) -> (r: Self) {
        *self
    }
}

impl AggregateId for i128 {
    type Key = i128;

    open spec fn key(&self) -> i128 {
        *self
    }

    fn same(&self, other: &Self) -> (r: bool) {
        *self == *other
    }

    fn duplicate(&self) -> (r: Self) {
        *self
    }
}

impl AggregateId for isize {
    type Key = isize;

    open spec fn key(&self) -> isize {
        *self
    }

    fn same(&self, other: &Self) -> (r: bool) {
        *self == *other
    }

    fn duplicate(&self) -> (r: Self) {
        *self
    }
}

} // verus!
