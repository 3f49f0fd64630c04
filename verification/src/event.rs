//! Domain event marker.

use vstd::prelude::*;

verus! {

/// An event that a store can persist.
///
/// `KIND` identifies the event type in the store, so that stored bytes find their way back to the
/// type that wrote them.
pub trait DomainEvent: Sized {
    const KIND: &'static str;
}

} // verus!
