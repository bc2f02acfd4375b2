//! Removing one person or one event.
use vstd::prelude::*;

verus! {

/// The person to remove.
pub struct RemovePerson {
    pub person_id: i32,
}

/// The event to remove.
pub struct RemoveEvent {
    pub event_id: i32,
}

} // verus!
