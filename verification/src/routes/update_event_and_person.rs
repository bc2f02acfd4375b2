//! Taking a prefect or participant off an event.
use vstd::prelude::*;

verus! {

/// The relation (a person at an event) to remove.
pub struct Removal {
    pub relation_id: i32,
}

} // verus!
