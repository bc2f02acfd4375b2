//! Giving a bonus point to people.
use vstd::prelude::*;

verus! {

/// The people to give a bonus point to, and the bonus point.
pub struct AddPeopleToBonusPoint {
    pub person_ids: Vec<i32>,
    pub bonus_point_id: i32,
}

} // verus!
