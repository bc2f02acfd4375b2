//! The JSON views of people and events.
use vstd::prelude::*;

verus! {

/// A participant at an event, and whether their attendance is verified.
pub struct ParticipantEventRelation {
    pub participant_id: i32,
    pub event_id: i32,
    pub is_verified: bool,
}

/// A person with their points and the events they are down for.
pub struct SmolPerson {
    pub first_name: String,
    pub surname: String,
    pub form: String,
    pub id: i32,
    pub pts: usize,
    pub events: Vec<ParticipantEventRelation>,
}

/// A person's points from the count of their verified events (a missing count is
/// zero). A count is never negative.
pub fn points_from_count(count: Option<i64>) -> (pts: usize)
    requires
        count matches Some(c) ==> 0 <= c <= usize::MAX,
    ensures
        pts == (match count { Some(c) => c as int, None => 0 }),
{
    match count {
        Some(c) => c as usize,
        None => 0,
    }
}

} // verus!
