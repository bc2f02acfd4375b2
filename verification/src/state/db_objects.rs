//! Rows of the database as the pages use them.
use vstd::prelude::*;
use crate::auth::PermissionsRole;
use crate::liquid_utils::DateTime;

verus! {

/// A person, as stored in the `people` table.
pub struct DbPerson {
    pub id: i32,
    pub first_name: String,
    pub surname: String,
    pub username: String,
    pub was_first_entry: bool,
    pub form: String,
    pub hashed_password: Option<String>,
    pub permissions: PermissionsRole,
}

/// An event, as stored in the `events` table.
pub struct DbEvent {
    pub id: i32,
    pub event_name: String,
    pub date: DateTime,
    pub location: String,
    pub teacher: String,
    pub other_info: Option<String>,
    pub zip_file: Option<String>,
}

} // verus!
