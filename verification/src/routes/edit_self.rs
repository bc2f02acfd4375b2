//! A user editing their own details.
use vstd::prelude::*;

verus! {

/// The form a user sends to change their name and password.
pub struct LoginDetails {
    pub first_name: String,
    pub surname: String,
    pub unhashed_password: String,
}

} // verus!
