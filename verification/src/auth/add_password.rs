//! Setting a password through the link sent by e-mail.
use vstd::prelude::*;
use crate::auth::login::FailureReason;
use crate::state::mail::EmailToSend;
use crate::text::owned;
use rand::Rng;

verus! {

/// Why the page to set a password is refused, if it is: the user has no link number
/// (`NoNumbers`), the link's number is not theirs (`FailedNumbers`), or they already
/// have a password (`PasswordAlreadySet`), checked in that order.
pub open spec fn link_refusal(stored_code: Option<i32>, link_code: i32, password_already_set: bool) -> Option<FailureReason> {
    match stored_code {
        None => Some(FailureReason::NoNumbers),
        Some(c) => if c != link_code {
            Some(FailureReason::FailedNumbers)
        } else if password_already_set {
            Some(FailureReason::PasswordAlreadySet)
        } else {
            None
        },
    }
}

/// Why a submitted password is refused, if it is, checked in this order: the
/// Cloudflare check failed, a password is already set, the user has no link number,
/// the form's number is not theirs.
pub open spec fn form_refusal(
    turnstile_passed: bool,
    password_already_set: bool,
    stored_code: Option<i32>,
    submitted_code: i32,
) -> Option<FailureReason> {
    if !turnstile_passed {
        Some(FailureReason::FailedTurnstile)
    } else if password_already_set {
        Some(FailureReason::PasswordAlreadySet)
    } else {
        match stored_code {
            None => Some(FailureReason::NoNumbers),
            Some(c) => if c != submitted_code { Some(FailureReason::FailedNumbers) } else { None },
        }
    }
}

/// Decides whether the page to set a password is shown for a link (`None`) or why
/// not.
pub fn check_password_link(stored_code: Option<i32>, link_code: i32, password_already_set: bool) -> (r: Option<FailureReason>)
    ensures
        r == link_refusal(stored_code, link_code, password_already_set),
{
    match stored_code {
        None => Some(FailureReason::NoNumbers),
        Some(c) => if c != link_code {
            Some(FailureReason::FailedNumbers)
        } else if password_already_set {
            Some(FailureReason::PasswordAlreadySet)
        } else {
            None
        },
    }
}

/// Decides whether a submitted password is accepted (`None`) or why not.
pub fn check_password_form(
    turnstile_passed: bool,
    password_already_set: bool,
    stored_code: Option<i32>,
    submitted_code: i32,
) -> (r: Option<FailureReason>)
    ensures
        r == form_refusal(turnstile_passed, password_already_set, stored_code, submitted_code),
{
    if !turnstile_passed {
        Some(FailureReason::FailedTurnstile)
    } else if password_already_set {
        Some(FailureReason::PasswordAlreadySet)
    } else {
        match stored_code {
            None => Some(FailureReason::NoNumbers),
            Some(c) => if c != submitted_code { Some(FailureReason::FailedNumbers) } else { None },
        }
    }
}

/// Whether a candidate link number is already some user's.
pub fn code_in_use(existing: &Vec<i32>, candidate: u16) -> (r: bool)
    ensures
        r == existing@.contains(candidate as i32),
{
    let c = candidate as i32;
    let mut i: usize = 0;
    while i < existing.len()
        invariant
            i <= existing@.len(),
            c == candidate as i32,
            forall|k: int| 0 <= k < i ==> existing@[k] != c,
        decreases existing@.len() - i,
    {
        if existing[i] == c {
            return true;
        }
        i = i + 1;
    }
    false
}

/// The e-mail sent to a user to set a password, with link number `code`: addressed to
/// their username, with their full name (`first_name surname`).
pub fn reset_password_email(user_id: i32, code: u16, username: &str, first_name: &str, surname: &str) -> (e: EmailToSend)
    ensures
        e.to_username@ == username@,
        e.to_id == user_id,
        e.to_fullname@ == first_name@ + " "@ + surname@,
        e.unique_id == code as i32,
{
    let mut fullname = owned(first_name);
    fullname.append(" ");
    fullname.append(surname);
    EmailToSend { to_username: owned(username), to_id: user_id, to_fullname: fullname, unique_id: code as i32 }
}

/// A password can only be set, through the page or the form, by someone holding the
/// user's link number, and only while the user has no password.
pub proof fn lemma_password_needs_link(
    turnstile_passed: bool,
    password_already_set: bool,
    stored_code: Option<i32>,
    code: i32,
)
    ensures
        link_refusal(stored_code, code, password_already_set) is None ==> stored_code == Some(code) && !password_already_set,
        form_refusal(turnstile_passed, password_already_set, stored_code, code) is None ==> turnstile_passed
            && stored_code == Some(code) && !password_already_set,
{
}

/// `rand::thread_rng().gen::<u16>()`: a number from the thread's generator. Nothing is
/// promised of it.
#[verifier::external_body]
fn random_u16() -> (n: u16) {
    rand::thread_rng().gen::<u16>()
}

/// Whether a user holds the link number `c` already.
pub open spec fn code_taken(existing: Seq<i32>, c: u16) -> bool {
    existing.contains(c as i32)
}

/// The link number `c`, if no user holds it already.
pub fn link_code_if_free(c: u16, existing: &Vec<i32>) -> (r: Option<u16>)
    ensures
        match r {
            Some(x) => x == c && !code_taken(existing@, c),
            None => code_taken(existing@, c),
        },
{
    if code_in_use(existing, c) {
        None
    } else {
        Some(c)
    }
}

/// One attempt at a link number for a password e-mail, from a random 16-bit number:
/// the number drawn if no user holds it, else `None`. So it fails only where some
/// 16-bit number is held already, and never where none is. The caller draws again
/// until one is free.
pub fn try_link_code(existing: &Vec<i32>) -> (r: Option<u16>)
    ensures
        match r {
            Some(c) => !code_taken(existing@, c),
            None => exists|c: u16| #[trigger] code_taken(existing@, c),
        },
{
    let c = random_u16();
    link_code_if_free(c, existing)
}

} // verus!
