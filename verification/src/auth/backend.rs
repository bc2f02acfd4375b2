//! Checking a user's password when they sign in.
use vstd::prelude::*;
use crate::state::db_objects::DbPerson;
use crate::error::VentError;

verus! {

#[verifier::external_type_specification]
#[verifier::external_body]
pub struct ExBcryptError(bcrypt::BcryptError);

/// What `bcrypt::verify` gives for a password and a stored hash: whether they match,
/// or `None` where it fails (a stored hash that is not a bcrypt hash).
pub uninterp spec fn bcrypt_verification(password: Seq<char>, hash: Seq<char>) -> Option<bool>;

/// `bcrypt::verify`: hashes the password (its UTF-8 bytes) with the cost and salt read
/// from `hash` and compares the result with the hash stored there. The contract names
/// the outcome; it depends on the two texts alone.
#[verifier::external_body]
fn bcrypt_verify(password: &str, hash: &str) -> (r: Result<bool, bcrypt::BcryptError>)
    ensures
        match r {
            Ok(b) => bcrypt_verification(password@, hash@) == Some(b),
            Err(_) => bcrypt_verification(password@, hash@) is None,
        },
{
    bcrypt::verify(password, hash)
}

/// Why signing in was refused.
#[derive(Clone, Copy, PartialEq, Eq, Structural, Debug)]
pub enum LoginFailureReason {
    PasswordIsNotSet,
    IncorrectPassword,
}

/// The outcome of a sign-in attempt.
pub enum Authentication {
    /// No user has that username.
    NoSuchUser,
    /// The password is right.
    Authenticated(DbPerson),
    /// The user has no password yet: one is to be set through a link sent by e-mail.
    PasswordNotSet { user_id: i32 },
    /// The password is wrong.
    Failed(LoginFailureReason),
    /// The stored hash could not be checked.
    HashError,
}

/// The outcome for a user found by username, given what checking the password gave
/// (`None`: the stored hash could not be checked).
pub open spec fn outcome_for(user: DbPerson, verification: Option<bool>) -> Authentication {
    match user.hashed_password {
        None => Authentication::PasswordNotSet { user_id: user.id },
        Some(_) => match verification {
            Some(true) => Authentication::Authenticated(user),
            Some(false) => Authentication::Failed(LoginFailureReason::IncorrectPassword),
            None => Authentication::HashError,
        },
    }
}

/// Decides a sign-in attempt for a user found by username, from the outcome of
/// checking the password against their stored hash.
pub fn authentication_outcome(user: DbPerson, verification: Option<bool>) -> (r: Authentication)
    ensures
        r == outcome_for(user, verification),
{
    match user.hashed_password {
        None => Authentication::PasswordNotSet { user_id: user.id },
        Some(_) => match verification {
            Some(true) => Authentication::Authenticated(user),
            Some(false) => Authentication::Failed(LoginFailureReason::IncorrectPassword),
            None => Authentication::HashError,
        },
    }
}

/// Signs a user in: `db_user` is the person whose username matches (ignoring case),
/// if any. A user without a password is told to set one; otherwise the password is
/// checked against the stored bcrypt hash.
pub fn authenticate(db_user: Option<DbPerson>, unhashed_password: &str) -> (r: Authentication)
    ensures
        match db_user {
            None => r == Authentication::NoSuchUser,
            Some(u) => match u.hashed_password {
                None => r == Authentication::PasswordNotSet { user_id: u.id },
                Some(h) => r == outcome_for(u, bcrypt_verification(unhashed_password@, h@)),
            },
        },
{
    match db_user {
        None => Authentication::NoSuchUser,
        Some(u) => {
            let verification = match &u.hashed_password {
                None => None,
                Some(h) => match bcrypt_verify(unhashed_password, h.as_str()) {
                    Ok(b) => Some(b),
                    Err(_) => None,
                },
            };
            authentication_outcome(u, verification)
        },
    }
}

/// `bcrypt::hash` with `bcrypt::DEFAULT_COST`: hashes the password with a fresh random
/// salt. The salt comes from the operating system, so nothing names the hash; what the
/// crate's source shows of every hash it gives (its own test `can_verify_own_generated`
/// checks it) is that `bcrypt::verify` accepts the same password against it. It fails
/// only where no random salt can be had.
#[verifier::external_body]
fn bcrypt_hash(password: &str) -> (r: Result<String, bcrypt::BcryptError>)
    ensures
        r matches Ok(h) ==> bcrypt_verification(password@, h@) == Some(true),
{
    bcrypt::hash(password, bcrypt::DEFAULT_COST)
}

/// Hashes a password to be stored; the stored hash accepts that password when its
/// owner signs in.
pub fn hash_password(password: &str) -> (r: Result<String, VentError>)
    ensures
        match r {
            Ok(h) => bcrypt_verification(password@, h@) == Some(true),
            Err(e) => e == VentError::Bcrypt,
        },
{
    match bcrypt_hash(password) {
        Ok(h) => Ok(h),
        Err(_) => Err(VentError::Bcrypt),
    }
}

/// Someone whose stored hash was made from a password signs in with that password.
pub proof fn lemma_own_password_signs_in(user: DbPerson, password: Seq<char>, hash: String)
    requires
        user.hashed_password == Some(hash),
        bcrypt_verification(password, hash@) == Some(true),
    ensures
        outcome_for(user, bcrypt_verification(password, hash@)) == Authentication::Authenticated(user),
{
}

} // verus!
