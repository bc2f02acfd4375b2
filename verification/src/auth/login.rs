//! Signing in: the forms, why signing in failed, where the user is sent next, and the
//! first administrator account.
use vstd::prelude::*;
use crate::auth::backend::{Authentication, LoginFailureReason};
use crate::text::{owned, chars_of, string_push};
use rand::Rng;

verus! {

/// Where to go after signing in, when a page asked for it.
pub struct NextUrl {
    pub next: Option<String>,
}

/// The sign-in form.
pub struct LoginForm {
    pub username: String,
    pub unhashed_password: String,
    pub cf_turnstile_response: String,
    pub next: Option<String>,
}

/// The username and password checked when signing in.
#[derive(Clone)]
pub struct LoginCreds {
    pub username: String,
    pub unhashed_password: String,
}

/// Why signing in, or setting a password, failed.
#[derive(Clone, Copy, PartialEq, Eq, Structural, Debug)]
pub enum FailureReason {
    BadPassword,
    NoNumbers,
    UserNotFound,
    FailedNumbers,
    PasswordAlreadySet,
    FailedTurnstile,
}

/// The name of a failure reason in URLs.
pub open spec fn failure_slug(reason: FailureReason) -> Seq<char> {
    match reason {
        FailureReason::BadPassword => "bad_password"@,
        FailureReason::NoNumbers => "no_numbers"@,
        FailureReason::UserNotFound => "user_not_found"@,
        FailureReason::FailedNumbers => "failed_numbers"@,
        FailureReason::PasswordAlreadySet => "password_already_set"@,
        FailureReason::FailedTurnstile => "failed_turnstile"@,
    }
}

/// Different failure reasons have different names in URLs, so reading a reason's name
/// back gives that reason.
pub proof fn lemma_failure_slugs_distinct(a: FailureReason, b: FailureReason)
    ensures
        failure_slug(a) == failure_slug(b) ==> a == b,
{
    reveal_strlit("bad_password");
    reveal_strlit("no_numbers");
    reveal_strlit("user_not_found");
    reveal_strlit("failed_numbers");
    reveal_strlit("password_already_set");
    reveal_strlit("failed_turnstile");
    if failure_slug(a) == failure_slug(b) && a != b {
        let sa = failure_slug(a);
        let sb = failure_slug(b);
        assert(sa.len() == sb.len());
        assert(sa[0] == sb[0]);
        assert(sa[1] == sb[1]);
    }
}

/// The status of the page explaining a failure: 400 for a missing link number or a
/// password already set, 404 for an unknown user, 403 otherwise.
pub open spec fn failure_status(reason: FailureReason) -> u16 {
    match reason {
        FailureReason::NoNumbers | FailureReason::PasswordAlreadySet => 400,
        FailureReason::UserNotFound => 404,
        FailureReason::FailedTurnstile | FailureReason::FailedNumbers | FailureReason::BadPassword => 403,
    }
}

/// The page that explains a failure.
pub open spec fn failure_path(reason: FailureReason) -> Seq<char> {
    "/login_failure/"@ + failure_slug(reason)
}

impl FailureReason {
    /// The HTTP status code of the page explaining the failure.
    pub fn status_code(self) -> (code: u16)
        ensures
            code == failure_status(self),
    {
        match self {
            Self::NoNumbers | Self::PasswordAlreadySet => 400,
            Self::UserNotFound => 404,
            Self::FailedTurnstile | Self::FailedNumbers | Self::BadPassword => 403,
        }
    }

    /// The name of the reason in URLs.
    pub fn slug(self) -> (s: &'static str)
        ensures
            s@ == failure_slug(self),
    {
        match self {
            Self::BadPassword => "bad_password",
            Self::NoNumbers => "no_numbers",
            Self::UserNotFound => "user_not_found",
            Self::FailedNumbers => "failed_numbers",
            Self::PasswordAlreadySet => "password_already_set",
            Self::FailedTurnstile => "failed_turnstile",
        }
    }

    /// The reason a URL names, if it names one.
    pub fn from_slug(slug: &str) -> (r: Option<Self>)
        ensures
            r matches Some(reason) ==> failure_slug(reason) == slug@,
            r is None ==> forall|reason: FailureReason| failure_slug(reason) != slug@,
    {
        let all = [
            Self::BadPassword,
            Self::NoNumbers,
            Self::UserNotFound,
            Self::FailedNumbers,
            Self::PasswordAlreadySet,
            Self::FailedTurnstile,
        ];
        let mut i: usize = 0;
        while i < 6
            invariant
                i <= 6,
                all@ == seq![
                    Self::BadPassword,
                    Self::NoNumbers,
                    Self::UserNotFound,
                    Self::FailedNumbers,
                    Self::PasswordAlreadySet,
                    Self::FailedTurnstile,
                ],
                forall|k: int| 0 <= k < i ==> failure_slug(#[trigger] all@[k]) != slug@,
            decreases 6 - i,
        {
            let reason = all[i];
            if crate::text::same_text(reason.slug(), slug) {
                return Some(reason);
            }
            i = i + 1;
        }
        proof {
            assert forall|reason: FailureReason| failure_slug(reason) != slug@ by {
                match reason {
                    Self::BadPassword => assert(all@[0] == reason),
                    Self::NoNumbers => assert(all@[1] == reason),
                    Self::UserNotFound => assert(all@[2] == reason),
                    Self::FailedNumbers => assert(all@[3] == reason),
                    Self::PasswordAlreadySet => assert(all@[4] == reason),
                    Self::FailedTurnstile => assert(all@[5] == reason),
                }
            }
        }
        None
    }

    /// The page that explains the failure.
    pub fn path(self) -> (p: String)
        ensures
            p@ == failure_path(self),
    {
        let mut p = owned("/login_failure/");
        p.append(self.slug());
        p
    }
}

/// Where signing in sends the user, or `None` where the attempt ended in an error:
/// where they asked to go (or the home page) when the password was right, the page
/// to set a password when they have none, and the matching failure page otherwise.
pub open spec fn login_destination(outcome: Authentication, next: Option<String>) -> Option<Seq<char>> {
    match outcome {
        Authentication::Authenticated(_) => match next {
            Some(n) => Some(n@),
            None => Some("/"@),
        },
        Authentication::NoSuchUser => Some(failure_path(FailureReason::UserNotFound)),
        Authentication::PasswordNotSet { .. } => Some("/add_password"@),
        Authentication::Failed(reason) => match reason {
            LoginFailureReason::PasswordIsNotSet => Some("/add_password"@),
            LoginFailureReason::IncorrectPassword => Some(failure_path(FailureReason::BadPassword)),
        },
        Authentication::HashError => None,
    }
}

/// Where the user goes after a sign-in attempt with the given outcome (`None`: the
/// attempt ended in an error).
pub fn login_redirect(outcome: &Authentication, next: Option<String>) -> (r: Option<String>)
    ensures
        match r {
            Some(s) => login_destination(*outcome, next) == Some(s@),
            None => login_destination(*outcome, next) is None,
        },
{
    match outcome {
        Authentication::Authenticated(_) => match next {
            Some(n) => Some(n),
            None => Some(owned("/")),
        },
        Authentication::NoSuchUser => Some(FailureReason::UserNotFound.path()),
        Authentication::PasswordNotSet { .. } => Some(owned("/add_password")),
        Authentication::Failed(reason) => match reason {
            LoginFailureReason::PasswordIsNotSet => Some(owned("/add_password")),
            LoginFailureReason::IncorrectPassword => Some(FailureReason::BadPassword.path()),
        },
        Authentication::HashError => None,
    }
}

/// The username of the administrator account made when there is nobody yet.
pub const ADMIN_USERNAME: &'static str = "admin";

/// The characters an administrator's first password is drawn from.
pub const PASSWORD_ALPHABET: &'static str = "qwertyuiopasdfghjklzxcvbnmQWERTYUIOPASDFGHJKLZXVBNM123456789!$%^&*()-=[];#,._+{}:@<>?";

/// The length of an administrator's first password.
pub const PASSWORD_LENGTH: usize = 24;

/// Whether an administrator account has to be made: when the count of people is zero
/// (or could not be read).
pub fn needs_admin_account(people_count: Option<i64>) -> (r: bool)
    ensures
        r == (match people_count { Some(c) => c == 0, None => true }),
{
    match people_count {
        Some(c) => c == 0,
        None => true,
    }
}

/// A number drawn uniformly from `0..bound` (`rand::Rng::gen_range` on the thread's
/// generator). The contract promises only that it lies in that range.
#[verifier::external_body]
fn random_below(bound: usize) -> (r: usize)
    requires
        bound > 0,
    ensures
        r < bound,
{
    rand::thread_rng().gen_range(0..bound)
}

/// The password spelled by positions in `PASSWORD_ALPHABET`: the character at each
/// position, in order.
pub fn password_from_draws(draws: &Vec<usize>) -> (password: String)
    requires
        forall|k: int| 0 <= k < draws@.len() ==> (#[trigger] draws@[k] as int) < PASSWORD_ALPHABET@.len(),
    ensures
        password@ == draws@.map_values(|d: usize| PASSWORD_ALPHABET@[d as int]),
{
    let alphabet = chars_of(PASSWORD_ALPHABET);
    let mut password = String::new();
    let mut k: usize = 0;
    while k < draws.len()
        invariant
            k <= draws@.len(),
            alphabet@ == PASSWORD_ALPHABET@,
            forall|m: int| 0 <= m < draws@.len() ==> (#[trigger] draws@[m] as int) < PASSWORD_ALPHABET@.len(),
            password@ == draws@.take(k as int).map_values(|d: usize| PASSWORD_ALPHABET@[d as int]),
        decreases draws@.len() - k,
    {
        let c = alphabet[draws[k]];
        string_push(&mut password, c);
        assert(draws@.take(k + 1) =~= draws@.take(k as int).push(draws@[k as int]));
        assert(password@ =~= draws@.take(k + 1).map_values(|d: usize| PASSWORD_ALPHABET@[d as int]));
        k = k + 1;
    }
    assert(draws@.take(draws@.len() as int) =~= draws@);
    password
}

/// A random first password for the administrator: `PASSWORD_LENGTH` characters, each
/// drawn uniformly from `PASSWORD_ALPHABET`.
pub fn admin_password() -> (password: String)
    ensures
        password@.len() == PASSWORD_LENGTH,
        forall|i: int| 0 <= i < password@.len() ==> PASSWORD_ALPHABET@.contains(#[trigger] password@[i]),
{
    proof {
        reveal_strlit("qwertyuiopasdfghjklzxcvbnmQWERTYUIOPASDFGHJKLZXVBNM123456789!$%^&*()-=[];#,._+{}:@<>?");
    }
    let n = PASSWORD_ALPHABET.unicode_len();
    let mut draws: Vec<usize> = Vec::new();
    let mut k: usize = 0;
    while k < PASSWORD_LENGTH
        invariant
            k <= PASSWORD_LENGTH,
            n == PASSWORD_ALPHABET@.len(),
            n > 0,
            draws@.len() == k,
            forall|m: int| 0 <= m < draws@.len() ==> (#[trigger] draws@[m] as int) < PASSWORD_ALPHABET@.len(),
        decreases PASSWORD_LENGTH - k,
    {
        draws.push(random_below(n));
        k = k + 1;
    }
    let password = password_from_draws(&draws);
    assert forall|i: int| 0 <= i < password@.len() implies PASSWORD_ALPHABET@.contains(#[trigger] password@[i]) by {
        assert(password@[i] == PASSWORD_ALPHABET@[draws@[i] as int]);
    }
    password
}

} // verus!
