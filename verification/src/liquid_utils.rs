//! Dates as the pages show them, and the partial templates pages include.
pub mod partials;

use vstd::prelude::*;
use std::fmt::Write;

verus! {

/// A date and time without a time zone, as the database stores them.
#[derive(Clone, Copy, PartialEq, Eq, Structural, Debug)]
pub struct DateTime {
    pub year: i32,
    pub month: u32,
    pub day: u32,
    pub hour: u32,
    pub minute: u32,
    pub second: u32,
    /// Fractions of a second, in nanoseconds.
    pub nanosecond: u32,
}

/// What `chrono` writes for a date and time in a `strftime`-style format, or `None`
/// where the fields are not a valid date and time or the format cannot be written.
pub uninterp spec fn chrono_format(when: DateTime, format: Seq<char>) -> Option<Seq<char>>;

/// `chrono::NaiveDate::from_ymd_opt`, `and_hms_opt` and `NaiveDateTime::format`:
/// builds the date and time from its fields and writes it in `format`. The contract
/// names the outcome; it depends on the fields and the format alone.
#[verifier::external_body]
fn format_date_time(when: &DateTime, format: &str) -> (r: Option<String>)
    ensures
        match r {
            Some(s) => chrono_format(*when, format@) == Some(s@),
            None => chrono_format(*when, format@) is None,
        },
{
    let date = match chrono::NaiveDate::from_ymd_opt(when.year, when.month, when.day) {
        Some(d) => d,
        None => return None,
    };
    let date_time = match date.and_hms_nano_opt(when.hour, when.minute, when.second, when.nanosecond) {
        Some(t) => t,
        None => return None,
    };
    let mut s = String::new();
    match write!(s, "{}", date_time.format(format)) {
        Ok(()) => Some(s),
        Err(_) => None,
    }
}

/// Writing a date and time in a format chosen in the settings.
pub trait CustomFormat {
    /// Whether the value can be written in `format`.
    spec fn formats_in(&self, format: Seq<char>) -> bool;

    /// What the value is written as in `format`.
    spec fn formatted_in(&self, format: Seq<char>) -> Seq<char>;

    /// Writes the value in `format`.
    fn to_env_string(&self, format: &str) -> (s: String)
        requires
            self.formats_in(format@),
        ensures
            s@ == self.formatted_in(format@),
    ;
}

impl CustomFormat for DateTime {
    open spec fn formats_in(&self, format: Seq<char>) -> bool {
        chrono_format(*self, format) is Some
    }

    open spec fn formatted_in(&self, format: Seq<char>) -> Seq<char> {
        chrono_format(*self, format)->0
    }

    fn to_env_string(&self, format: &str) -> (s: String) {
        match format_date_time(self, format) {
            Some(s) => s,
            None => String::new(),
        }
    }
}

/// Writes a date and time in `format`, or `None` where `chrono` cannot.
pub fn try_to_env_string(when: &DateTime, format: &str) -> (r: Option<String>)
    ensures
        match r {
            Some(s) => chrono_format(*when, format@) == Some(s@),
            None => chrono_format(*when, format@) is None,
        },
{
    format_date_time(when, format)
}

} // verus!
