//! The computations behind the site's pages and forms.
pub mod add_people_to_event;
pub mod calendar;
pub mod csv_import_export;
pub mod edit_person;
pub mod edit_self;
pub mod edit_user;
pub mod eoy_migration;
pub mod images;
pub mod index;
pub mod public;
pub mod remove_stuff;
pub mod rewards;
pub mod show_all;
pub mod show_people;
pub mod spreadsheets;
pub mod update_bonus_point;
pub mod update_event_and_person;
pub mod update_events;

use vstd::prelude::*;
use crate::auth::PermissionsRole;
use crate::error::VentError;
use crate::liquid_utils::DateTime;
use chrono::{Datelike, Timelike};

verus! {

/// An event as the add-event and edit-event forms send it; its date is text in the
/// form `%Y-%m-%dT%H:%M`.
pub struct FormEvent {
    pub name: String,
    pub date: String,
    pub location: String,
    pub teacher: String,
    pub info: String,
    pub is_locked: bool,
}

/// A person as the add-person and edit-person forms send them.
pub struct FormPerson {
    pub first_name: String,
    pub surname: String,
    pub username: String,
    pub form: Option<String>,
    pub permissions: PermissionsRole,
}

/// A bonus point as its form sends it.
pub struct FormBonusPoint {
    pub user_id: i32,
    pub reason: String,
    pub quantity: i32,
}

/// What `chrono` reads from a date and time written `%Y-%m-%dT%H:%M`, as the forms'
/// date fields send it: year, month, day, hour, minute, second and nanosecond, or `None`.
pub uninterp spec fn form_date_of(text: Seq<char>) -> Option<(i32, u32, u32, u32, u32, u32, u32)>;

/// `chrono::NaiveDateTime::parse_from_str` with the format `%Y-%m-%dT%H:%M`, the
/// result taken apart into its fields. The contract names the outcome; it depends on
/// the text alone.
#[verifier::external_body]
fn parse_form_date(text: &str) -> (r: Option<(i32, u32, u32, u32, u32, u32, u32)>)
    ensures
        r == form_date_of(text@),
{
    match chrono::NaiveDateTime::parse_from_str(text, "%Y-%m-%dT%H:%M") {
        Ok(d) => Some((d.year(), d.month(), d.day(), d.hour(), d.minute(), d.second(), d.nanosecond())),
        Err(_) => None,
    }
}

/// The date and time a form's text stands for, or the parse error that names the text.
pub fn date_from_form_fields(text: &str, fields: Option<(i32, u32, u32, u32, u32, u32, u32)>) -> (r: Result<DateTime, VentError>)
    ensures
        match fields {
            Some((y, mo, d, h, mi, s, n)) => r == Ok::<DateTime, VentError>(DateTime { year: y, month: mo, day: d, hour: h, minute: mi, second: s, nanosecond: n }),
            None => r matches Err(VentError::ParseTime { original }) && original@ == text@,
        },
{
    match fields {
        Some((year, month, day, hour, minute, second, nanosecond)) => Ok(DateTime { year, month, day, hour, minute, second, nanosecond }),
        None => Err(VentError::ParseTime { original: text.to_string() }),
    }
}

impl FormEvent {
    /// The date and time the form sent, or a parse error naming its text.
    pub fn parsed_date(&self) -> (r: Result<DateTime, VentError>)
        ensures
            match form_date_of(self.date@) {
                Some((y, mo, d, h, mi, s, n)) => r == Ok::<DateTime, VentError>(DateTime { year: y, month: mo, day: d, hour: h, minute: mi, second: s, nanosecond: n }),
                None => r matches Err(VentError::ParseTime { original }) && original@ == self.date@,
            },
    {
        let fields = parse_form_date(self.date.as_str());
        date_from_form_fields(self.date.as_str(), fields)
    }
}

} // verus!
