//! The front page: the coming events and the recent ones, with how many people are
//! at each and how many photos it has.
use vstd::prelude::*;
use crate::liquid_utils::{DateTime, chrono_format, try_to_env_string};

verus! {

/// An event as the front page lists it, its date written in the site's format.
pub struct HtmlEvent {
    pub id: i32,
    pub event_name: String,
    pub date: String,
}

/// An event as the front page lists it, or `None` where its date cannot be written in
/// `format`.
pub fn html_event(id: i32, event_name: String, date: &DateTime, format: &str) -> (r: Option<HtmlEvent>)
    ensures
        match r {
            Some(e) => e.id == id && e.event_name == event_name && chrono_format(*date, format@) == Some(e.date@),
            None => chrono_format(*date, format@) is None,
        },
{
    match try_to_env_string(date, format) {
        Some(d) => Some(HtmlEvent { id, event_name, date: d }),
        None => None,
    }
}

/// An event on the front page with its counts of participants, prefects and photos.
pub struct WholeEvent {
    pub event: HtmlEvent,
    pub participants: usize,
    pub prefects: usize,
    pub no_photos: usize,
}

} // verus!
