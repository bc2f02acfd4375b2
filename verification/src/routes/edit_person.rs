//! A person's page: their details, the events they supervised and took part in, the
//! photos of those events, and their points.
use vstd::prelude::*;
use crate::auth::PermissionsRole;
use crate::liquid_utils::{DateTime, chrono_format, try_to_env_string};
use crate::state::db_objects::DbPerson;

verus! {

/// A person as their page shows them: whether they have a password, not the hash.
pub struct PersonSummary {
    pub id: i32,
    pub permissions: PermissionsRole,
    pub first_name: String,
    pub surname: String,
    pub username: String,
    pub password_is_set: bool,
    pub form: String,
    pub was_first_entry: bool,
}

/// What a person's page shows of them.
pub fn person_summary(person: DbPerson) -> (s: PersonSummary)
    ensures
        s.id == person.id,
        s.permissions == person.permissions,
        s.first_name == person.first_name,
        s.surname == person.surname,
        s.username == person.username,
        s.password_is_set == person.hashed_password is Some,
        s.form == person.form,
        s.was_first_entry == person.was_first_entry,
{
    let password_is_set = person.hashed_password.is_some();
    PersonSummary {
        id: person.id,
        permissions: person.permissions,
        first_name: person.first_name,
        surname: person.surname,
        username: person.username,
        password_is_set,
        form: person.form,
        was_first_entry: person.was_first_entry,
    }
}

/// An event in a person's lists, its date written in the site's format.
pub struct DatedEvent {
    pub name: String,
    pub date: String,
    pub id: i32,
}

/// An event as a person's lists show it, or `None` where its date cannot be written
/// in `format`.
pub fn dated_event(name: String, date: &DateTime, id: i32, format: &str) -> (r: Option<DatedEvent>)
    ensures
        match r {
            Some(e) => e.name == name && e.id == id && chrono_format(*date, format@) == Some(e.date@),
            None => chrono_format(*date, format@) is None,
        },
{
    match try_to_env_string(date, format) {
        Some(d) => Some(DatedEvent { name, date: d, id }),
        None => None,
    }
}

/// A photo of an event a person took part in.
pub struct Photo {
    pub event_name: String,
    pub path: String,
}

/// The photos of an event, each with the event's name.
pub fn event_photos(event_name: &str, paths: &Vec<String>) -> (photos: Vec<Photo>)
    ensures
        photos@.len() == paths@.len(),
        forall|i: int| 0 <= i < paths@.len() ==>
            (#[trigger] photos@[i]).event_name@ == event_name@ && photos@[i].path@ == paths@[i]@,
{
    let mut photos: Vec<Photo> = Vec::new();
    let mut i: usize = 0;
    while i < paths.len()
        invariant
            i <= paths@.len(),
            photos@.len() == i,
            forall|j: int| 0 <= j < i ==>
                (#[trigger] photos@[j]).event_name@ == event_name@ && photos@[j].path@ == paths@[j]@,
        decreases paths@.len() - i,
    {
        photos.push(Photo { event_name: event_name.to_string(), path: paths[i].clone() });
        i = i + 1;
    }
    photos
}

} // verus!
