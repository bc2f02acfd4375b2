//! Importing and exporting people and events as CSV: reading a row's fields, deciding
//! whether an imported person is already known, and writing the exported rows.
pub mod csv_text;

use vstd::prelude::*;
use csv_text::{csv_rows_of, rows_view, fields_view, read_csv_rows, csv_document, csv_document_of};
use crate::auth::{PermissionsRole, role_rank};
use crate::error::{VentError, PersonField, EventField};
use crate::liquid_utils::{DateTime, chrono_format, try_to_env_string};
use crate::text::{owned, same_text, bool_text, parse_bool, parse_bool_text};
use chrono::{Datelike, Timelike};

verus! {

/// A person read from a row of the people CSV.
pub struct PersonRecord {
    pub first_name: String,
    pub surname: String,
    pub form: String,
    pub is_prefect: bool,
    pub username: String,
    pub was_first_entry: bool,
}

/// The error for a row of the people CSV, if it has one: the first of its first five
/// fields that is missing, or an `is_prefect` field that is not `true` or `false`.
pub open spec fn person_row_error(row: Seq<String>) -> Option<VentError> {
    if row.len() < 1 {
        Some(VentError::MalformedCSVPerson { was_trying_to_get: PersonField::FirstName })
    } else if row.len() < 2 {
        Some(VentError::MalformedCSVPerson { was_trying_to_get: PersonField::Surname })
    } else if row.len() < 3 {
        Some(VentError::MalformedCSVPerson { was_trying_to_get: PersonField::Form })
    } else if row.len() < 4 {
        Some(VentError::MalformedCSVPerson { was_trying_to_get: PersonField::IsPrefect })
    } else if parse_bool(row[3]@) is None {
        Some(VentError::ParseBool { field: PersonField::IsPrefect })
    } else if row.len() < 5 {
        Some(VentError::MalformedCSVPerson { was_trying_to_get: PersonField::Username })
    } else {
        None
    }
}

/// `p` is what a good row of the people CSV holds: first name, surname, form,
/// whether a prefect, username, and whether they joined in their first year (a sixth
/// field that is not `true` or `false`, or none, counts as `true`).
pub open spec fn person_from_row(row: Seq<String>, p: PersonRecord) -> bool {
    &&& p.first_name@ == row[0]@
    &&& p.surname@ == row[1]@
    &&& p.form@ == row[2]@
    &&& Some(p.is_prefect) == parse_bool(row[3]@)
    &&& p.username@ == row[4]@
    &&& p.was_first_entry == (if row.len() > 5 {
        match parse_bool(row[5]@) {
            Some(b) => b,
            None => true,
        }
    } else {
        true
    })
}

/// Reads a person from a row of the people CSV.
pub fn parse_person_row(row: &Vec<String>) -> (r: Result<PersonRecord, VentError>)
    ensures
        match r {
            Ok(p) => person_row_error(row@) is None && person_from_row(row@, p),
            Err(e) => person_row_error(row@) == Some(e),
        },
{
    if row.len() < 1 {
        return Err(VentError::MalformedCSVPerson { was_trying_to_get: PersonField::FirstName });
    }
    if row.len() < 2 {
        return Err(VentError::MalformedCSVPerson { was_trying_to_get: PersonField::Surname });
    }
    if row.len() < 3 {
        return Err(VentError::MalformedCSVPerson { was_trying_to_get: PersonField::Form });
    }
    if row.len() < 4 {
        return Err(VentError::MalformedCSVPerson { was_trying_to_get: PersonField::IsPrefect });
    }
    let is_prefect = match parse_bool_text(row[3].as_str()) {
        Some(b) => b,
        None => {
            return Err(VentError::ParseBool { field: PersonField::IsPrefect });
        },
    };
    if row.len() < 5 {
        return Err(VentError::MalformedCSVPerson { was_trying_to_get: PersonField::Username });
    }
    let was_first_entry = if row.len() > 5 {
        match parse_bool_text(row[5].as_str()) {
            Some(b) => b,
            None => true,
        }
    } else {
        true
    };
    Ok(PersonRecord {
        first_name: row[0].clone(),
        surname: row[1].clone(),
        form: row[2].clone(),
        is_prefect,
        username: row[4].clone(),
        was_first_entry,
    })
}

/// The role an imported person gets: prefect or participant.
pub fn import_role(is_prefect: bool) -> (r: PermissionsRole)
    ensures
        r == (if is_prefect { PermissionsRole::Prefect } else { PermissionsRole::Participant }),
{
    if is_prefect {
        PermissionsRole::Prefect
    } else {
        PermissionsRole::Participant
    }
}

/// A text of some person's (a form, a first name or a surname) with that person's id.
pub struct TextId {
    pub text: String,
    pub id: i32,
}

/// The id paired with the last occurrence of `text`, as a map built from the pairs in
/// order holds it.
pub open spec fn last_id_for(pairs: Seq<TextId>, text: Seq<char>) -> Option<i32>
    decreases pairs.len(),
{
    if pairs.len() == 0 {
        None
    } else if pairs.last().text@ == text {
        Some(pairs.last().id)
    } else {
        last_id_for(pairs.drop_last(), text)
    }
}

/// Looks up the id paired with the last occurrence of `text`.
pub fn lookup_last_id(pairs: &Vec<TextId>, text: &str) -> (r: Option<i32>)
    ensures
        r == last_id_for(pairs@, text@),
{
    let mut j: usize = pairs.len();
    assert(pairs@.take(pairs@.len() as int) =~= pairs@);
    while j > 0 && !same_text(pairs[j - 1].text.as_str(), text)
        invariant
            j <= pairs@.len(),
            last_id_for(pairs@, text@) == last_id_for(pairs@.take(j as int), text@),
        decreases j,
    {
        assert(pairs@.take(j as int).drop_last() =~= pairs@.take(j - 1));
        j = j - 1;
    }
    if j == 0 {
        None
    } else {
        Some(pairs[j - 1].id)
    }
}

/// The person an imported row is taken to be, if any: the one whose id the form,
/// the first name and the surname all point to.
pub open spec fn known_person(forms: Seq<TextId>, first_names: Seq<TextId>, surnames: Seq<TextId>, p: PersonRecord) -> Option<i32> {
    match last_id_for(forms, p.form@) {
        Some(f) => match last_id_for(first_names, p.first_name@) {
            Some(n) => if f == n {
                match last_id_for(surnames, p.surname@) {
                    Some(s) => if s == f { Some(f) } else { None },
                    None => None,
                }
            } else {
                None
            },
            None => None,
        },
        None => None,
    }
}

/// Decides whether an imported person updates a known person (their id) or is added.
pub fn existing_person(forms: &Vec<TextId>, first_names: &Vec<TextId>, surnames: &Vec<TextId>, p: &PersonRecord) -> (r: Option<i32>)
    ensures
        r == known_person(forms@, first_names@, surnames@, *p),
        forall|id: i32| r == Some(id) <==> {
            &&& last_id_for(forms@, p.form@) == Some(id)
            &&& last_id_for(first_names@, p.first_name@) == Some(id)
            &&& last_id_for(surnames@, p.surname@) == Some(id)
        },
{
    match lookup_last_id(forms, p.form.as_str()) {
        Some(f) => match lookup_last_id(first_names, p.first_name.as_str()) {
            Some(n) => if f == n {
                match lookup_last_id(surnames, p.surname.as_str()) {
                    Some(s) => if s == f { Some(f) } else { None },
                    None => None,
                }
            } else {
                None
            },
            None => None,
        },
        None => None,
    }
}

/// What `chrono` reads from a date written `%d-%m-%Y`: year, month and day, or
/// `None`.
pub uninterp spec fn dmy_date_of(text: Seq<char>) -> Option<(i32, u32, u32)>;

/// What `chrono` reads from a time written `%R` (`%H:%M`): hour and minute, or
/// `None`.
pub uninterp spec fn hm_time_of(text: Seq<char>) -> Option<(u32, u32)>;

/// `chrono::NaiveDate::parse_from_str` with the format `%d-%m-%Y`, the date taken
/// apart into year, month and day. The contract names the outcome; it depends on the
/// text alone.
#[verifier::external_body]
fn parse_dmy_date(text: &str) -> (r: Option<(i32, u32, u32)>)
    ensures
        r == dmy_date_of(text@),
{
    match chrono::NaiveDate::parse_from_str(text, "%d-%m-%Y") {
        Ok(d) => Some((d.year(), d.month(), d.day())),
        Err(_) => None,
    }
}

/// `chrono::NaiveTime::parse_from_str` with the format `%R`, the time taken apart into
/// hour and minute. The contract names the outcome; it depends on the text alone.
#[verifier::external_body]
fn parse_hm_time(text: &str) -> (r: Option<(u32, u32)>)
    ensures
        r == hm_time_of(text@),
{
    match chrono::NaiveTime::parse_from_str(text, "%R") {
        Ok(t) => Some((t.hour(), t.minute())),
        Err(_) => None,
    }
}

/// An event read from a row of the events CSV.
pub struct EventRecord {
    pub name: String,
    pub location: String,
    pub teacher: String,
    pub date: (i32, u32, u32),
    pub time: (u32, u32),
}

/// The error for a row of the events CSV, if it has one, checked in this order: a
/// missing location (fifth field), teacher (fourth), or date (first), a date that is
/// not `%d-%m-%Y`, a missing name (second) or time (third), a time that is not
/// `%H:%M`.
pub open spec fn event_row_error(row: Seq<String>) -> Option<VentError> {
    if row.len() < 5 {
        Some(VentError::MalformedCSVEvent { was_trying_to_get: EventField::Location })
    } else if dmy_date_of(row[0]@) is None {
        Some(VentError::ParseTime { original: row[0] })
    } else if hm_time_of(row[2]@) is None {
        Some(VentError::ParseTime { original: row[2] })
    } else {
        None
    }
}

/// `e` is what a good row of the events CSV holds.
pub open spec fn event_from_row(row: Seq<String>, e: EventRecord) -> bool {
    &&& e.name@ == row[1]@
    &&& e.location@ == row[4]@
    &&& e.teacher@ == row[3]@
    &&& dmy_date_of(row[0]@) == Some(e.date)
    &&& hm_time_of(row[2]@) == Some(e.time)
}

/// Reads an event from a row of the events CSV.
pub fn parse_event_row(row: &Vec<String>) -> (r: Result<EventRecord, VentError>)
    ensures
        match r {
            Ok(e) => event_row_error(row@) is None && event_from_row(row@, e),
            Err(err) => event_row_error(row@) == Some(err),
        },
{
    if row.len() < 5 {
        return Err(VentError::MalformedCSVEvent { was_trying_to_get: EventField::Location });
    }
    let date = match parse_dmy_date(row[0].as_str()) {
        Some(d) => d,
        None => {
            return Err(VentError::ParseTime { original: row[0].clone() });
        },
    };
    let time = match parse_hm_time(row[2].as_str()) {
        Some(t) => t,
        None => {
            return Err(VentError::ParseTime { original: row[2].clone() });
        },
    };
    Ok(EventRecord {
        name: row[1].clone(),
        location: row[4].clone(),
        teacher: row[3].clone(),
        date,
        time,
    })
}


/// The person a row of the people CSV is taken to be, if any: the one whose id its
/// form, first name and surname all point to.
pub open spec fn known_row(forms: Seq<TextId>, first_names: Seq<TextId>, surnames: Seq<TextId>, row: Seq<String>) -> Option<i32> {
    match last_id_for(forms, row[2]@) {
        Some(f) => match last_id_for(first_names, row[0]@) {
            Some(n) => if f == n {
                match last_id_for(surnames, row[1]@) {
                    Some(s) => if s == f { Some(f) } else { None },
                    None => None,
                }
            } else {
                None
            },
            None => None,
        },
        None => None,
    }
}

/// What importing one person does to the people table.
pub enum PersonImport {
    /// A known person gets the row's role and username.
    Update { id: i32, permissions: PermissionsRole, username: String },
    /// Anyone else is added.
    Create(PersonRecord),
}

/// `step` is what a good row of the people CSV does.
pub open spec fn person_step(forms: Seq<TextId>, first_names: Seq<TextId>, surnames: Seq<TextId>, row: Seq<String>, step: PersonImport) -> bool {
    match step {
        PersonImport::Update { id, permissions, username } => {
            &&& known_row(forms, first_names, surnames, row) == Some(id)
            &&& Some(permissions == PermissionsRole::Prefect) == parse_bool(row[3]@)
            &&& (permissions == PermissionsRole::Prefect || permissions == PermissionsRole::Participant)
            &&& username@ == row[4]@
        },
        PersonImport::Create(p) => {
            &&& known_row(forms, first_names, surnames, row) is None
            &&& person_from_row(row, p)
        },
    }
}

/// The steps of an import, in the order of the rows, and the error it stopped on.
pub struct ImportPlan<T> {
    pub steps: Vec<T>,
    pub error: Option<VentError>,
}

/// `steps` and `error` take the rows of the people CSV in order up to the first bad
/// one: a step for each good row, then the bad row's error, or, where every row is
/// good, a CSV error if reading stopped on one.
pub open spec fn people_plan(
    forms: Seq<TextId>,
    first_names: Seq<TextId>,
    surnames: Seq<TextId>,
    rows: Seq<Vec<String>>,
    read_failed: bool,
    steps: Seq<PersonImport>,
    error: Option<VentError>,
) -> bool {
    &&& steps.len() <= rows.len()
    &&& forall|j: int| 0 <= j < steps.len() ==>
        (#[trigger] person_row_error(rows[j]@)) is None && person_step(forms, first_names, surnames, rows[j]@, steps[j])
    &&& steps.len() < rows.len() ==> error == person_row_error(rows[steps.len() as int]@) && error is Some
    &&& steps.len() == rows.len() ==> error == (if read_failed { Some(VentError::Csv) } else { None })
}

/// `steps` and `error` take the rows of the events CSV in order up to the first bad
/// one: an event for each good row, then the bad row's error, or, where every row is
/// good, a CSV error if reading stopped on one.
pub open spec fn events_plan(rows: Seq<Vec<String>>, read_failed: bool, steps: Seq<EventRecord>, error: Option<VentError>) -> bool {
    &&& steps.len() <= rows.len()
    &&& forall|j: int| 0 <= j < steps.len() ==>
        (#[trigger] event_row_error(rows[j]@)) is None && event_from_row(rows[j]@, steps[j])
    &&& steps.len() < rows.len() ==> error == event_row_error(rows[steps.len() as int]@) && error is Some
    &&& steps.len() == rows.len() ==> error == (if read_failed { Some(VentError::Csv) } else { None })
}

/// Plans the import of people from the rows of their CSV: each known person is
/// updated, anyone else added, until the first bad row.
pub fn plan_people_import(
    rows: &Vec<Vec<String>>,
    read_failed: bool,
    forms: &Vec<TextId>,
    first_names: &Vec<TextId>,
    surnames: &Vec<TextId>,
) -> (plan: ImportPlan<PersonImport>)
    ensures
        people_plan(forms@, first_names@, surnames@, rows@, read_failed, plan.steps@, plan.error),
{
    let mut steps: Vec<PersonImport> = Vec::new();
    let mut i: usize = 0;
    while i < rows.len()
        invariant
            i <= rows@.len(),
            steps@.len() == i,
            forall|j: int| 0 <= j < i ==>
                (#[trigger] person_row_error(rows@[j]@)) is None && person_step(forms@, first_names@, surnames@, rows@[j]@, steps@[j]),
        decreases rows@.len() - i,
    {
        let record = match parse_person_row(&rows[i]) {
            Ok(p) => p,
            Err(e) => {
                return ImportPlan { steps, error: Some(e) };
            },
        };
        let step = match existing_person(forms, first_names, surnames, &record) {
            Some(id) => PersonImport::Update {
                id,
                permissions: import_role(record.is_prefect),
                username: record.username,
            },
            None => PersonImport::Create(record),
        };
        steps.push(step);
        i = i + 1;
    }
    ImportPlan { steps, error: if read_failed { Some(VentError::Csv) } else { None } }
}

/// Plans the import of people from an uploaded CSV text.
pub fn import_people(text: &str, forms: &Vec<TextId>, first_names: &Vec<TextId>, surnames: &Vec<TextId>) -> (plan: ImportPlan<PersonImport>)
    ensures
        exists|rows: Seq<Vec<String>>, read_failed: bool|
            #![trigger rows_view(rows), people_plan(forms@, first_names@, surnames@, rows, read_failed, plan.steps@, plan.error)]
            (rows_view(rows), read_failed) == csv_rows_of(text@)
            && people_plan(forms@, first_names@, surnames@, rows, read_failed, plan.steps@, plan.error),
{
    let (rows, read_failed) = read_csv_rows(text);
    plan_people_import(&rows, read_failed, forms, first_names, surnames)
}

/// Plans the import of events from the rows of their CSV: an event for each row, until
/// the first bad row.
pub fn plan_events_import(rows: &Vec<Vec<String>>, read_failed: bool) -> (plan: ImportPlan<EventRecord>)
    ensures
        events_plan(rows@, read_failed, plan.steps@, plan.error),
{
    let mut steps: Vec<EventRecord> = Vec::new();
    let mut i: usize = 0;
    while i < rows.len()
        invariant
            i <= rows@.len(),
            steps@.len() == i,
            forall|j: int| 0 <= j < i ==>
                (#[trigger] event_row_error(rows@[j]@)) is None && event_from_row(rows@[j]@, steps@[j]),
        decreases rows@.len() - i,
    {
        match parse_event_row(&rows[i]) {
            Ok(e) => steps.push(e),
            Err(e) => {
                return ImportPlan { steps, error: Some(e) };
            },
        }
        i = i + 1;
    }
    ImportPlan { steps, error: if read_failed { Some(VentError::Csv) } else { None } }
}

/// Plans the import of events from an uploaded CSV text.
pub fn import_events(text: &str) -> (plan: ImportPlan<EventRecord>)
    ensures
        exists|rows: Seq<Vec<String>>, read_failed: bool|
            #![trigger rows_view(rows), events_plan(rows, read_failed, plan.steps@, plan.error)]
            (rows_view(rows), read_failed) == csv_rows_of(text@)
            && events_plan(rows, read_failed, plan.steps@, plan.error),
{
    let (rows, read_failed) = read_csv_rows(text);
    plan_events_import(&rows, read_failed)
}

/// The header row of the people export.
pub open spec fn people_header() -> Seq<Seq<char>> {
    seq!["first_name"@, "surname"@, "form"@, "is_prefect"@, "username"@, "was_first_entry"@]
}

/// The header row of the people export.
pub fn people_export_header() -> (row: Vec<String>)
    ensures
        row@.map_values(|s: String| s@) == people_header(),
{
    let mut row: Vec<String> = Vec::new();
    row.push(owned("first_name"));
    row.push(owned("surname"));
    row.push(owned("form"));
    row.push(owned("is_prefect"));
    row.push(owned("username"));
    row.push(owned("was_first_entry"));
    assert(row@.map_values(|s: String| s@) =~= people_header());
    row
}

/// A person as the people export writes them.
pub struct ExportPerson {
    pub first_name: String,
    pub surname: String,
    pub form: String,
    pub permissions: PermissionsRole,
    pub username: String,
    pub was_first_entry: bool,
}

/// The text `bool`'s `Display` writes.
pub open spec fn bool_word(b: bool) -> Seq<char> {
    if b { "true"@ } else { "false"@ }
}

/// A person's row in the people export: names, form, whether a prefect or above,
/// username, and whether they joined in their first year.
pub open spec fn person_row(p: ExportPerson) -> Seq<Seq<char>> {
    seq![
        p.first_name@,
        p.surname@,
        p.form@,
        bool_word(role_rank(p.permissions) >= role_rank(PermissionsRole::Prefect)),
        p.username@,
        bool_word(p.was_first_entry),
    ]
}

/// Writes a person's row of the people export; reading it back with
/// `parse_person_row` gives the person again.
pub fn person_export_row(p: &ExportPerson) -> (row: Vec<String>)
    ensures
        row@.map_values(|s: String| s@) == person_row(*p),
{
    let mut row: Vec<String> = Vec::new();
    row.push(p.first_name.clone());
    row.push(p.surname.clone());
    row.push(p.form.clone());
    row.push(owned(bool_text(p.permissions.at_least(PermissionsRole::Prefect))));
    row.push(p.username.clone());
    row.push(owned(bool_text(p.was_first_entry)));
    assert(row@.map_values(|s: String| s@) =~= person_row(*p));
    row
}

/// The header row of the events export.
pub open spec fn events_header() -> Seq<Seq<char>> {
    seq!["date"@, "name"@, "time"@, "location"@, "teacher"@]
}

/// The header row of the events export.
pub fn events_export_header() -> (row: Vec<String>)
    ensures
        row@.map_values(|s: String| s@) == events_header(),
{
    let mut row: Vec<String> = Vec::new();
    row.push(owned("date"));
    row.push(owned("name"));
    row.push(owned("time"));
    row.push(owned("location"));
    row.push(owned("teacher"));
    assert(row@.map_values(|s: String| s@) =~= events_header());
    row
}

/// An event as the events export writes it.
pub struct ExportEvent {
    pub event_name: String,
    pub date: DateTime,
    pub location: String,
    pub teacher: String,
}

/// Whether an event's date can be written in the export's formats.
pub open spec fn event_writable(e: ExportEvent) -> bool {
    chrono_format(e.date, "%d-%m-%Y"@) is Some && chrono_format(e.date, "%H:%M"@) is Some
}

/// An event's row in the events export: date (`%d-%m-%Y`), name, time (`%H:%M`),
/// location and teacher.
pub open spec fn event_row(e: ExportEvent) -> Seq<Seq<char>> {
    seq![
        chrono_format(e.date, "%d-%m-%Y"@)->0,
        e.event_name@,
        chrono_format(e.date, "%H:%M"@)->0,
        e.location@,
        e.teacher@,
    ]
}

/// Writes an event's row of the events export, or `None` where its date cannot be
/// written.
pub fn event_export_row(e: &ExportEvent) -> (r: Option<Vec<String>>)
    ensures
        match r {
            Some(row) => event_writable(*e) && row@.map_values(|s: String| s@) == event_row(*e),
            None => !event_writable(*e),
        },
{
    let date = match try_to_env_string(&e.date, "%d-%m-%Y") {
        Some(d) => d,
        None => {
            return None;
        },
    };
    let time = match try_to_env_string(&e.date, "%H:%M") {
        Some(t) => t,
        None => {
            return None;
        },
    };
    let mut row: Vec<String> = Vec::new();
    row.push(date);
    row.push(e.event_name.clone());
    row.push(time);
    row.push(e.location.clone());
    row.push(e.teacher.clone());
    assert(row@.map_values(|s: String| s@) =~= event_row(*e));
    Some(row)
}

/// The rows of the people export: the header, then a row for each person in order.
pub open spec fn people_export_rows(people: Seq<ExportPerson>) -> Seq<Seq<Seq<char>>> {
    seq![people_header()] + people.map_values(|p: ExportPerson| person_row(p))
}

/// Writes the people export as a CSV file.
pub fn people_csv(people: &Vec<ExportPerson>) -> (bytes: Vec<u8>)
    ensures
        bytes@ == csv_document_of(people_export_rows(people@)),
{
    let mut rows: Vec<Vec<String>> = Vec::new();
    rows.push(people_export_header());
    let mut i: usize = 0;
    while i < people.len()
        invariant
            i <= people@.len(),
            rows_view(rows@) == people_export_rows(people@.take(i as int)),
        decreases people@.len() - i,
    {
        rows.push(person_export_row(&people[i]));
        proof {
            assert(people_export_rows(people@.take(i + 1)) =~= people_export_rows(people@.take(i as int)).push(person_row(people@[i as int])));
            assert(rows_view(rows@) =~= people_export_rows(people@.take(i + 1)));
        }
        i = i + 1;
    }
    assert(people@.take(people@.len() as int) =~= people@);
    csv_document(&rows)
}

/// The rows of the events export: the header, then a row for each event in order.
pub open spec fn events_export_rows(events: Seq<ExportEvent>) -> Seq<Seq<Seq<char>>> {
    seq![events_header()] + events.map_values(|e: ExportEvent| event_row(e))
}

/// Writes the events export as a CSV file, or `None` where some event's date cannot be
/// written.
pub fn events_csv(events: &Vec<ExportEvent>) -> (r: Option<Vec<u8>>)
    ensures
        match r {
            Some(bytes) => (forall|j: int| 0 <= j < events@.len() ==> #[trigger] event_writable(events@[j]))
                && bytes@ == csv_document_of(events_export_rows(events@)),
            None => exists|j: int| 0 <= j < events@.len() && !#[trigger] event_writable(events@[j]),
        },
{
    let mut rows: Vec<Vec<String>> = Vec::new();
    rows.push(events_export_header());
    let mut i: usize = 0;
    while i < events.len()
        invariant
            i <= events@.len(),
            rows_view(rows@) == events_export_rows(events@.take(i as int)),
            forall|j: int| 0 <= j < i ==> #[trigger] event_writable(events@[j]),
        decreases events@.len() - i,
    {
        match event_export_row(&events[i]) {
            Some(row) => {
                rows.push(row);
                proof {
                    assert(events_export_rows(events@.take(i + 1)) =~= events_export_rows(events@.take(i as int)).push(event_row(events@[i as int])));
                    assert(rows_view(rows@) =~= events_export_rows(events@.take(i + 1)));
                }
            },
            None => {
                return None;
            },
        }
        i = i + 1;
    }
    assert(events@.take(events@.len() as int) =~= events@);
    Some(csv_document(&rows))
}

/// Exporting a person and importing the row again gives back their names, form and
/// username, whether they are a prefect or above, and whether they joined in their
/// first year.
pub proof fn lemma_person_round_trip(p: ExportPerson, row: Seq<String>, back: PersonRecord)
    requires
        row.map_values(|s: String| s@) == person_row(p),
        person_from_row(row, back),
    ensures
        person_row_error(row) is None,
        back.first_name@ == p.first_name@,
        back.surname@ == p.surname@,
        back.form@ == p.form@,
        back.username@ == p.username@,
        back.is_prefect == (role_rank(p.permissions) >= role_rank(PermissionsRole::Prefect)),
        back.was_first_entry == p.was_first_entry,
{
    reveal_strlit("true");
    reveal_strlit("false");
    assert("true"@.len() == 4);
    assert("false"@.len() == 5);
    let views = row.map_values(|s: String| s@);
    assert(views.len() == row.len());
    assert(person_row(p).len() == 6);
    assert(views[3] == row[3]@);
    assert(views[5] == row[5]@);
    assert(views[0] == row[0]@ && views[1] == row[1]@ && views[2] == row[2]@ && views[4] == row[4]@);
}

/// A row the people export writes is a good row of the people CSV.
pub proof fn lemma_exported_row_is_good(p: ExportPerson, row: Seq<String>)
    requires
        row.map_values(|s: String| s@) == person_row(p),
    ensures
        person_row_error(row) is None,
{
    reveal_strlit("true");
    reveal_strlit("false");
    assert("true"@.len() == 4);
    assert("false"@.len() == 5);
    let views = row.map_values(|s: String| s@);
    assert(views.len() == row.len());
    assert(person_row(p).len() == 6);
    assert(views[3] == row[3]@);
}

/// Importing the rows the people export writes for some people (the reader skips the
/// header) ends with no error and takes one step per person, in order: a known person
/// keeps their username and gets prefect rights exactly when they were a prefect or
/// above; anyone else comes back with their names, form, username, prefect flag and
/// first-entry flag.
pub proof fn lemma_export_then_import(
    people: Seq<ExportPerson>,
    forms: Seq<TextId>,
    first_names: Seq<TextId>,
    surnames: Seq<TextId>,
    rows: Seq<Vec<String>>,
    steps: Seq<PersonImport>,
    error: Option<VentError>,
)
    requires
        rows_view(rows) == people.map_values(|p: ExportPerson| person_row(p)),
        people_plan(forms, first_names, surnames, rows, false, steps, error),
    ensures
        error is None,
        steps.len() == people.len(),
        forall|j: int| 0 <= j < steps.len() ==> match #[trigger] steps[j] {
            PersonImport::Update { id, permissions, username } => {
                &&& username@ == people[j].username@
                &&& (permissions == PermissionsRole::Prefect) == (role_rank(people[j].permissions) >= role_rank(PermissionsRole::Prefect))
            },
            PersonImport::Create(back) => {
                &&& back.first_name@ == people[j].first_name@
                &&& back.surname@ == people[j].surname@
                &&& back.form@ == people[j].form@
                &&& back.username@ == people[j].username@
                &&& back.is_prefect == (role_rank(people[j].permissions) >= role_rank(PermissionsRole::Prefect))
                &&& back.was_first_entry == people[j].was_first_entry
            },
        },
{
    assert(rows_view(rows).len() == rows.len());
    if steps.len() < rows.len() {
        let k = steps.len() as int;
        assert(rows_view(rows)[k] == fields_view(rows[k]@));
        lemma_exported_row_is_good(people[k], rows[k]@);
    }
    assert forall|j: int| 0 <= j < steps.len() implies match #[trigger] steps[j] {
        PersonImport::Update { id, permissions, username } => {
            &&& username@ == people[j].username@
            &&& (permissions == PermissionsRole::Prefect) == (role_rank(people[j].permissions) >= role_rank(PermissionsRole::Prefect))
        },
        PersonImport::Create(back) => {
            &&& back.first_name@ == people[j].first_name@
            &&& back.surname@ == people[j].surname@
            &&& back.form@ == people[j].form@
            &&& back.username@ == people[j].username@
            &&& back.is_prefect == (role_rank(people[j].permissions) >= role_rank(PermissionsRole::Prefect))
            &&& back.was_first_entry == people[j].was_first_entry
        },
    } by {
        assert(rows_view(rows)[j] == fields_view(rows[j]@));
        let row = rows[j]@;
        assert(row.map_values(|s: String| s@) == person_row(people[j]));
        assert(person_row_error(row) is None);
        match steps[j] {
            PersonImport::Update { id, permissions, username } => {
                reveal_strlit("true");
                reveal_strlit("false");
                let views = row.map_values(|s: String| s@);
                assert(views[3] == row[3]@);
                assert(views[4] == row[4]@);
            },
            PersonImport::Create(back) => {
                lemma_person_round_trip(people[j], row, back);
            },
        }
    }
}

/// Importing the rows the events export writes for some events, where it ends with no
/// error, takes one event per exported event, in order, with its name; the import reads
/// the fourth field as the teacher and the fifth as the location, while the export
/// writes the location fourth and the teacher fifth, so the two come back swapped.
pub proof fn lemma_events_export_then_import(
    events: Seq<ExportEvent>,
    rows: Seq<Vec<String>>,
    steps: Seq<EventRecord>,
)
    requires
        rows_view(rows) == events.map_values(|e: ExportEvent| event_row(e)),
        events_plan(rows, false, steps, None),
    ensures
        steps.len() == events.len(),
        forall|j: int| 0 <= j < steps.len() ==> {
            &&& (#[trigger] steps[j]).name@ == events[j].event_name@
            &&& steps[j].teacher@ == events[j].location@
            &&& steps[j].location@ == events[j].teacher@
        },
{
    assert(rows_view(rows).len() == rows.len());
    assert forall|j: int| 0 <= j < steps.len() implies {
        &&& (#[trigger] steps[j]).name@ == events[j].event_name@
        &&& steps[j].teacher@ == events[j].location@
        &&& steps[j].location@ == events[j].teacher@
    } by {
        assert(rows_view(rows)[j] == fields_view(rows[j]@));
        assert(event_row_error(rows[j]@) is None && event_from_row(rows[j]@, steps[j]));
        let views = rows[j]@.map_values(|f: String| f@);
        assert(views == event_row(events[j]));
        assert(views[1] == rows[j]@[1]@);
        assert(views[3] == rows[j]@[3]@);
        assert(views[4] == rows[j]@[4]@);
    }
}


/// The id recorded last for a text: `last_id_for` gives `id` exactly when some pair
/// holds the text with `id` and no later pair holds the text.
pub proof fn lemma_last_id_is_last_recorded(pairs: Seq<TextId>, text: Seq<char>, id: i32)
    ensures
        last_id_for(pairs, text) == Some(id) <==> exists|i: int| {
            &&& 0 <= i < pairs.len()
            &&& (#[trigger] pairs[i]).text@ == text
            &&& pairs[i].id == id
            &&& forall|j: int| i < j < pairs.len() ==> (#[trigger] pairs[j]).text@ != text
        },
        last_id_for(pairs, text) is None <==> forall|i: int| 0 <= i < pairs.len() ==> (#[trigger] pairs[i]).text@ != text,
    decreases pairs.len(),
{
    if pairs.len() > 0 {
        let init = pairs.drop_last();
        lemma_last_id_is_last_recorded(init, text, id);
        let n = pairs.len() - 1;
        if pairs.last().text@ == text {
            if pairs.last().id == id {
                assert(pairs[n].text@ == text && pairs[n].id == id);
            } else {
                if exists|i: int| {
                    &&& 0 <= i < pairs.len()
                    &&& (#[trigger] pairs[i]).text@ == text
                    &&& pairs[i].id == id
                    &&& forall|j: int| i < j < pairs.len() ==> (#[trigger] pairs[j]).text@ != text
                } {
                    let i = choose|i: int| {
                        &&& 0 <= i < pairs.len()
                        &&& (#[trigger] pairs[i]).text@ == text
                        &&& pairs[i].id == id
                        &&& forall|j: int| i < j < pairs.len() ==> (#[trigger] pairs[j]).text@ != text
                    };
                    if i < n {
                        assert(pairs[n].text@ != text);
                    }
                }
            }
            assert(pairs[n].text@ == text);
        } else {
            assert forall|i: int| 0 <= i < init.len() implies init[i] == pairs[i] by {}
            if last_id_for(init, text) == Some(id) {
                let i = choose|i: int| {
                    &&& 0 <= i < init.len()
                    &&& (#[trigger] init[i]).text@ == text
                    &&& init[i].id == id
                    &&& forall|j: int| i < j < init.len() ==> (#[trigger] init[j]).text@ != text
                };
                assert(pairs[i] == init[i]);
                assert forall|j: int| i < j < pairs.len() implies (#[trigger] pairs[j]).text@ != text by {
                    if j < n {
                        assert(pairs[j] == init[j]);
                    }
                }
            }
            if exists|i: int| {
                &&& 0 <= i < pairs.len()
                &&& (#[trigger] pairs[i]).text@ == text
                &&& pairs[i].id == id
                &&& forall|j: int| i < j < pairs.len() ==> (#[trigger] pairs[j]).text@ != text
            } {
                let i = choose|i: int| {
                    &&& 0 <= i < pairs.len()
                    &&& (#[trigger] pairs[i]).text@ == text
                    &&& pairs[i].id == id
                    &&& forall|j: int| i < j < pairs.len() ==> (#[trigger] pairs[j]).text@ != text
                };
                assert(i < n);
                assert(init[i] == pairs[i]);
                assert forall|j: int| i < j < init.len() implies (#[trigger] init[j]).text@ != text by {
                    assert(init[j] == pairs[j]);
                }
            }
            assert forall|i: int| 0 <= i < init.len() implies ((#[trigger] init[i]).text@ != text <==> pairs[i].text@ != text) by {
                assert(init[i] == pairs[i]);
            }
            if last_id_for(init, text) is None {
                assert forall|i: int| 0 <= i < pairs.len() implies (#[trigger] pairs[i]).text@ != text by {
                    if i < n {
                        assert(init[i] == pairs[i]);
                    }
                }
            }
            if forall|i: int| 0 <= i < pairs.len() ==> (#[trigger] pairs[i]).text@ != text {
                assert forall|i: int| 0 <= i < init.len() implies (#[trigger] init[i]).text@ != text by {
                    assert(init[i] == pairs[i]);
                }
            }
        }
    }
}

/// An imported person is matched to a known person exactly when their form, first
/// name and surname were each recorded last for that same person; then the match is
/// that person's id.
pub proof fn lemma_match_needs_all_three(forms: Seq<TextId>, first_names: Seq<TextId>, surnames: Seq<TextId>, p: PersonRecord, id: i32)
    ensures
        known_person(forms, first_names, surnames, p) == Some(id) <==> {
            &&& last_id_for(forms, p.form@) == Some(id)
            &&& last_id_for(first_names, p.first_name@) == Some(id)
            &&& last_id_for(surnames, p.surname@) == Some(id)
        },
{
}

/// A row of the people CSV (first name, surname, form, ...) is matched to a known
/// person exactly when its form, first name and surname were each recorded last for
/// that same person; then the match is that person's id.
pub proof fn lemma_row_match_needs_all_three(forms: Seq<TextId>, first_names: Seq<TextId>, surnames: Seq<TextId>, row: Seq<String>, id: i32)
    ensures
        known_row(forms, first_names, surnames, row) == Some(id) <==> {
            &&& last_id_for(forms, row[2]@) == Some(id)
            &&& last_id_for(first_names, row[0]@) == Some(id)
            &&& last_id_for(surnames, row[1]@) == Some(id)
        },
{
}

} // verus!
