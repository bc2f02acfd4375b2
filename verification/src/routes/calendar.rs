//! The calendar feed: its title, what each event's entry says, and when the worker
//! that writes it stops, writes again or waits.
use vstd::prelude::*;
use crate::text::{owned, joined, join_strings};
use crate::liquid_utils::DateTime;
use crate::state::db_objects::DbEvent;
use icalendar::{Component, EventLike};

verus! {

/// The title of the calendar: `{instance name} Events`.
pub fn calendar_title(instance_name: &str) -> (t: String)
    ensures
        t@ == instance_name@ + " Events"@,
{
    let mut t = owned(instance_name);
    t.append(" Events");
    t
}

/// A person who may supervise events, with the name the calendar shows.
pub struct PrefectName {
    pub id: i32,
    pub name: String,
}

/// A prefect's name as the calendar shows it: first name and surname.
pub fn prefect_name(id: i32, first_name: &str, surname: &str) -> (p: PrefectName)
    ensures
        p.id == id,
        p.name@ == first_name@ + " "@ + surname@,
{
    let mut name = owned(first_name);
    name.append(" ");
    name.append(surname);
    PrefectName { id, name }
}

/// The position of the last entry for `id` in `prefects`, or -1.
pub open spec fn last_prefect(prefects: Seq<PrefectName>, id: i32) -> int
    decreases prefects.len(),
{
    if prefects.len() == 0 {
        -1
    } else if prefects.last().id == id {
        prefects.len() - 1
    } else {
        last_prefect(prefects.drop_last(), id)
    }
}

/// The names the calendar lists as attending `event_id`. Each `(event, prefect)`
/// relation of the event adds the name of the prefect
/// whose id equals the event's id, when there is such a prefect.
pub open spec fn attending(prefects: Seq<PrefectName>, relations: Seq<(i32, i32)>, event_id: i32) -> Seq<Seq<char>>
    decreases relations.len(),
{
    if relations.len() == 0 || last_prefect(prefects, event_id) < 0 {
        Seq::empty()
    } else if relations.last().0 == event_id {
        attending(prefects, relations.drop_last(), event_id).push(prefects[last_prefect(prefects, event_id)].name@)
    } else {
        attending(prefects, relations.drop_last(), event_id)
    }
}

proof fn lemma_last_prefect_bounds(prefects: Seq<PrefectName>, id: i32)
    ensures
        -1 <= last_prefect(prefects, id) < prefects.len(),
    decreases prefects.len(),
{
    if prefects.len() > 0 {
        lemma_last_prefect_bounds(prefects.drop_last(), id);
    }
}

fn find_prefect(prefects: &Vec<PrefectName>, id: i32) -> (r: Option<usize>)
    ensures
        match r {
            Some(j) => j as int == last_prefect(prefects@, id) && j < prefects@.len(),
            None => last_prefect(prefects@, id) == -1,
        },
{
    let mut j: usize = prefects.len();
    assert(prefects@.take(prefects@.len() as int) =~= prefects@);
    while j > 0 && prefects[j - 1].id != id
        invariant
            j <= prefects@.len(),
            last_prefect(prefects@, id) == last_prefect(prefects@.take(j as int), id),
        decreases j,
    {
        assert(prefects@.take(j as int).drop_last() =~= prefects@.take(j - 1));
        j = j - 1;
    }
    if j == 0 {
        None
    } else {
        Some(j - 1)
    }
}

/// The names the calendar lists as attending an event.
pub fn prefects_attending(prefects: &Vec<PrefectName>, relations: &Vec<(i32, i32)>, event_id: i32) -> (names: Vec<String>)
    ensures
        names@.map_values(|s: String| s@) == attending(prefects@, relations@, event_id),
{
    let mut names: Vec<String> = Vec::new();
    match find_prefect(prefects, event_id) {
        None => {
            assert(names@.map_values(|s: String| s@) =~= Seq::<Seq<char>>::empty());
            names
        },
        Some(j) => {
            let mut i: usize = 0;
            assert(names@.map_values(|s: String| s@) =~= Seq::<Seq<char>>::empty());
            while i < relations.len()
                invariant
                    i <= relations@.len(),
                    j < prefects@.len(),
                    j as int == last_prefect(prefects@, event_id),
                    names@.map_values(|s: String| s@) == attending(prefects@, relations@.take(i as int), event_id),
                decreases relations@.len() - i,
            {
                assert(relations@.take(i + 1).drop_last() =~= relations@.take(i as int));
                let ghost before = names@;
                if relations[i].0 == event_id {
                    names.push(prefects[j].name.clone());
                    assert(names@.map_values(|s: String| s@) =~= before.map_values(|s: String| s@).push(prefects@[j as int].name@));
                }
                i = i + 1;
            }
            assert(relations@.take(relations@.len() as int) =~= relations@);
            names
        },
    }
}

/// The description of an event in the calendar: its teacher, other information (none
/// shown as empty) and the prefects attending, separated by `, `.
pub open spec fn event_description_of(teacher: Seq<char>, other_info: Option<Seq<char>>, prefects: Seq<Seq<char>>) -> Seq<char> {
    let info = match other_info { Some(i) => i, None => Seq::empty() };
    "\nTeacher: "@ + teacher + "\nOther Information: "@ + info + "\nPrefects Attending: "@ + joined(prefects, ", "@)
}

/// Writes the description of an event in the calendar.
pub fn event_description(teacher: &str, other_info: &Option<String>, prefects: &Vec<String>) -> (d: String)
    ensures
        d@ == event_description_of(
            teacher@,
            match other_info { Some(i) => Some(i@), None => None },
            prefects@.map_values(|s: String| s@),
        ),
{
    let mut d = owned("\nTeacher: ");
    d.append(teacher);
    d.append("\nOther Information: ");
    match other_info {
        Some(i) => d.append(i.as_str()),
        None => {},
    }
    d.append("\nPrefects Attending: ");
    let names = join_strings(prefects, ", ");
    d.append(names.as_str());
    d
}

/// An event's entry in the calendar: it starts at the event's date in the site's time
/// zone, ends at the same date, and has the event's name, location and description.
pub struct CalendarEntry {
    pub summary: String,
    pub starts: DateTime,
    pub tzid: String,
    pub ends: DateTime,
    pub location: String,
    pub description: String,
}

/// Whether `entry` is the calendar entry of `event`: its name, its date as start and
/// end in the time zone `tzid`, its location, and the description of its teacher,
/// other information and the prefects attending.
pub open spec fn is_calendar_entry(
    entry: CalendarEntry,
    event: DbEvent,
    tzid: Seq<char>,
    prefects: Seq<PrefectName>,
    relations: Seq<(i32, i32)>,
) -> bool {
    &&& entry.summary@ == event.event_name@
    &&& entry.starts == event.date
    &&& entry.tzid@ == tzid
    &&& entry.ends == event.date
    &&& entry.location@ == event.location@
    &&& entry.description@ == event_description_of(
        event.teacher@,
        match event.other_info { Some(i) => Some(i@), None => None },
        attending(prefects, relations, event.id),
    )
}

/// Writes an event's entry in the calendar.
pub fn calendar_entry(event: &DbEvent, tzid: &str, prefects: &Vec<PrefectName>, relations: &Vec<(i32, i32)>) -> (entry: CalendarEntry)
    ensures
        is_calendar_entry(entry, *event, tzid@, prefects@, relations@),
{
    let names = prefects_attending(prefects, relations, event.id);
    CalendarEntry {
        summary: event.event_name.clone(),
        starts: event.date,
        tzid: owned(tzid),
        ends: event.date,
        location: event.location.clone(),
        description: event_description(event.teacher.as_str(), &event.other_info, &names),
    }
}

/// How many seconds the calendar worker waits between looks at its requests.
pub const CALENDAR_CHECK_SECONDS: u64 = 600;

/// What the calendar worker does next.
pub enum CalendarAction {
    /// It stops.
    Finish,
    /// It writes the calendar again, then waits.
    Refresh,
    /// It waits.
    Wait,
}

/// The calendar worker's decision at a look: stop, write again, or wait.
pub open spec fn step_action(stop_signalled: bool, update_requested: bool) -> CalendarAction {
    if stop_signalled {
        CalendarAction::Finish
    } else if update_requested {
        CalendarAction::Refresh
    } else {
        CalendarAction::Wait
    }
}

/// What the worker does at its looks, each `(stop signalled, update requested)`: the
/// decision of each look in turn, up to and including the first that stops.
pub open spec fn looks_actions(looks: Seq<(bool, bool)>) -> Seq<CalendarAction>
    decreases looks.len(),
{
    if looks.len() == 0 {
        Seq::empty()
    } else if looks[0].0 {
        seq![CalendarAction::Finish]
    } else {
        seq![step_action(false, looks[0].1)] + looks_actions(looks.drop_first())
    }
}

/// What the worker does over a run: it writes the calendar once when it starts, then
/// acts at each look (see `looks_actions`). Whether a writing failed takes no part in
/// any decision.
pub open spec fn run_actions(looks: Seq<(bool, bool)>) -> Seq<CalendarAction> {
    seq![CalendarAction::Refresh] + looks_actions(looks)
}

proof fn lemma_looks_until_stop(looks: Seq<(bool, bool)>, k: int)
    requires
        0 <= k < looks.len(),
        looks[k].0,
        forall|j: int| 0 <= j < k ==> !(#[trigger] looks[j]).0,
    ensures
        looks_actions(looks).len() == k + 1,
        looks_actions(looks)[k] == CalendarAction::Finish,
        forall|j: int| 0 <= j < k ==> looks_actions(looks)[j] == step_action(false, (#[trigger] looks[j]).1),
    decreases looks.len(),
{
    if k > 0 {
        let rest = looks.drop_first();
        assert forall|j: int| 0 <= j < k - 1 implies !(#[trigger] rest[j]).0 by {
            assert(rest[j] == looks[j + 1]);
        }
        lemma_looks_until_stop(rest, k - 1);
        assert(!looks[0].0);
        assert forall|j: int| 0 <= j < k implies looks_actions(looks)[j] == step_action(false, (#[trigger] looks[j]).1) by {
            if j > 0 {
                assert(looks[j] == rest[j - 1]);
            }
        }
    }
}

proof fn lemma_looks_without_stop(looks: Seq<(bool, bool)>)
    requires
        forall|j: int| 0 <= j < looks.len() ==> !(#[trigger] looks[j]).0,
    ensures
        looks_actions(looks).len() == looks.len(),
        forall|j: int| 0 <= j < looks.len() ==> looks_actions(looks)[j] == step_action(false, (#[trigger] looks[j]).1),
    decreases looks.len(),
{
    if looks.len() > 0 {
        let rest = looks.drop_first();
        assert forall|j: int| 0 <= j < rest.len() implies !(#[trigger] rest[j]).0 by {
            assert(rest[j] == looks[j + 1]);
        }
        lemma_looks_without_stop(rest);
        assert(!looks[0].0);
        assert forall|j: int| 0 <= j < looks.len() implies looks_actions(looks)[j] == step_action(false, (#[trigger] looks[j]).1) by {
            if j > 0 {
                assert(looks[j] == rest[j - 1]);
            }
        }
    }
}

/// Over a run that is stopped at look `k` (the first look at which a stop is
/// signalled), the worker writes the calendar once at start, writes it again at every
/// earlier look at which that was asked for and only there, waits at the others, and
/// stops at look `k`, never to write again.
pub proof fn lemma_calendar_run_stopped(looks: Seq<(bool, bool)>, k: int)
    requires
        0 <= k < looks.len(),
        looks[k].0,
        forall|j: int| 0 <= j < k ==> !(#[trigger] looks[j]).0,
    ensures
        run_actions(looks).len() == k + 2,
        run_actions(looks)[0] == CalendarAction::Refresh,
        forall|j: int| 0 <= j < k ==> (run_actions(looks)[j + 1] == CalendarAction::Refresh <==> (#[trigger] looks[j]).1),
        forall|j: int| 0 <= j < k ==> (run_actions(looks)[j + 1] == CalendarAction::Wait <==> !(#[trigger] looks[j]).1),
        run_actions(looks).last() == CalendarAction::Finish,
{
    lemma_looks_until_stop(looks, k);
    assert forall|j: int| 0 <= j < k implies run_actions(looks)[j + 1] == looks_actions(looks)[j] by {}
}

/// Over a run in which no stop is signalled, the worker writes the calendar once at
/// start, then at every look at which that was asked for and only there, waits at the
/// others, and never stops.
pub proof fn lemma_calendar_run_unstopped(looks: Seq<(bool, bool)>)
    requires
        forall|j: int| 0 <= j < looks.len() ==> !(#[trigger] looks[j]).0,
    ensures
        run_actions(looks).len() == looks.len() + 1,
        run_actions(looks)[0] == CalendarAction::Refresh,
        forall|j: int| 0 <= j < looks.len() ==> (run_actions(looks)[j + 1] == CalendarAction::Refresh <==> (#[trigger] looks[j]).1),
        forall|j: int| 0 <= j < looks.len() ==> (run_actions(looks)[j + 1] == CalendarAction::Wait <==> !(#[trigger] looks[j]).1),
{
    lemma_looks_without_stop(looks);
    assert forall|j: int| 0 <= j < looks.len() implies run_actions(looks)[j + 1] == looks_actions(looks)[j] by {}
}

/// The calendar worker's decision after a wait: it stops once a stop is signalled (or
/// the signal's channel is gone), else writes the calendar again if that was asked
/// for; then it waits `CALENDAR_CHECK_SECONDS`.
pub fn calendar_step(stop_signalled: bool, update_requested: bool) -> (action: CalendarAction)
    ensures
        stop_signalled ==> action is Finish,
        !stop_signalled && update_requested ==> action is Refresh,
        !stop_signalled && !update_requested ==> action is Wait,
        action == step_action(stop_signalled, update_requested),
{
    if stop_signalled {
        CalendarAction::Finish
    } else if update_requested {
        CalendarAction::Refresh
    } else {
        CalendarAction::Wait
    }
}


/// Whether a year is a leap year in the Gregorian calendar.
pub open spec fn is_leap_year(year: int) -> bool {
    (year % 4 == 0 && year % 100 != 0) || year % 400 == 0
}

/// The number of days in a month of a year.
pub open spec fn days_in_month(year: int, month: int) -> int {
    if month == 2 {
        if is_leap_year(year) { 29 } else { 28 }
    } else if month == 4 || month == 6 || month == 9 || month == 11 {
        30
    } else {
        31
    }
}

/// Whether `chrono` holds the date and time: a year from -262143 to 262142, a month and
/// day of the (proleptic Gregorian) calendar, a time of day, and a fraction below one
/// second (or below two seconds in the 59th second, a leap second).
pub open spec fn date_time_exists(when: DateTime) -> bool {
    &&& -262143 <= when.year <= 262142
    &&& 1 <= when.month <= 12
    &&& 1 <= when.day <= days_in_month(when.year as int, when.month as int)
    &&& when.hour < 24 && when.minute < 60 && when.second < 60
    &&& when.nanosecond < 2_000_000_000
    &&& (when.nanosecond >= 1_000_000_000 ==> when.second == 59)
}

#[verifier::external_type_specification]
#[verifier::external_body]
pub struct ExCalendar(icalendar::Calendar);

#[verifier::external_type_specification]
#[verifier::external_body]
pub struct ExCalendarComponent(icalendar::CalendarComponent);

/// `chrono::NaiveDate::from_ymd_opt` and `NaiveDate::and_hms_nano_opt`: whether
/// `chrono` holds the date and time.
#[verifier::external_body]
fn chrono_holds(when: &DateTime) -> (r: bool)
    ensures
        r == date_time_exists(*when),
{
    chrono::NaiveDate::from_ymd_opt(when.year, when.month, when.day)
        .and_then(|d| d.and_hms_nano_opt(when.hour, when.minute, when.second, when.nanosecond))
        .is_some()
}

/// An event as a calendar holds it: summary, start, end, the time zone of the start,
/// location and description.
pub open spec fn event_model(entry: CalendarEntry) -> (Seq<char>, DateTime, DateTime, Seq<char>, Seq<char>, Seq<char>) {
    (entry.summary@, entry.starts, entry.starts, entry.tzid@, entry.location@, entry.description@)
}

/// The events an `icalendar::Calendar` holds, in order: for each, its summary, start,
/// end, the time zone of the start, location and description.
pub uninterp spec fn calendar_events(calendar: icalendar::Calendar) -> Seq<(Seq<char>, DateTime, DateTime, Seq<char>, Seq<char>, Seq<char>)>;

/// The names an `icalendar::Calendar` was given with `Calendar::name`, in order.
pub uninterp spec fn calendar_names(calendar: icalendar::Calendar) -> Seq<Seq<char>>;

/// Whether `text` is an iCalendar text that `icalendar` writes for a calendar made with
/// `Calendar::new` that holds `events` and was given `names`. It writes each event
/// with a random UID and the current time, so this holds of every text it may write,
/// and two texts written for the same calendar need not agree.
pub uninterp spec fn writes_calendar(
    events: Seq<(Seq<char>, DateTime, DateTime, Seq<char>, Seq<char>, Seq<char>)>,
    names: Seq<Seq<char>>,
    text: Seq<char>,
) -> bool;

/// `icalendar::Calendar::new`: a calendar with no events and no name.
#[verifier::external_body]
fn calendar_new() -> (c: icalendar::Calendar)
    ensures
        calendar_events(c) == Seq::<(Seq<char>, DateTime, DateTime, Seq<char>, Seq<char>, Seq<char>)>::empty(),
        calendar_names(c) == Seq::<Seq<char>>::empty(),
{
    icalendar::Calendar::new()
}

/// `icalendar::Event::new` with the entry's summary, start (in the entry's time zone),
/// end (the start again), location and description, appended to the calendar with
/// `Calendar::push`. The start is built with `chrono`, which holds it.
#[verifier::external_body]
fn calendar_push_event(calendar: &mut icalendar::Calendar, entry: &CalendarEntry)
    requires
        date_time_exists(entry.starts),
    ensures
        calendar_events(*final(calendar)) == calendar_events(*old(calendar)).push(event_model(*entry)),
        calendar_names(*final(calendar)) == calendar_names(*old(calendar)),
{
    let w = entry.starts;
    let starts = chrono::NaiveDate::from_ymd_opt(w.year, w.month, w.day)
        .and_then(|d| d.and_hms_nano_opt(w.hour, w.minute, w.second, w.nanosecond))
        .expect("the start is a date and time that chrono holds");
    let tzid = entry.tzid.clone();
    let event = icalendar::Event::new().summary(&entry.summary).starts(icalendar::CalendarDateTime::WithTimezone { date_time: starts, tzid }).ends(starts).location(&entry.location).description(&entry.description).done();
    calendar.push(event);
}

/// `icalendar::Calendar::name`: gives the calendar a name (its `NAME` and
/// `X-WR-CALNAME` properties).
#[verifier::external_body]
fn calendar_set_name(calendar: &mut icalendar::Calendar, name: &str)
    ensures
        calendar_events(*final(calendar)) == calendar_events(*old(calendar)),
        calendar_names(*final(calendar)) == calendar_names(*old(calendar)).push(name@),
{
    calendar.name(name);
}

/// Whether `text` starts with `prefix`.
pub open spec fn text_starts_with(text: Seq<char>, prefix: Seq<char>) -> bool {
    prefix.len() <= text.len() && text.take(prefix.len() as int) == prefix
}

/// Whether `text` ends with `suffix`.
pub open spec fn text_ends_with(text: Seq<char>, suffix: Seq<char>) -> bool {
    suffix.len() <= text.len() && text.skip(text.len() - suffix.len()) == suffix
}

/// `Calendar`'s `Display`: the iCalendar text of the calendar, `BEGIN:VCALENDAR` to
/// `END:VCALENDAR`, each line ended by CRLF. Each event is written with a random UID
/// and the current time, so the text is only said to be one written for the
/// calendar's events and names.
#[verifier::external_body]
fn calendar_to_text(calendar: &icalendar::Calendar) -> (s: String)
    ensures
        writes_calendar(calendar_events(*calendar), calendar_names(*calendar), s@),
        text_starts_with(s@, "BEGIN:VCALENDAR\r\n"@),
        text_ends_with(s@, "END:VCALENDAR\r\n"@),
{
    calendar.to_string()
}

/// The entries of the calendar, one for each event in order.
pub fn calendar_entries(events: &Vec<DbEvent>, tzid: &str, prefects: &Vec<PrefectName>, relations: &Vec<(i32, i32)>) -> (entries: Vec<CalendarEntry>)
    ensures
        entries@.len() == events@.len(),
        forall|i: int| 0 <= i < events@.len() ==> is_calendar_entry(#[trigger] entries@[i], events@[i], tzid@, prefects@, relations@),
{
    let mut entries: Vec<CalendarEntry> = Vec::new();
    let mut i: usize = 0;
    while i < events.len()
        invariant
            i <= events@.len(),
            entries@.len() == i,
            forall|k: int| 0 <= k < i ==> is_calendar_entry(#[trigger] entries@[k], events@[k], tzid@, prefects@, relations@),
        decreases events@.len() - i,
    {
        entries.push(calendar_entry(&events[i], tzid, prefects, relations));
        i = i + 1;
    }
    entries
}

/// The number of entries whose start `chrono` holds: those the calendar file lists.
pub open spec fn listed_count(entries: Seq<CalendarEntry>) -> nat
    decreases entries.len(),
{
    if entries.len() == 0 {
        0
    } else {
        listed_count(entries.drop_last()) + if date_time_exists(entries.last().starts) { 1nat } else { 0nat }
    }
}

/// The events the calendar file lists: those of the entries whose start `chrono` holds,
/// in order.
pub open spec fn listed_events(entries: Seq<CalendarEntry>) -> Seq<(Seq<char>, DateTime, DateTime, Seq<char>, Seq<char>, Seq<char>)>
    decreases entries.len(),
{
    if entries.len() == 0 {
        Seq::empty()
    } else if date_time_exists(entries.last().starts) {
        listed_events(entries.drop_last()).push(event_model(entries.last()))
    } else {
        listed_events(entries.drop_last())
    }
}

/// The calendar file: titled `{instance name} Events`, with the entry of each event
/// (see `calendar_entries`) whose date `chrono` holds, in order; returns the text
/// and how many events it lists. The text is one `icalendar` writes for exactly those
/// events and that name.
pub fn calendar_text(
    events: &Vec<DbEvent>,
    tzid: &str,
    prefects: &Vec<PrefectName>,
    relations: &Vec<(i32, i32)>,
    instance_name: &str,
) -> (r: (String, usize))
    ensures
        text_starts_with(r.0@, "BEGIN:VCALENDAR\r\n"@),
        text_ends_with(r.0@, "END:VCALENDAR\r\n"@),
        exists|entries: Seq<CalendarEntry>| {
            &&& entries.len() == events@.len()
            &&& (forall|i: int| 0 <= i < events@.len() ==> is_calendar_entry(#[trigger] entries[i], events@[i], tzid@, prefects@, relations@))
            &&& r.1 == listed_count(entries)
            &&& writes_calendar(listed_events(entries), seq![instance_name@ + " Events"@], r.0@)
        },
{
    let entries = calendar_entries(events, tzid, prefects, relations);
    let mut calendar = calendar_new();
    let mut listed: usize = 0;
    let mut i: usize = 0;
    while i < entries.len()
        invariant
            i <= entries@.len(),
            listed == listed_count(entries@.take(i as int)),
            listed <= i,
            calendar_events(calendar) == listed_events(entries@.take(i as int)),
            calendar_names(calendar) == Seq::<Seq<char>>::empty(),
        decreases entries@.len() - i,
    {
        proof {
            assert(entries@.take(i + 1).drop_last() =~= entries@.take(i as int));
        }
        if chrono_holds(&entries[i].starts) {
            calendar_push_event(&mut calendar, &entries[i]);
            listed = listed + 1;
        }
        i = i + 1;
    }
    proof {
        assert(entries@.take(entries@.len() as int) =~= entries@);
    }
    let title = calendar_title(instance_name);
    calendar_set_name(&mut calendar, title.as_str());
    (calendar_to_text(&calendar), listed)
}

} // verus!
