use knot::auth::PermissionsRole;
use knot::error::VentError;
use knot::liquid_utils::DateTime;
use knot::routes::add_people_to_event::people_to_add;
use knot::routes::calendar::{calendar_entries, calendar_text, calendar_entry, calendar_step, calendar_title, event_description, prefects_attending, CalendarAction, PrefectName, CALENDAR_CHECK_SECONDS};
use knot::routes::edit_person::{dated_event, event_photos, person_summary};
use knot::routes::eoy_migration::unique_forms;
use knot::routes::index::html_event;
use knot::routes::rewards::{awards_to_receive, contains_id, group_received, lookup_rewards, rows_to_be_awarded, sort_reward_rows, to_be_awarded, total_points, PersonTally, Reward, RewardRow};
use knot::routes::show_all::points_from_count;
use knot::routes::show_people::{bonus_total, person_points};
use knot::routes::spreadsheets::{count_of, spreadsheet_csv, spreadsheet_rows, SheetPerson};
use knot::routes::update_events::{already_in, group_by_form, may_remove_participant, people_not_taken, update_event_path};
use knot::routes::{date_from_form_fields, FormEvent};
use knot::sorting::{compare_keys, stable_sort_order, KeyPart};
use knot::state::db_objects::{DbEvent, DbPerson};

fn s(t: &str) -> String {
    t.to_string()
}

fn reward(name: &str, first: i32, second: i32, id: i32) -> Reward {
    Reward { name: s(name), first_entry_pts: first, second_entry_pts: second, id }
}

fn tally(first: &str, surname: &str, form: &str, id: i32, first_entry: bool, events: i64, bonus: i64, received: Vec<i32>) -> PersonTally {
    PersonTally {
        first_name: s(first),
        surname: s(surname),
        form: s(form),
        id,
        was_first_entry: first_entry,
        no_events: Some(events),
        total_bonus_points: Some(bonus),
        received,
    }
}

#[test]
fn rewards_due_follow_thresholds() {
    let rewards = vec![reward("Bronze", 5, 3, 1), reward("Silver", 10, 7, 2), reward("Gold", 20, 15, 3)];
    let due = awards_to_receive(&rewards, &vec![], true, 10).unwrap();
    assert_eq!(due.iter().map(|r| r.id).collect::<Vec<_>>(), vec![1, 2]);
    let due = awards_to_receive(&rewards, &vec![1], false, 7).unwrap();
    assert_eq!(due.iter().map(|r| r.id).collect::<Vec<_>>(), vec![2]);
    assert!(awards_to_receive(&rewards, &vec![], true, 4).is_none());
    assert!(awards_to_receive(&rewards, &vec![1, 2, 3], true, 100).is_none());
    assert_eq!(reward("x", 5, 3, 1).threshold(false), 3);
    assert_eq!(total_points(Some(4), None), 4);
    assert_eq!(total_points(Some(4), Some(-1)), 3);
    assert!(contains_id(&vec![1, 2], 2));
}

#[test]
fn rows_to_be_awarded_lists_due_people_in_order() {
    let rewards = vec![reward("Bronze", 5, 3, 1), reward("Silver", 10, 7, 2)];
    let people = vec![
        tally("A", "Zed", "11", 1, true, 3, 1, vec![]),
        tally("B", "Young", "10", 2, true, 5, 0, vec![]),
        tally("C", "Xu", "10", 3, false, 6, 1, vec![1]),
    ];
    let rows = rows_to_be_awarded(&people, &rewards);
    assert_eq!(rows.iter().map(|r| r.id).collect::<Vec<_>>(), vec![2, 3]);
    assert_eq!(rows[0].n_awards, 1);
    assert_eq!(rows[1].awards[0].id, 2);
    let sorted = to_be_awarded(&people, &rewards);
    assert_eq!(sorted.iter().map(|r| r.id).collect::<Vec<_>>(), vec![2, 3]);
}

#[test]
fn reward_rows_sort_by_awards_then_form_then_surname() {
    let row = |surname: &str, form: &str, awards: Vec<Reward>| RewardRow {
        first_name: s("x"),
        surname: s(surname),
        form: s(form),
        id: 0,
        n_awards: awards.len(),
        awards,
    };
    let rows = vec![
        row("B", "10", vec![reward("Silver", 1, 1, 2)]),
        row("A", "11", vec![reward("Bronze", 1, 1, 1)]),
        row("C", "10", vec![reward("Bronze", 1, 1, 1)]),
        row("A", "10", vec![reward("Bronze", 1, 1, 1)]),
    ];
    let sorted = sort_reward_rows(&rows);
    let order: Vec<(String, String)> = sorted.iter().map(|r| (r.form.clone(), r.surname.clone())).collect();
    assert_eq!(order, vec![(s("10"), s("A")), (s("10"), s("C")), (s("11"), s("A")), (s("10"), s("B"))]);
}

#[test]
fn received_rewards_are_grouped_and_looked_up() {
    let groups = group_received(&vec![(7, 1), (8, 2), (7, 3)]);
    assert_eq!(groups.len(), 2);
    assert_eq!(groups[0].person_id, 7);
    assert_eq!(groups[0].reward_ids, vec![1, 3]);
    assert_eq!(groups[1].reward_ids, vec![2]);
    assert!(group_received(&vec![]).is_empty());
    assert!(group_received(&vec![(3, 4)]).iter().all(|g| g.person_id == 3 && !g.reward_ids.is_empty()));
    let rewards = vec![reward("Bronze", 5, 3, 1), reward("Silver", 10, 7, 2)];
    let found = lookup_rewards(&rewards, &vec![2, 1]).unwrap();
    assert_eq!(found.iter().map(|r| r.name.clone()).collect::<Vec<_>>(), vec![s("Silver"), s("Bronze")]);
    assert!(lookup_rewards(&rewards, &vec![9]).is_none());
}

#[test]
fn people_are_grouped_by_form_then_surname() {
    let forms = vec![s("11B"), s("10A"), s("11B"), s("10A"), s("10A")];
    let surnames = vec![s("Cole"), s("Baker"), s("Adams"), s("Baker"), s("Able")];
    let g = group_by_form(&forms, &surnames);
    assert_eq!(g.order, vec![4, 1, 3, 2, 0]);
    assert_eq!(g.groups.len(), 2);
    assert_eq!((g.groups[0].form.as_str(), g.groups[0].start, g.groups[0].end), ("10A", 0, 3));
    assert_eq!((g.groups[1].form.as_str(), g.groups[1].start, g.groups[1].end), ("11B", 3, 5));
    let empty = group_by_form(&vec![], &vec![]);
    assert!(empty.order.is_empty() && empty.groups.is_empty());
}

#[test]
fn event_page_helpers() {
    assert_eq!(people_not_taken(&vec![5, 6, 7, 8], &vec![6, 8]), vec![0, 2]);
    let entries = vec![(3, 30), (4, 40), (3, 31)];
    let a = already_in(Some(3), &entries, true);
    assert!(a.is_in && a.past_date);
    assert_eq!(a.rel_id, 30);
    let b = already_in(Some(9), &entries, false);
    assert!(!b.is_in);
    assert_eq!(b.rel_id, -1);
    assert!(!already_in(None, &entries, false).is_in);
    assert!(may_remove_participant(PermissionsRole::Prefect, 1, 2));
    assert!(may_remove_participant(PermissionsRole::Participant, 2, 2));
    assert!(!may_remove_participant(PermissionsRole::Participant, 1, 2));
    assert_eq!(update_event_path(42), "/update_event/42");
    assert_eq!(update_event_path(-1), "/update_event/-1");
}

#[test]
fn adding_people_skips_those_already_there() {
    assert_eq!(people_to_add(&vec![3, 1, 3, 2], &vec![2]), vec![3, 1]);
    let once = people_to_add(&vec![4, 5], &vec![]);
    assert_eq!(once, vec![4, 5]);
    assert!(people_to_add(&vec![4, 5], &once).is_empty());
}

#[test]
fn sort_keys_order_and_stable_sort() {
    let k = |parts: Vec<KeyPart>| parts;
    assert_eq!(compare_keys(&k(vec![KeyPart::Num(1)]), &k(vec![KeyPart::Num(2)])), -1);
    assert_eq!(compare_keys(&k(vec![KeyPart::Num(1)]), &k(vec![KeyPart::Text(s("a"))])), -1);
    assert_eq!(compare_keys(&k(vec![KeyPart::Text(s("b"))]), &k(vec![KeyPart::Text(s("a")), KeyPart::Num(0)])), 1);
    assert_eq!(compare_keys(&k(vec![KeyPart::Num(1)]), &k(vec![KeyPart::Num(1), KeyPart::Num(0)])), -1);
    let keys = vec![vec![KeyPart::Num(2)], vec![KeyPart::Num(1)], vec![KeyPart::Num(2)], vec![KeyPart::Num(0)]];
    assert_eq!(stable_sort_order(&keys), vec![3, 1, 0, 2]);
}

#[test]
fn spreadsheet_counts_events() {
    let people = vec![
        SheetPerson { id: 1, first_name: s("Ada"), surname: s("L"), form: s("12A") },
        SheetPerson { id: 2, first_name: s("Bob"), surname: s("B"), form: s("11C") },
    ];
    let rows = spreadsheet_rows(&people, &vec![0, 1], &vec![1, 2, 1, 1], &vec![2]);
    assert_eq!(rows[0], vec![s("First Name"), s("Surname"), s("Form"), s("House Events"), s("House Events supervised")]);
    assert_eq!(rows[1], vec![s("Ada"), s("L"), s("12A"), s("3"), s("0")]);
    assert_eq!(rows[2], vec![s("Bob"), s("B"), s("11C"), s("1"), s("1")]);
    assert_eq!(count_of(&vec![], 1), 0);
    let csv = String::from_utf8(spreadsheet_csv(&people, &vec![1, 2, 1, 1], &vec![2])).unwrap();
    assert_eq!(csv, "First Name,Surname,Form,House Events,House Events supervised\nBob,B,11C,1,1\nAda,L,12A,3,0\n");
}

#[test]
fn forms_are_listed_once() {
    assert_eq!(unique_forms(&vec![s("10A"), s("11B"), s("10A"), s("9C")]), vec![s("10A"), s("11B"), s("9C")]);
    assert!(unique_forms(&vec![]).is_empty());
}

#[test]
fn points_of_people() {
    assert_eq!(points_from_count(Some(7)), 7);
    assert_eq!(points_from_count(None), 0);
    assert_eq!(bonus_total(&vec![3, -1, 5]), 7);
    assert_eq!(person_points(Some(4), &vec![2, 3]), 9);
    assert_eq!(person_points(None, &vec![]), 0);
}

#[test]
fn calendar_texts() {
    assert_eq!(calendar_title("Knot"), "Knot Events");
    let prefects = vec![PrefectName { id: 5, name: s("Pat P") }, PrefectName { id: 6, name: s("Quin Q") }];
    let relations = vec![(5, 6), (6, 5), (5, 5)];
    assert_eq!(prefects_attending(&prefects, &relations, 5), vec![s("Pat P"), s("Pat P")]);
    assert_eq!(prefects_attending(&prefects, &relations, 7), Vec::<String>::new());
    let d = event_description("Mr X", &Some(s("Bring a pen")), &vec![s("Pat P"), s("Quin Q")]);
    assert_eq!(d, "\nTeacher: Mr X\nOther Information: Bring a pen\nPrefects Attending: Pat P, Quin Q");
    assert_eq!(event_description("Mr X", &None, &vec![]), "\nTeacher: Mr X\nOther Information: \nPrefects Attending: ");
}

#[test]
fn calendar_entries_and_worker() {
    let when = DateTime { year: 2024, month: 5, day: 6, hour: 12, minute: 0, second: 0, nanosecond: 0 };
    let event = DbEvent { id: 5, event_name: s("Quiz"), date: when, location: s("Hall"), teacher: s("Mr X"), other_info: None, zip_file: None };
    let prefects = vec![PrefectName { id: 5, name: s("Pat P") }];
    let entry = calendar_entry(&event, "Europe/London", &prefects, &vec![(5, 9)]);
    assert_eq!(entry.summary, "Quiz");
    assert_eq!(entry.tzid, "Europe/London");
    assert_eq!(entry.starts, when);
    assert_eq!(entry.ends, when);
    assert_eq!(entry.location, "Hall");
    assert!(entry.description.ends_with("Prefects Attending: Pat P"));
    assert!(matches!(calendar_step(true, true), CalendarAction::Finish));
    assert!(matches!(calendar_step(false, true), CalendarAction::Refresh));
    assert!(matches!(calendar_step(false, false), CalendarAction::Wait));
    assert_eq!(CALENDAR_CHECK_SECONDS, 600);
}

#[test]
fn calendar_file_lists_the_events_with_real_dates() {
    let when = DateTime { year: 2024, month: 5, day: 6, hour: 12, minute: 0, second: 0, nanosecond: 0 };
    let good = DbEvent { id: 5, event_name: s("Quiz"), date: when, location: s("Hall"), teacher: s("Mr X"), other_info: None, zip_file: None };
    let bad = DbEvent { id: 6, event_name: s("Never"), date: DateTime { month: 2, day: 30, ..when }, location: s("Nowhere"), teacher: s("Ms Y"), other_info: None, zip_file: None };
    let leap = DbEvent { id: 7, event_name: s("Leap"), date: DateTime { year: 2024, month: 2, day: 29, ..when }, location: s("Gym"), teacher: s("Ms Z"), other_info: None, zip_file: None };
    let events = vec![good, bad, leap];
    let entries = calendar_entries(&events, "Europe/London", &vec![], &vec![]);
    assert_eq!(entries.len(), 3);
    assert_eq!(entries[1].summary, "Never");
    let (text, listed) = calendar_text(&events, "Europe/London", &vec![], &vec![], "Knot");
    assert_eq!(listed, 2);
    assert!(text.starts_with("BEGIN:VCALENDAR\r\n"));
    assert!(text.ends_with("END:VCALENDAR\r\n"));
    assert!(text.contains("SUMMARY:Quiz"));
    assert!(text.contains("SUMMARY:Leap"));
    assert!(!text.contains("Never"));
    assert!(text.contains("Knot Events"));
    let (empty, none) = calendar_text(&vec![], "Europe/London", &vec![], &vec![], "Knot");
    assert_eq!(none, 0);
    assert!(!empty.contains("BEGIN:VEVENT"));
}

#[test]
fn calendar_worker_over_a_run() {
    // Looks: an update asked, nothing, an update asked, then a stop with an update asked.
    let looks = [(false, true), (false, false), (false, true), (true, true), (false, true)];
    let mut actions = vec![CalendarAction::Refresh];
    for (stop, update) in looks {
        let a = calendar_step(stop, update);
        let done = matches!(a, CalendarAction::Finish);
        actions.push(a);
        if done {
            break;
        }
    }
    assert_eq!(actions.len(), 5);
    assert!(matches!(actions[0], CalendarAction::Refresh));
    assert!(matches!(actions[1], CalendarAction::Refresh));
    assert!(matches!(actions[2], CalendarAction::Wait));
    assert!(matches!(actions[3], CalendarAction::Refresh));
    assert!(matches!(actions[4], CalendarAction::Finish));
}

#[test]
fn pages_write_dates_in_the_site_format() {
    let when = DateTime { year: 2024, month: 5, day: 6, hour: 9, minute: 5, second: 0, nanosecond: 0 };
    let e = html_event(3, s("Quiz"), &when, "%d/%m/%Y %H:%M").unwrap();
    assert_eq!((e.id, e.event_name.as_str(), e.date.as_str()), (3, "Quiz", "06/05/2024 09:05"));
    assert!(html_event(3, s("Quiz"), &DateTime { day: 31, month: 2, ..when }, "%d").is_none());
    let d = dated_event(s("Quiz"), &when, 3, "%Y").unwrap();
    assert_eq!(d.date, "2024");
    let photos = event_photos("Quiz", &vec![s("uploads/a.png"), s("uploads/b.png")]);
    assert_eq!(photos.len(), 2);
    assert_eq!(photos[1].event_name, "Quiz");
    assert_eq!(photos[1].path, "uploads/b.png");
}

#[test]
fn person_pages_hide_the_hash() {
    let p = DbPerson {
        id: 4,
        first_name: s("Ada"),
        surname: s("L"),
        username: s("ada"),
        was_first_entry: false,
        form: s("12A"),
        hashed_password: Some(s("$2b$...")),
        permissions: PermissionsRole::Admin,
    };
    let summary = person_summary(p);
    assert!(summary.password_is_set);
    assert_eq!(summary.permissions, PermissionsRole::Admin);
    assert_eq!(summary.username, "ada");
}

#[test]
fn form_dates_are_read() {
    let form = |date: &str| FormEvent { name: s("Quiz"), date: s(date), location: s("Hall"), teacher: s("T"), info: s(""), is_locked: false };
    let d = form("2024-05-06T18:30").parsed_date().unwrap();
    assert_eq!(d, DateTime { year: 2024, month: 5, day: 6, hour: 18, minute: 30, second: 0, nanosecond: 0 });
    match form("tomorrow").parsed_date() {
        Err(VentError::ParseTime { original }) => assert_eq!(original, "tomorrow"),
        _ => panic!("expected a parse error"),
    }
    assert!(date_from_form_fields("x", None).is_err());
    assert_eq!(date_from_form_fields("x", Some((2020, 1, 2, 3, 4, 5, 6))).unwrap().second, 5);
}
