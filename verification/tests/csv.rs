use knot::auth::PermissionsRole;
use knot::error::{VentError, EventField, PersonField};
use knot::liquid_utils::DateTime;
use knot::routes::csv_import_export::csv_text::csv_document;
use knot::routes::csv_import_export::{
    events_csv, existing_person, import_events, import_people, import_role, lookup_last_id, parse_event_row,
    parse_person_row, people_csv, person_export_row, plan_events_import, plan_people_import, ExportEvent,
    ExportPerson, PersonImport, PersonRecord, TextId,
};

fn row(fields: &[&str]) -> Vec<String> {
    fields.iter().map(|f| f.to_string()).collect()
}

fn ids(pairs: &[(&str, i32)]) -> Vec<TextId> {
    pairs.iter().map(|(t, id)| TextId { text: t.to_string(), id: *id }).collect()
}

fn exported(first: &str, surname: &str, role: PermissionsRole, first_entry: bool) -> ExportPerson {
    ExportPerson {
        first_name: first.to_string(),
        surname: surname.to_string(),
        form: "12A".to_string(),
        permissions: role,
        username: format!("{first}.{surname}").to_lowercase(),
        was_first_entry: first_entry,
    }
}

#[test]
fn person_rows_are_read() {
    let p = parse_person_row(&row(&["Ada", "Lovelace", "12A", "true", "alovelace", "false"])).unwrap();
    assert_eq!(p.first_name, "Ada");
    assert_eq!(p.surname, "Lovelace");
    assert_eq!(p.form, "12A");
    assert!(p.is_prefect);
    assert_eq!(p.username, "alovelace");
    assert!(!p.was_first_entry);
    let q = parse_person_row(&row(&["Ada", "Lovelace", "12A", "false", "alovelace"])).unwrap();
    assert!(q.was_first_entry);
    let r = parse_person_row(&row(&["Ada", "Lovelace", "12A", "false", "alovelace", "maybe"])).unwrap();
    assert!(r.was_first_entry);
}

#[test]
fn person_row_errors() {
    assert!(matches!(parse_person_row(&row(&[])), Err(VentError::MalformedCSVPerson { was_trying_to_get: PersonField::FirstName })));
    assert!(matches!(parse_person_row(&row(&["A"])), Err(VentError::MalformedCSVPerson { was_trying_to_get: PersonField::Surname })));
    assert!(matches!(parse_person_row(&row(&["A", "B"])), Err(VentError::MalformedCSVPerson { was_trying_to_get: PersonField::Form })));
    assert!(matches!(parse_person_row(&row(&["A", "B", "C"])), Err(VentError::MalformedCSVPerson { was_trying_to_get: PersonField::IsPrefect })));
    assert!(matches!(parse_person_row(&row(&["A", "B", "C", "yes", "u"])), Err(VentError::ParseBool { field: PersonField::IsPrefect })));
    assert!(matches!(parse_person_row(&row(&["A", "B", "C", "true"])), Err(VentError::MalformedCSVPerson { was_trying_to_get: PersonField::Username })));
}

#[test]
fn event_rows_are_read() {
    let e = parse_event_row(&row(&["01-02-2024", "Quiz", "18:30", "Mr X", "Hall"])).unwrap();
    assert_eq!(e.name, "Quiz");
    assert_eq!(e.teacher, "Mr X");
    assert_eq!(e.location, "Hall");
    assert_eq!(e.date, (2024, 2, 1));
    assert_eq!(e.time, (18, 30));
    assert!(matches!(parse_event_row(&row(&["01-02-2024", "Quiz", "18:30", "Mr X"])), Err(VentError::MalformedCSVEvent { was_trying_to_get: EventField::Location })));
    match parse_event_row(&row(&["2024-02-01", "Quiz", "18:30", "Mr X", "Hall"])) {
        Err(VentError::ParseTime { original }) => assert_eq!(original, "2024-02-01"),
        _ => panic!("expected a date error"),
    }
    match parse_event_row(&row(&["01-02-2024", "Quiz", "6pm", "Mr X", "Hall"])) {
        Err(VentError::ParseTime { original }) => assert_eq!(original, "6pm"),
        _ => panic!("expected a time error"),
    }
}

#[test]
fn known_people_are_matched_on_all_three_texts() {
    let forms = ids(&[("12A", 1), ("12B", 2), ("12A", 3)]);
    let firsts = ids(&[("Ada", 3), ("Bob", 2)]);
    let surnames = ids(&[("Lovelace", 3), ("B", 2)]);
    assert_eq!(lookup_last_id(&forms, "12A"), Some(3));
    assert_eq!(lookup_last_id(&forms, "13"), None);
    let p = |first: &str, surname: &str, form: &str| PersonRecord {
        first_name: first.to_string(),
        surname: surname.to_string(),
        form: form.to_string(),
        is_prefect: false,
        username: String::new(),
        was_first_entry: true,
    };
    assert_eq!(existing_person(&forms, &firsts, &surnames, &p("Ada", "Lovelace", "12A")), Some(3));
    assert_eq!(existing_person(&forms, &firsts, &surnames, &p("Bob", "B", "12B")), Some(2));
    assert_eq!(existing_person(&forms, &firsts, &surnames, &p("Ada", "B", "12A")), None);
    assert_eq!(existing_person(&forms, &firsts, &surnames, &p("Ada", "Lovelace", "12B")), None);
    assert_eq!(import_role(true), PermissionsRole::Prefect);
    assert_eq!(import_role(false), PermissionsRole::Participant);
}

#[test]
fn people_import_plan_updates_known_and_adds_new() {
    let rows = vec![
        row(&["Ada", "Lovelace", "12A", "true", "ada2"]),
        row(&["Cy", "Dee", "11C", "false", "cy"]),
        row(&["Ed", "F", "11C", "nope", "ed"]),
        row(&["Gi", "H", "11C", "true", "gi"]),
    ];
    let forms = ids(&[("12A", 3)]);
    let firsts = ids(&[("Ada", 3)]);
    let surnames = ids(&[("Lovelace", 3)]);
    let plan = plan_people_import(&rows, false, &forms, &firsts, &surnames);
    assert_eq!(plan.steps.len(), 2);
    match &plan.steps[0] {
        PersonImport::Update { id, permissions, username } => {
            assert_eq!(*id, 3);
            assert_eq!(*permissions, PermissionsRole::Prefect);
            assert_eq!(username, "ada2");
        }
        _ => panic!("expected an update"),
    }
    match &plan.steps[1] {
        PersonImport::Create(p) => {
            assert_eq!(p.first_name, "Cy");
            assert!(!p.is_prefect);
            assert!(p.was_first_entry);
        }
        _ => panic!("expected a new person"),
    }
    assert!(matches!(plan.error, Some(VentError::ParseBool { field: PersonField::IsPrefect })));
}

#[test]
fn a_failed_read_after_good_rows_is_a_csv_error() {
    let rows = vec![row(&["Ada", "Lovelace", "12A", "true", "ada"])];
    let plan = plan_people_import(&rows, true, &vec![], &vec![], &vec![]);
    assert_eq!(plan.steps.len(), 1);
    assert!(matches!(plan.error, Some(VentError::Csv)));
    let plan = plan_people_import(&rows, false, &vec![], &vec![], &vec![]);
    assert!(plan.error.is_none());
}

#[test]
fn people_are_imported_from_csv_text() {
    let text = "first_name,surname,form,is_prefect,username\nAda,Lovelace,12A,true,ada\n\"Smith, Jr\",Jo,11B,false,jo\n";
    let plan = import_people(text, &vec![], &vec![], &vec![]);
    assert!(plan.error.is_none());
    assert_eq!(plan.steps.len(), 2);
    match &plan.steps[1] {
        PersonImport::Create(p) => assert_eq!(p.first_name, "Smith, Jr"),
        _ => panic!("expected a new person"),
    }
    let ragged = "a,b,c,d,e\nAda,Lovelace,12A,true,ada\nBob,B,11,false,bob,extra\n";
    let plan = import_people(ragged, &vec![], &vec![], &vec![]);
    assert_eq!(plan.steps.len(), 1);
    assert!(matches!(plan.error, Some(VentError::Csv)));
}

#[test]
fn events_are_imported_from_csv_text() {
    let text = "date,name,time,location,teacher\n01-02-2024,Quiz,18:30,Hall,Mr X\n31-12-2024,Party,23:00,Gym,Ms Y\n";
    let plan = import_events(text);
    assert!(plan.error.is_none());
    assert_eq!(plan.steps.len(), 2);
    assert_eq!(plan.steps[0].name, "Quiz");
    // The fourth field is read as the teacher and the fifth as the location.
    assert_eq!(plan.steps[0].teacher, "Hall");
    assert_eq!(plan.steps[0].location, "Mr X");
    assert_eq!(plan.steps[1].date, (2024, 12, 31));
    assert_eq!(plan.steps[1].time, (23, 0));

    let rows = vec![row(&["01-02-2024", "Quiz", "18:30", "Mr X", "Hall"]), row(&["32-01-2024", "Bad", "10:00", "T", "L"])];
    let plan = plan_events_import(&rows, false);
    assert_eq!(plan.steps.len(), 1);
    assert!(matches!(plan.error, Some(VentError::ParseTime { .. })));
}

#[test]
fn people_export_writes_csv() {
    let people = vec![
        exported("Ada", "Lovelace", PermissionsRole::Admin, false),
        exported("Bob", "Smith, Jr", PermissionsRole::Participant, true),
    ];
    assert_eq!(person_export_row(&people[0]), row(&["Ada", "Lovelace", "12A", "true", "ada.lovelace", "false"]));
    let bytes = people_csv(&people);
    assert_eq!(
        String::from_utf8(bytes).unwrap(),
        "first_name,surname,form,is_prefect,username,was_first_entry\nAda,Lovelace,12A,true,ada.lovelace,false\nBob,\"Smith, Jr\",12A,false,bob.smith, jr,true\n"
            .replace("bob.smith, jr", "\"bob.smith, jr\"")
    );
    assert_eq!(csv_document(&vec![]), Vec::<u8>::new());
}

#[test]
fn exported_people_import_again() {
    let people = vec![
        exported("Ada", "Lovelace", PermissionsRole::Dev, false),
        exported("Bob", "B", PermissionsRole::Participant, true),
        exported("Cy", "C", PermissionsRole::Prefect, true),
    ];
    let text = String::from_utf8(people_csv(&people)).unwrap();
    let plan = import_people(&text, &vec![], &vec![], &vec![]);
    assert!(plan.error.is_none());
    assert_eq!(plan.steps.len(), 3);
    for (step, p) in plan.steps.iter().zip(&people) {
        match step {
            PersonImport::Create(back) => {
                assert_eq!(back.first_name, p.first_name);
                assert_eq!(back.surname, p.surname);
                assert_eq!(back.form, p.form);
                assert_eq!(back.username, p.username);
                assert_eq!(back.is_prefect, p.permissions != PermissionsRole::Participant);
                assert_eq!(back.was_first_entry, p.was_first_entry);
            }
            _ => panic!("nobody is known"),
        }
    }
}

#[test]
fn events_export_writes_csv() {
    let when = DateTime { year: 2024, month: 2, day: 1, hour: 18, minute: 30, second: 0, nanosecond: 0 };
    let events = vec![ExportEvent { event_name: "Quiz".to_string(), date: when, location: "Hall".to_string(), teacher: "Mr X".to_string() }];
    let bytes = events_csv(&events).unwrap();
    assert_eq!(String::from_utf8(bytes).unwrap(), "date,name,time,location,teacher\n01-02-2024,Quiz,18:30,Hall,Mr X\n");
    let bad = vec![ExportEvent { event_name: "X".to_string(), date: DateTime { month: 13, ..when }, location: String::new(), teacher: String::new() }];
    assert!(events_csv(&bad).is_none());
}

#[test]
fn exported_events_import_with_teacher_and_location_swapped() {
    let when = DateTime { year: 2024, month: 2, day: 1, hour: 18, minute: 30, second: 0, nanosecond: 0 };
    let events = vec![ExportEvent { event_name: "Quiz".to_string(), date: when, location: "Hall".to_string(), teacher: "Mr X".to_string() }];
    let text = String::from_utf8(events_csv(&events).unwrap()).unwrap();
    let plan = import_events(&text);
    assert!(plan.error.is_none());
    assert_eq!(plan.steps.len(), 1);
    assert_eq!(plan.steps[0].name, "Quiz");
    assert_eq!(plan.steps[0].teacher, "Hall");
    assert_eq!(plan.steps[0].location, "Mr X");
    assert_eq!(plan.steps[0].date, (2024, 2, 1));
    assert_eq!(plan.steps[0].time, (18, 30));
}
