use knot::auth::add_password::{check_password_form, check_password_link, code_in_use, link_code_if_free, reset_password_email, try_link_code};
use knot::auth::cloudflare_turnstile::{remote_ip, turnstile_form, TurnstileError};
use knot::auth::login::FailureReason;
use knot::cfg::{BrandSettings, MailSettings, NicheSettings, Settings};
use knot::error::VentError;
use knot::liquid_utils::partials::{name_for_partial, partial_extension, Partials};
use knot::liquid_utils::{try_to_env_string, CustomFormat, DateTime};
use knot::state::compiler::{compile_page, page_globals, site_info, site_info_value, PageValue};
use knot::auth::get_auth_object;
use knot::state::mail::{compose_email, mail_step, EmailToSend, MailAction, MailEvent};
use knot::auth::backend::{authenticate, hash_password, Authentication};
use knot::auth::PermissionsRole;
use knot::state::db_objects::DbPerson;
use knot::error::{DatabaseIDMethod, FileIdentifier};

fn s(t: &str) -> String {
    t.to_string()
}

fn settings(ga: Option<String>) -> Settings {
    Settings {
        niche: NicheSettings { date_time_format: s("%d/%m/%Y"), tech_support: s("help@example.org") },
        brand: BrandSettings { instance_name: s("Knot"), domain: s("https://knot.example"), google_analytics: ga },
        mail: MailSettings { username: s("noreply@example.org"), password: s("hunter2"), smtp: s("smtp.example.org"), username_domain: s("example.org") },
        timezone_id: s("Europe/London"),
        tech_support_person: s("IT"),
    }
}

fn email() -> EmailToSend {
    EmailToSend { to_username: s("ada"), to_id: 12, to_fullname: s("Ada Lovelace"), unique_id: 4321 }
}

#[test]
fn password_email_text() {
    let m = compose_email(&email(), "noreply@example.org", "example.org", "Knot", "https://knot.example");
    assert_eq!(m.from, "Knot NoReply <noreply@example.org>");
    assert_eq!(m.to, "Ada Lovelace <ada@example.org>");
    assert_eq!(m.subject, "Knot - Add Password");
    assert_eq!(
        m.body,
        "Dear Ada Lovelace,\n\nYou've just tried to login to Knot, but you don't have a password set yet.\n\nTo set one, go to https://knot.example/add_password/12?code=4321.\n\nHave a nice day!"
    );
}

#[test]
fn mail_worker_decisions() {
    let cfg = settings(None);
    assert!(matches!(mail_step(MailEvent::Stop, &cfg), MailAction::Finish));
    assert!(matches!(mail_step(MailEvent::ChannelClosed, &cfg), MailAction::Finish));
    match mail_step(MailEvent::Message(email()), &cfg) {
        MailAction::Send(m) => {
            assert_eq!(m.from, "Knot NoReply <noreply@example.org>");
            assert_eq!(m.to, "Ada Lovelace <ada@hunter2>");
            assert!(m.body.contains("login to smtp.example.org,"));
            assert!(m.body.contains("https://knot.example/add_password/12?code=4321"));
        }
        MailAction::Finish => panic!("expected an e-mail"),
    }
}

#[test]
fn mail_worker_over_a_run() {
    let cfg = settings(None);
    let events = vec![MailEvent::Message(email()), MailEvent::Message(email()), MailEvent::Stop, MailEvent::Message(email())];
    let mut sent = 0;
    let mut steps = 0;
    for e in events {
        steps += 1;
        match mail_step(e, &cfg) {
            MailAction::Send(_) => sent += 1,
            MailAction::Finish => break,
        }
    }
    assert_eq!(sent, 2);
    assert_eq!(steps, 3);
}

#[test]
fn password_links_and_forms() {
    assert_eq!(check_password_link(None, 5, false), Some(FailureReason::NoNumbers));
    assert_eq!(check_password_link(Some(4), 5, false), Some(FailureReason::FailedNumbers));
    assert_eq!(check_password_link(Some(5), 5, true), Some(FailureReason::PasswordAlreadySet));
    assert_eq!(check_password_link(Some(5), 5, false), None);
    assert_eq!(check_password_form(false, false, Some(5), 5), Some(FailureReason::FailedTurnstile));
    assert_eq!(check_password_form(true, true, Some(5), 5), Some(FailureReason::PasswordAlreadySet));
    assert_eq!(check_password_form(true, false, None, 5), Some(FailureReason::NoNumbers));
    assert_eq!(check_password_form(true, false, Some(6), 5), Some(FailureReason::FailedNumbers));
    assert_eq!(check_password_form(true, false, Some(5), 5), None);
}

#[test]
fn reset_links() {
    assert!(code_in_use(&vec![1, 70000, 3], 3));
    assert!(!code_in_use(&vec![1, 2], 3));
    let e = reset_password_email(9, 65535, "bob", "Bob", "Brown");
    assert_eq!(e.to_fullname, "Bob Brown");
    assert_eq!(e.unique_id, 65535);
    assert_eq!(e.to_id, 9);
    let taken: Vec<i32> = (0..100).collect();
    let code = loop {
        if let Some(c) = try_link_code(&taken) {
            break c;
        }
    };
    assert!(!taken.contains(&(code as i32)));
    for _ in 0..50 {
        assert!(try_link_code(&vec![]).is_some());
    }
}

#[test]
fn failure_pages() {
    assert_eq!(FailureReason::BadPassword.status_code(), 403);
    assert_eq!(FailureReason::NoNumbers.status_code(), 400);
    assert_eq!(FailureReason::UserNotFound.status_code(), 404);
    assert_eq!(FailureReason::PasswordAlreadySet.path(), "/login_failure/password_already_set");
    assert_eq!(FailureReason::from_slug("failed_turnstile"), Some(FailureReason::FailedTurnstile));
    assert_eq!(FailureReason::from_slug("nope"), None);
}

#[test]
fn turnstile_details() {
    assert_eq!(remote_ip(true, None).unwrap(), "127.0.0.1");
    assert_eq!(remote_ip(false, Some(s("1.2.3.4"))).unwrap(), "1.2.3.4");
    assert!(matches!(remote_ip(false, None), Err(VentError::MissingCFIP)));
    let form = turnstile_form("sec", "resp", "1.2.3.4");
    let pairs: Vec<(String, String)> = form.into_iter().map(|f| (f.name, f.value)).collect();
    assert_eq!(pairs, vec![(s("secret"), s("sec")), (s("response"), s("resp")), (s("remoteip"), s("1.2.3.4"))]);
    assert_eq!(TurnstileError::from_code("timeout-or-duplicate"), Some(TurnstileError::TimeoutOrDuplicate));
    assert_eq!(TurnstileError::from_code("invalid-input-secret"), Some(TurnstileError::InvalidInputSecret));
    assert_eq!(TurnstileError::from_code("missing-parsed-secret"), Some(TurnstileError::InvalidParsedSecret));
    assert_eq!(TurnstileError::from_code("something-else"), None);
}

#[test]
fn site_info_for_pages() {
    let info = site_info(&settings(Some(s("G-1"))), None, Some(s("knot.example")), false, true);
    assert_eq!(info.instance_name, "Knot");
    assert_eq!(info.html_title, "Knot");
    assert!(info.domain_exists);
    assert_eq!(info.domain, "knot.example");
    assert!(info.show_bonus_points);
    assert!(!info.show_different_awards);
    assert!(info.uses_ga);
    assert_eq!(info.ga_key, Some(s("G-1")));
    let info = site_info(&settings(None), Some(s("Rewards")), None, true, false);
    assert_eq!(info.html_title, "Rewards");
    assert!(!info.domain_exists);
    assert_eq!(info.domain, "");
    assert!(!info.uses_ga);
}

#[test]
fn partials_store_by_name() {
    assert!(partial_extension("liquid"));
    assert!(partial_extension("html"));
    assert!(!partial_extension("css"));
    assert_eq!(name_for_partial("header.liquid"), "partials/header.liquid");
    let mut p = Partials::new();
    assert!(!p.contains("a"));
    p.insert(s("a"), s("one"));
    p.insert(s("b"), s("two"));
    p.insert(s("a"), s("three"));
    assert!(p.contains("a"));
    assert_eq!(p.try_get("a"), Some(s("three")));
    assert_eq!(p.try_get("c"), None);
    let mut names = p.names();
    names.sort();
    assert_eq!(names, vec![s("a"), s("b")]);
}

#[test]
fn dates_in_chosen_formats() {
    let when = DateTime { year: 2023, month: 12, day: 25, hour: 7, minute: 3, second: 9, nanosecond: 0 };
    assert_eq!(when.to_env_string("%Y-%m-%d %H:%M:%S"), "2023-12-25 07:03:09");
    assert_eq!(try_to_env_string(&when, "%d-%m-%Y").unwrap(), "25-12-2023");
    assert!(try_to_env_string(&DateTime { hour: 24, ..when }, "%H").is_none());
    assert!(try_to_env_string(&when, "%Q").is_none());
}

#[test]
fn stored_hashes_accept_their_password() {
    let hashed = hash_password("correct horse").unwrap();
    assert!(hashed.starts_with("$2"));
    assert_ne!(hashed, "correct horse");
    let user = DbPerson {
        id: 3,
        first_name: s("Ada"),
        surname: s("L"),
        username: s("ada"),
        was_first_entry: true,
        form: s("12A"),
        hashed_password: Some(hashed),
        permissions: PermissionsRole::Participant,
    };
    assert!(matches!(authenticate(Some(user), "correct horse"), Authentication::Authenticated(_)));
}

#[test]
fn calendar_prefect_names() {
    let p = knot::routes::calendar::prefect_name(4, "Pat", "Smith");
    assert_eq!(p.id, 4);
    assert_eq!(p.name, "Pat Smith");
}

#[test]
fn error_conversions() {
    assert!(matches!(DatabaseIDMethod::from(5), DatabaseIDMethod::Id(5)));
    assert!(matches!(DatabaseIDMethod::from(s("ada")), DatabaseIDMethod::Username(ref u) if u == "ada"));
    assert!(matches!(FileIdentifier::from("calendar.ics"), FileIdentifier::Const("calendar.ics")));
    assert!(matches!(FileIdentifier::from(s("x")), FileIdentifier::Runtime(ref p) if p == "x"));
    assert!(matches!(DatabaseIDMethod::from(FileIdentifier::from("a")), DatabaseIDMethod::Path(FileIdentifier::Const("a"))));
    assert_eq!(VentError::Liquid { attempt: knot::error::LiquidAction::Rendering }.status_code(), 500);
}

#[test]
fn failure_reasons_read_back_from_their_names() {
    for r in [
        FailureReason::BadPassword,
        FailureReason::NoNumbers,
        FailureReason::UserNotFound,
        FailureReason::FailedNumbers,
        FailureReason::PasswordAlreadySet,
        FailureReason::FailedTurnstile,
    ] {
        assert_eq!(FailureReason::from_slug(r.slug()), Some(r));
    }
}

#[test]
fn link_numbers_from_draws() {
    assert_eq!(link_code_if_free(7, &vec![1, 7]), None);
    assert_eq!(link_code_if_free(8, &vec![1, 7]), Some(8));
    assert_eq!(link_code_if_free(65535, &vec![-1]), Some(65535));
}

fn text_of(v: &PageValue) -> Option<&str> {
    match v {
        PageValue::Text(t) => Some(t.as_str()),
        _ => None,
    }
}

fn field<'a>(v: &'a PageValue, key: &str) -> Option<&'a PageValue> {
    match v {
        PageValue::Object(es) => es.iter().find(|(k, _)| k == key).map(|(_, v)| v),
        _ => None,
    }
}

fn visitor() -> DbPerson {
    DbPerson {
        id: 3,
        first_name: s("Ada"),
        surname: s("Lovelace"),
        username: s("ada"),
        was_first_entry: false,
        form: s("12A"),
        hashed_password: None,
        permissions: PermissionsRole::Admin,
    }
}

#[test]
fn globals_every_page_receives() {
    let info = site_info(&settings(Some(s("G-1"))), Some(s("Rewards")), None, false, false);
    let auth = get_auth_object(Some(visitor()));
    let page = vec![(s("tba"), PageValue::Int(3)), (s("auth"), PageValue::Nil), (s("aa"), PageValue::Bool(true))];
    let g = page_globals(page, &info, &auth, "site-key");
    let keys: Vec<&str> = g.iter().map(|(k, _)| k.as_str()).collect();
    assert_eq!(keys, vec!["tba", "aa", "cft_sitekey", "siteinfo", "auth"]);
    assert_eq!(text_of(&g[2].1), Some("site-key"));
    assert_eq!(text_of(field(&g[3].1, "html_title").unwrap()), Some("Rewards"));
    let ga = field(&g[3].1, "google_analytics").unwrap();
    assert!(matches!(field(ga, "uses_ga"), Some(PageValue::Bool(true))));
    assert_eq!(text_of(field(ga, "ga_key").unwrap()), Some("G-1"));
    assert!(matches!(field(&g[4].1, "is_logged_in"), Some(PageValue::Bool(true))));
    let user = field(&g[4].1, "user").unwrap();
    assert_eq!(text_of(field(user, "permissions").unwrap()), Some("Admin"));
    assert!(matches!(field(user, "hashed_password"), Some(PageValue::Nil)));
    assert!(matches!(field(user, "id"), Some(PageValue::Int(3))));
    let perms = field(&g[4].1, "permissions").unwrap();
    assert!(matches!(field(perms, "dev_access"), Some(PageValue::Bool(false))));
    let anon = page_globals(vec![], &info, &get_auth_object(None), "k");
    assert!(field(&anon[2].1, "user").is_none());
    let plain = site_info(&settings(None), None, None, true, true);
    let v = site_info_value(&plain);
    let ga = field(&v, "google_analytics").unwrap();
    assert!(matches!(field(ga, "uses_ga"), Some(PageValue::Bool(false))));
    assert!(field(ga, "ga_key").is_none());
}

#[test]
fn pages_render_with_partials_and_site_values() {
    let info = site_info(&settings(None), None, None, false, false);
    let auth = get_auth_object(Some(visitor()));
    let mut partials = Partials::new();
    partials.insert(s("partials/hi.liquid"), s("Hi {{ auth.user.first_name }}"));
    let page = vec![(s("n"), PageValue::Int(4)), (s("xs"), PageValue::List(vec![PageValue::Text(s("a")), PageValue::Text(s("b"))]))];
    let html = compile_page(
        "{{ siteinfo.instance_name }}|{% include 'partials/hi.liquid' %}|{{ n | plus: 1 }}|{% for x in xs %}{{ x }}{% endfor %}|{{ cft_sitekey }}|{{ auth.permissions.dev_access }}",
        &partials,
        page,
        &info,
        &auth,
        "key",
    )
    .unwrap();
    assert_eq!(html, "Knot|Hi Ada|5|ab|key|false");
    let bad = compile_page("{% if %}", &Partials::new(), vec![], &info, &auth, "key");
    assert!(matches!(bad, Err(VentError::Liquid { attempt: knot::error::LiquidAction::Parsing { ref text } }) if text == "{% if %}"));
    let mut broken = Partials::new();
    broken.insert(s("partials/bad.liquid"), s("{% for %}"));
    assert_eq!(compile_page("x", &broken, vec![], &info, &auth, "key").unwrap(), "x");
    let failed = compile_page("{% include 'partials/bad.liquid' %}", &broken, vec![], &info, &auth, "key");
    assert!(matches!(failed, Err(VentError::Liquid { attempt: knot::error::LiquidAction::Rendering })));
}
