use knot::auth::{PermissionsRole, PermissionsTarget, get_auth_object, permission_flags};
use knot::auth::backend::{authenticate, Authentication, LoginFailureReason};
use knot::auth::login::{FailureReason, login_redirect, admin_password, password_from_draws, PASSWORD_ALPHABET, PASSWORD_LENGTH, needs_admin_account};
use knot::state::db_objects::DbPerson;
use std::collections::HashSet;

fn person(role: PermissionsRole, hashed: Option<String>) -> DbPerson {
    DbPerson {
        id: 7,
        first_name: "Ada".to_string(),
        surname: "Lovelace".to_string(),
        username: "alovelace".to_string(),
        was_first_entry: true,
        form: "12A".to_string(),
        hashed_password: hashed,
        permissions: role,
    }
}

#[test]
fn participant_can_only_manage_themselves() {
    let can = PermissionsRole::Participant.can();
    assert_eq!(can, vec![PermissionsTarget::AddRmSelfToEvent]);
}

#[test]
fn dev_can_do_everything() {
    let can: HashSet<_> = PermissionsRole::Dev.can().into_iter().collect();
    assert_eq!(can.len(), 15);
    assert_eq!(PermissionsTarget::all().len(), 15);
}

#[test]
fn admin_and_prefect_permissions() {
    assert!(PermissionsTarget::ImportCSV.can(PermissionsRole::Admin));
    assert!(!PermissionsTarget::ImportCSV.can(PermissionsRole::Prefect));
    assert!(PermissionsTarget::SeePeople.can(PermissionsRole::Prefect));
    assert!(!PermissionsTarget::SeePeople.can(PermissionsRole::Participant));
    assert!(!PermissionsTarget::DevAccess.can(PermissionsRole::Admin));
    assert_eq!(PermissionsRole::Prefect.can().len(), 9);
    assert_eq!(PermissionsRole::Admin.can().len(), 14);
}

#[test]
fn higher_roles_can_do_more() {
    let roles = [PermissionsRole::Participant, PermissionsRole::Prefect, PermissionsRole::Admin, PermissionsRole::Dev];
    for (i, lower) in roles.iter().enumerate() {
        for higher in &roles[i..] {
            for t in PermissionsTarget::all() {
                if t.can(*lower) {
                    assert!(t.can(*higher));
                }
            }
        }
    }
}

#[test]
fn snake_case_names() {
    assert_eq!(PermissionsTarget::DevAccess.snake_name(), "dev_access");
    assert_eq!(PermissionsTarget::ImportCSV.snake_name(), "import_csv");
    assert_eq!(PermissionsTarget::AddRmSelfToEvent.snake_name(), "add_rm_self_to_event");
}

#[test]
fn flags_for_visitors() {
    let flags = permission_flags(None);
    assert_eq!(flags.len(), 15);
    assert!(flags.iter().all(|f| !f.allowed));
    let aa = get_auth_object(Some(person(PermissionsRole::Prefect, None)));
    assert!(aa.is_logged_in);
    let edit = aa.permissions.iter().find(|f| f.name == "edit_events").unwrap();
    assert!(edit.allowed);
    let dev = aa.permissions.iter().find(|f| f.name == "dev_access").unwrap();
    assert!(!dev.allowed);
    assert!(!get_auth_object(None).is_logged_in);
}

#[test]
fn authentication_outcomes() {
    assert!(matches!(authenticate(None, "x"), Authentication::NoSuchUser));
    assert!(matches!(
        authenticate(Some(person(PermissionsRole::Participant, None)), "x"),
        Authentication::PasswordNotSet { user_id: 7 }
    ));
    let hash = bcrypt::hash("correct horse", 4).unwrap();
    assert!(matches!(
        authenticate(Some(person(PermissionsRole::Participant, Some(hash.clone()))), "correct horse"),
        Authentication::Authenticated(_)
    ));
    assert!(matches!(
        authenticate(Some(person(PermissionsRole::Participant, Some(hash))), "wrong"),
        Authentication::Failed(LoginFailureReason::IncorrectPassword)
    ));
    assert!(matches!(
        authenticate(Some(person(PermissionsRole::Participant, Some("not a hash".to_string()))), "x"),
        Authentication::HashError
    ));
}

#[test]
fn login_redirects() {
    let ok = Authentication::Authenticated(person(PermissionsRole::Admin, None));
    assert_eq!(login_redirect(&ok, None).unwrap(), "/");
    assert_eq!(login_redirect(&ok, Some("/show_events".to_string())).unwrap(), "/show_events");
    assert_eq!(login_redirect(&Authentication::NoSuchUser, None).unwrap(), "/login_failure/user_not_found");
    assert_eq!(login_redirect(&Authentication::PasswordNotSet { user_id: 1 }, None).unwrap(), "/add_password");
    assert_eq!(
        login_redirect(&Authentication::Failed(LoginFailureReason::IncorrectPassword), None).unwrap(),
        "/login_failure/bad_password"
    );
    assert!(login_redirect(&Authentication::HashError, None).is_none());
}

#[test]
fn failure_reasons() {
    assert_eq!(FailureReason::NoNumbers.status_code(), 400);
    assert_eq!(FailureReason::PasswordAlreadySet.status_code(), 400);
    assert_eq!(FailureReason::UserNotFound.status_code(), 404);
    assert_eq!(FailureReason::BadPassword.status_code(), 403);
    assert_eq!(FailureReason::from_slug("failed_turnstile"), Some(FailureReason::FailedTurnstile));
    assert_eq!(FailureReason::from_slug("nonsense"), None);
    assert_eq!(FailureReason::FailedNumbers.path(), "/login_failure/failed_numbers");
}

#[test]
fn admin_account() {
    assert!(needs_admin_account(Some(0)));
    assert!(needs_admin_account(None));
    assert!(!needs_admin_account(Some(3)));
    let p = admin_password();
    assert_eq!(p.chars().count(), PASSWORD_LENGTH);
    assert!(p.chars().all(|c| PASSWORD_ALPHABET.contains(c)));
}

#[test]
fn passwords_are_spelled_from_draws() {
    assert_eq!(password_from_draws(&vec![0, 1, 2, 26]), "qwe".to_string() + "Q");
    assert_eq!(password_from_draws(&vec![]), "");
    let last = PASSWORD_ALPHABET.chars().count() - 1;
    assert_eq!(password_from_draws(&vec![last]), "?");
}
