use conduwuit_core::account::{
    auth_step, creates_admin_room, is_historical, local_user_id, new_login, other_devices,
    register_begin, register_device, register_password, register_step, register_user,
    username_available, AuthOutcome, AuthStep,
};
use conduwuit_core::error::ErrorKind;

const SERVER: &str = "example.com";

#[test]
fn local_user_id_of_a_localpart() {
    assert_eq!(local_user_id("alice", SERVER).unwrap(), "@alice:example.com");
    assert_eq!(local_user_id("@bob:example.com", SERVER).unwrap(), "@bob:example.com");
}

#[test]
fn local_user_id_refuses_historical_foreign_and_invalid() {
    assert_eq!(local_user_id("Alice", SERVER).unwrap_err().kind, ErrorKind::InvalidUsername);
    assert_eq!(local_user_id("@bob:other.org", SERVER).unwrap_err().kind, ErrorKind::InvalidUsername);
    assert_eq!(local_user_id("a b", SERVER).unwrap_err().kind, ErrorKind::InvalidUsername);
    assert_eq!(local_user_id("", SERVER).unwrap_err().kind, ErrorKind::InvalidUsername);
}

#[test]
fn historical_localparts() {
    assert!(!is_historical("alice_01.-=/+"));
    assert!(is_historical("Alice"));
    assert!(is_historical(""));
    assert!(is_historical("ä"));
}

#[test]
fn username_availability() {
    assert_eq!(username_available(false, false).unwrap(), true);
    assert_eq!(username_available(true, false).unwrap_err().kind, ErrorKind::UserInUse);
    assert_eq!(username_available(true, true).unwrap_err().message, "Desired user ID is already taken.");
    assert_eq!(username_available(false, true).unwrap_err().kind, ErrorKind::Exclusive);
}

#[test]
fn registration_lowercases_the_username() {
    let u = register_user(true, false, Some("Alice"), "ignored", SERVER).ok().unwrap();
    assert_eq!(u.user_id, "@alice:example.com");
    assert!(!u.missing_username);
}

#[test]
fn registration_refusals() {
    assert_eq!(
        register_user(false, false, Some("alice"), "r", SERVER).err().unwrap().kind,
        ErrorKind::Forbidden
    );
    assert_eq!(
        register_user(true, false, Some("a:b"), "r", SERVER).err().unwrap().kind,
        ErrorKind::InvalidUsername
    );
}

#[test]
fn registration_without_username_uses_the_random_name() {
    let u = register_user(true, false, None, "Xyz123", SERVER).ok().unwrap();
    assert_eq!(u.user_id, "@xyz123:example.com");
    assert!(u.missing_username);
    let g = register_user(true, true, Some("bob"), "guest99", SERVER).ok().unwrap();
    assert_eq!(g.user_id, "@guest99:example.com");
    assert!(!g.missing_username);
}

#[test]
fn guest_registration_gets_a_random_local_id() {
    let u = register_begin(true, true, None, SERVER).ok().unwrap();
    let local = u.user_id.strip_prefix('@').unwrap().strip_suffix(":example.com").unwrap();
    assert_eq!(local.len(), 10);
    assert!(local.chars().all(|c| c.is_ascii_lowercase() || c.is_ascii_digit()));
}

#[test]
fn registration_steps() {
    let named = register_user(true, false, Some("alice"), "r", SERVER).ok().unwrap();
    let missing = register_user(true, false, None, "abc", SERVER).ok().unwrap();
    assert!(matches!(register_step(&named, true, false, AuthOutcome::Completed), AuthStep::Refused(e) if e.kind == ErrorKind::UserInUse));
    assert!(matches!(register_step(&named, false, false, AuthOutcome::Missing), AuthStep::StartSession));
    assert!(matches!(register_step(&named, false, false, AuthOutcome::Incomplete), AuthStep::Continue));
    assert!(matches!(register_step(&named, false, false, AuthOutcome::Completed), AuthStep::Proceed));
    assert!(matches!(register_step(&named, false, true, AuthOutcome::Missing), AuthStep::Proceed));
    assert!(matches!(register_step(&missing, true, false, AuthOutcome::Completed), AuthStep::Refused(e) if e.kind == ErrorKind::MissingParam));
    assert!(matches!(register_step(&missing, true, false, AuthOutcome::Missing), AuthStep::StartSession));
}

#[test]
fn auth_steps() {
    assert!(matches!(auth_step(AuthOutcome::Missing), AuthStep::StartSession));
    assert!(matches!(auth_step(AuthOutcome::Incomplete), AuthStep::Continue));
    assert!(matches!(auth_step(AuthOutcome::Completed), AuthStep::Proceed));
}

#[test]
fn registration_password_and_device() {
    assert_eq!(register_password(true, Some("pw".to_string())), "");
    assert_eq!(register_password(false, Some("pw".to_string())), "pw");
    assert_eq!(register_password(false, None), "");
    assert_eq!(register_device(false, true, Some("D".to_string()), "R".to_string()), None);
    assert_eq!(register_device(false, false, Some("D".to_string()), "R".to_string()).as_deref(), Some("D"));
    assert_eq!(register_device(true, true, Some("D".to_string()), "R".to_string()).as_deref(), Some("R"));
    assert_eq!(register_device(false, false, None, "R".to_string()).as_deref(), Some("R"));
}

#[test]
fn new_login_credentials() {
    assert!(new_login(false, true, None).is_none());
    let (d, t) = new_login(false, false, Some("MYDEVICE".to_string())).unwrap();
    assert_eq!(d, "MYDEVICE");
    assert_eq!(t.len(), 256);
    assert!(t.chars().all(|c| c.is_ascii_alphanumeric()));
    let (d, _) = new_login(true, false, Some("MYDEVICE".to_string())).unwrap();
    assert_eq!(d.len(), 10);
}

#[test]
fn admin_room_for_the_first_user_only() {
    assert!(creates_admin_room(1));
    assert!(!creates_admin_room(2));
}

#[test]
fn password_change_logs_out_other_devices() {
    let all = vec!["A".to_string(), "B".to_string(), "C".to_string()];
    assert_eq!(other_devices(all.clone(), "B", true), vec!["A", "C"]);
    assert_eq!(other_devices(all, "B", false), Vec::<String>::new());
}
