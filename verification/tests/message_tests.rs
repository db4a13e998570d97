use conduwuit_core::account::{register_step, register_user, AuthOutcome, AuthStep};
use conduwuit_core::directory::since_offset;
use conduwuit_core::membership::{invite_authorized, no_join_server};
use conduwuit_core::push_rules::check_scope;
use conduwuit_core::room::{alias_free, check_upgrade_version};
use conduwuit_core::room_version::RoomVersion;
use conduwuit_core::session::{check_password, token_login_user};

#[test]
fn refusals_carry_their_messages() {
    let e = register_user(false, false, Some("alice"), "r", "x.org").err().unwrap();
    assert_eq!(e.message, "Registration has been disabled.");
    let named = register_user(true, false, Some("alice"), "r", "x.org").ok().unwrap();
    match register_step(&named, true, false, AuthOutcome::Completed) {
        AuthStep::Refused(e) => assert_eq!(e.message, "Desired user ID is already taken."),
        _ => panic!("a taken name is refused"),
    }
    assert_eq!(alias_free(true).unwrap_err().message, "Room alias already exists.");
    assert_eq!(
        check_upgrade_version(RoomVersion::V1).unwrap_err().message,
        "This server does not support that room version."
    );
    assert_eq!(check_scope("device").unwrap_err().message, "Scopes other than 'global' are not supported.");
    assert_eq!(since_offset(Some("x5"), 10).unwrap_err().message, "Invalid `since` token");
    assert_eq!(no_join_server().message, "No server available to assist in joining.");
    assert_eq!(check_password(None, "pw").unwrap_err().message, "Wrong username or password.");
    assert_eq!(token_login_user("t", None, "x.org").unwrap_err().message, "Token login is not supported (server has no jwt decoding key).");
    assert_eq!(invite_authorized(false).unwrap_err().message, "Event is not authorized.");
}
