use conduwuit_core::error::ErrorKind;
use conduwuit_core::room::{
    alias_free, alias_text, check_upgrade_version, keep_initial_state, lock_level, power_users,
    preset_rules, requested_alias, transferable, GuestAccess, JoinRule, Preset, TransferableState,
    Visibility,
};
use conduwuit_core::room_version::{keeps_event_id, supports_knock, supports_restricted, RoomVersion};

#[test]
fn room_aliases() {
    assert_eq!(alias_text("room", "example.com"), "#room:example.com");
    assert_eq!(requested_alias(Some("room"), "example.com").unwrap().as_deref(), Some("#room:example.com"));
    assert_eq!(requested_alias(None, "example.com").unwrap(), None);
    assert_eq!(requested_alias(Some("room"), "").unwrap_err().kind, ErrorKind::InvalidParam);
    assert_eq!(alias_free(true).unwrap_err().kind, ErrorKind::RoomInUse);
    assert!(alias_free(false).is_ok());
}

#[test]
fn presets() {
    let r = preset_rules(None, Visibility::Public);
    assert_eq!(r.preset, Preset::PublicChat);
    assert_eq!(r.join_rule, JoinRule::Public);
    assert_eq!(r.guest_access, GuestAccess::Forbidden);
    assert!(r.published);
    let r = preset_rules(None, Visibility::Private);
    assert_eq!(r.preset, Preset::PrivateChat);
    assert_eq!(r.join_rule, JoinRule::Invite);
    assert_eq!(r.guest_access, GuestAccess::CanJoin);
    assert!(!r.published);
    let r = preset_rules(Some(Preset::PublicChat), Visibility::Private);
    assert_eq!(r.join_rule, JoinRule::Public);
    assert!(!r.published);
}

#[test]
fn creator_and_invitees_get_full_power() {
    let invites = vec!["@b:x".to_string(), "@a:x".to_string(), "@b:x".to_string()];
    assert_eq!(power_users("@a:x", &invites), vec!["@a:x", "@b:x"]);
}

#[test]
fn encryption_skipped_when_disabled() {
    assert!(!keep_initial_state(true, true));
    assert!(keep_initial_state(true, false));
    assert!(keep_initial_state(false, true));
}

#[test]
fn upgrades() {
    assert!(check_upgrade_version(RoomVersion::V6).is_ok());
    assert_eq!(check_upgrade_version(RoomVersion::V9).unwrap_err().kind, ErrorKind::UnsupportedRoomVersion);
    let t = transferable();
    assert_eq!(t.len(), 9);
    assert_eq!(t[0], TransferableState::ServerAcl);
    assert_eq!(t[8], TransferableState::PowerLevels);
    assert_eq!(lock_level(0), 50);
    assert_eq!(lock_level(49), 50);
    assert_eq!(lock_level(50), 51);
    assert_eq!(lock_level(-10), 50);
}

#[test]
fn room_version_rules() {
    assert!(keeps_event_id(RoomVersion::V2));
    assert!(!keeps_event_id(RoomVersion::V3));
    assert!(supports_restricted(RoomVersion::V8));
    assert!(!supports_restricted(RoomVersion::V7));
    assert!(supports_knock(RoomVersion::V7));
    assert!(!supports_knock(RoomVersion::V6));
    assert!(supports_knock(RoomVersion::Custom));
}
