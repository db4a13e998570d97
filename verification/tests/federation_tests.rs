use conduwuit_core::error::{Error, ErrorKind};
use conduwuit_core::federation::{
    accept_receipt, authorised_join_checks, backfill_limit, backfill_until, check_version_offered,
    device_list_stream_id, devices_of_local_user, event_read_access, federated_device_name,
    federation_enabled, handle_edu, handle_edu_typing, hierarchy_room, invite_checks,
    invite_policy_checks, join_authorized_via, keys_valid_until, knock_membership_check,
    latest_known_event, make_join_checks, make_knock_checks, make_leave_checks,
    room_read_access, send_join_event_checks, send_leave_event_checks,
    server_key_id, state_at_event, transaction_checks, typing_timeout,
    user_belongs_to_origin, user_can_perform_restricted_join, well_known_server_route,
    without_our_server, EduAction, EduKind, InviteRequest, JoinRuleKind, MemberEventFields,
    Membership, TemplateRequest, TypingAction,
};
use conduwuit_core::room_version::RoomVersion;

fn template(exists: bool, user_server: &str) -> TemplateRequest {
    TemplateRequest {
        room_exists: exists,
        user_server: user_server.to_string(),
        origin: "remote.org".to_string(),
        acl: Ok(()),
        origin_forbidden: false,
        room_server_forbidden: false,
    }
}

fn kind(r: Result<(), Error>) -> Option<ErrorKind> {
    r.err().map(|e| e.kind)
}

#[test]
fn make_join_checks_in_order() {
    assert_eq!(kind(make_join_checks(&template(true, "remote.org"))), None);
    assert_eq!(kind(make_join_checks(&template(false, "other.org"))), Some(ErrorKind::NotFound));
    assert_eq!(kind(make_join_checks(&template(true, "other.org"))), Some(ErrorKind::InvalidParam));
    let mut t = template(true, "remote.org");
    t.acl = Err(Error::new(ErrorKind::Forbidden, "acl"));
    assert_eq!(kind(make_join_checks(&t)), Some(ErrorKind::Forbidden));
    let mut t = template(true, "remote.org");
    t.room_server_forbidden = true;
    assert_eq!(kind(make_join_checks(&t)), Some(ErrorKind::Forbidden));
}

#[test]
fn make_knock_needs_a_knock_version_offered() {
    let t = template(true, "remote.org");
    assert_eq!(kind(make_knock_checks(&t, RoomVersion::V7, &vec![RoomVersion::V7])), None);
    assert_eq!(
        kind(make_knock_checks(&t, RoomVersion::V6, &vec![RoomVersion::V6])),
        Some(ErrorKind::IncompatibleRoomVersion)
    );
    assert_eq!(
        kind(make_knock_checks(&t, RoomVersion::V10, &vec![RoomVersion::V9])),
        Some(ErrorKind::IncompatibleRoomVersion)
    );
    assert_eq!(
        kind(make_knock_checks(&template(true, "x.org"), RoomVersion::V10, &vec![RoomVersion::V10])),
        Some(ErrorKind::BadJson)
    );
    assert_eq!(kind(knock_membership_check(true)), Some(ErrorKind::Forbidden));
    assert_eq!(kind(knock_membership_check(false)), None);
}

#[test]
fn make_leave_and_version_checks() {
    assert_eq!(kind(make_leave_checks(&template(true, "remote.org"))), None);
    assert_eq!(kind(make_leave_checks(&template(false, "remote.org"))), Some(ErrorKind::NotFound));
    assert_eq!(kind(check_version_offered(&vec![RoomVersion::V5, RoomVersion::V6], RoomVersion::V6)), None);
    assert_eq!(
        kind(check_version_offered(&vec![RoomVersion::V5], RoomVersion::V6)),
        Some(ErrorKind::IncompatibleRoomVersion)
    );
}

#[test]
fn restricted_joins() {
    let ok = user_can_perform_restricted_join(RoomVersion::V9, Some(JoinRuleKind::Restricted), &vec![false, true]);
    assert_eq!(ok.unwrap(), true);
    let none = user_can_perform_restricted_join(RoomVersion::V9, Some(JoinRuleKind::Restricted), &vec![false]);
    assert_eq!(none.unwrap_err().kind, ErrorKind::UnableToAuthorizeJoin);
    assert_eq!(user_can_perform_restricted_join(RoomVersion::V6, Some(JoinRuleKind::Restricted), &vec![]).unwrap(), false);
    assert_eq!(user_can_perform_restricted_join(RoomVersion::V9, Some(JoinRuleKind::Other), &vec![]).unwrap(), false);
    assert_eq!(user_can_perform_restricted_join(RoomVersion::V9, None, &vec![]).unwrap(), false);
}

#[test]
fn join_authorisation_via_local_user() {
    assert_eq!(join_authorized_via(false, Ok(true), None).unwrap(), None);
    assert_eq!(join_authorized_via(true, Ok(false), None).unwrap(), None);
    assert_eq!(
        join_authorized_via(true, Ok(true), Some("@mod:x".to_string())).unwrap().as_deref(),
        Some("@mod:x")
    );
    assert_eq!(join_authorized_via(true, Ok(true), None).unwrap_err().kind, ErrorKind::UnableToGrantJoin);
    assert_eq!(
        join_authorized_via(true, Err(Error::new(ErrorKind::UnableToAuthorizeJoin, "x")), None).unwrap_err().kind,
        ErrorKind::UnableToAuthorizeJoin
    );
}

fn member_event(room: &str, m: Membership, sender: &str, server: &str, key: &str) -> MemberEventFields {
    MemberEventFields {
        room_id: Some(room.to_string()),
        is_member_event: Some(true),
        membership: Some(m),
        sender: Some(sender.to_string()),
        sender_server: Some(server.to_string()),
        state_key: Some(key.to_string()),
        authorising_user: None,
    }
}

#[test]
fn send_join_event_checks_in_order() {
    let good = member_event("!r:x", Membership::Join, "@a:remote.org", "remote.org", "@a:remote.org");
    assert_eq!(kind(send_join_event_checks(&good, "!r:x", "remote.org", Ok(()))), None);
    let mut e = good.clone();
    e.room_id = Some("!other:x".to_string());
    assert_eq!(kind(send_join_event_checks(&e, "!r:x", "remote.org", Ok(()))), Some(ErrorKind::BadJson));
    let e = member_event("!r:x", Membership::Leave, "@a:remote.org", "remote.org", "@a:remote.org");
    assert_eq!(kind(send_join_event_checks(&e, "!r:x", "remote.org", Ok(()))), Some(ErrorKind::BadJson));
    assert_eq!(kind(send_join_event_checks(&good, "!r:x", "evil.org", Ok(()))), Some(ErrorKind::Forbidden));
    let e = member_event("!r:x", Membership::Join, "@a:remote.org", "remote.org", "@b:remote.org");
    assert_eq!(kind(send_join_event_checks(&e, "!r:x", "remote.org", Ok(()))), Some(ErrorKind::BadJson));
    assert_eq!(
        kind(send_join_event_checks(&good, "!r:x", "remote.org", Err(Error::new(ErrorKind::Forbidden, "acl")))),
        Some(ErrorKind::Forbidden)
    );
}

#[test]
fn send_leave_event_checks_in_order() {
    let good = member_event("!r:x", Membership::Leave, "@a:remote.org", "remote.org", "@a:remote.org");
    assert_eq!(kind(send_leave_event_checks(&good, "remote.org", Ok(()))), None);
    let e = member_event("!r:x", Membership::Join, "@a:remote.org", "remote.org", "@a:remote.org");
    assert_eq!(kind(send_leave_event_checks(&e, "remote.org", Ok(()))), Some(ErrorKind::InvalidParam));
    assert_eq!(kind(send_leave_event_checks(&good, "evil.org", Ok(()))), Some(ErrorKind::InvalidParam));
    let mut e = good.clone();
    e.state_key = None;
    assert_eq!(kind(send_leave_event_checks(&e, "remote.org", Ok(()))), Some(ErrorKind::BadJson));
}

#[test]
fn authorised_joins() {
    assert_eq!(kind(authorised_join_checks(RoomVersion::V9, true, true, Ok(true))), None);
    assert_eq!(kind(authorised_join_checks(RoomVersion::V6, true, true, Ok(true))), Some(ErrorKind::InvalidParam));
    assert_eq!(kind(authorised_join_checks(RoomVersion::V9, false, true, Ok(true))), Some(ErrorKind::InvalidParam));
    assert_eq!(kind(authorised_join_checks(RoomVersion::V9, true, false, Ok(true))), Some(ErrorKind::InvalidParam));
    assert_eq!(
        kind(authorised_join_checks(RoomVersion::V9, true, true, Ok(false))),
        Some(ErrorKind::UnableToAuthorizeJoin)
    );
}

#[test]
fn leave_is_forwarded_to_other_servers() {
    let s = vec!["a.org".to_string(), "ours.org".to_string(), "b.org".to_string()];
    assert_eq!(without_our_server(s, "ours.org"), vec!["a.org", "b.org"]);
}

#[test]
fn invite_checks_in_order() {
    let base = || InviteRequest {
        origin_acl: Ok(()),
        version_supported: true,
        room_server_forbidden: false,
        origin_forbidden: false,
        invitee_server_is_ours: Some(true),
        invitee_server_acl: Ok(()),
    };
    assert_eq!(kind(invite_checks(&base())), None);
    let mut r = base();
    r.version_supported = false;
    assert_eq!(kind(invite_checks(&r)), Some(ErrorKind::IncompatibleRoomVersion));
    let mut r = base();
    r.invitee_server_is_ours = Some(false);
    assert_eq!(kind(invite_checks(&r)), Some(ErrorKind::InvalidParam));
    let mut r = base();
    r.origin_forbidden = true;
    assert_eq!(kind(invite_checks(&r)), Some(ErrorKind::Forbidden));
    assert_eq!(kind(invite_policy_checks(true, false, false)), Some(ErrorKind::Forbidden));
    assert_eq!(kind(invite_policy_checks(true, true, true)), None);
    assert_eq!(kind(invite_policy_checks(false, true, false)), Some(ErrorKind::Forbidden));
}

#[test]
fn request_limits() {
    assert_eq!(backfill_limit(20), 20);
    assert_eq!(backfill_limit(1000), 100);
    assert_eq!(backfill_until(&vec![Some(4), None, Some(9), Some(2)]).unwrap(), 9);
    let e = backfill_until(&vec![None, None]).unwrap_err();
    assert_eq!(e.kind, ErrorKind::InvalidParam);
    assert_eq!(e.message, "No known eventid in v");
}

#[test]
fn transaction_limits() {
    assert_eq!(kind(transaction_checks("a.org", "a.org", 50, 100)), None);
    assert_eq!(kind(transaction_checks("a.org", "b.org", 0, 0)), Some(ErrorKind::Forbidden));
    assert_eq!(kind(transaction_checks("a.org", "a.org", 51, 0)), Some(ErrorKind::Forbidden));
    assert_eq!(kind(transaction_checks("a.org", "a.org", 0, 101)), Some(ErrorKind::Forbidden));
}

#[test]
fn typing_timeout_saturates() {
    assert_eq!(typing_timeout(1_000, 30), 31_000);
    assert_eq!(typing_timeout(u64::MAX - 10, 30), u64::MAX);
    assert_eq!(typing_timeout(5, u64::MAX), u64::MAX);
}

#[test]
fn edu_routing() {
    assert_eq!(handle_edu(EduKind::Presence, false, true, true), EduAction::Skip);
    assert_eq!(handle_edu(EduKind::Presence, true, false, false), EduAction::Handle(EduKind::Presence));
    assert_eq!(handle_edu(EduKind::Receipt, true, false, true), EduAction::Skip);
    assert_eq!(handle_edu(EduKind::Typing, true, true, false), EduAction::Skip);
    assert_eq!(handle_edu(EduKind::DirectToDevice, false, false, false), EduAction::Handle(EduKind::DirectToDevice));
    assert_eq!(handle_edu(EduKind::Custom, true, true, true), EduAction::Skip);
    assert!(user_belongs_to_origin("a.org", "a.org"));
    assert!(!user_belongs_to_origin("a.org", "b.org"));
}

#[test]
fn typing_and_receipt_edus() {
    assert_eq!(handle_edu_typing(true, true, true, true, 1_000, 30), TypingAction::Add(31_000));
    assert_eq!(handle_edu_typing(true, true, true, true, u64::MAX - 5, 30), TypingAction::Add(u64::MAX));
    assert_eq!(handle_edu_typing(true, true, true, false, 1_000, 30), TypingAction::Remove);
    assert_eq!(handle_edu_typing(false, true, true, true, 1_000, 30), TypingAction::Ignore);
    assert_eq!(handle_edu_typing(true, true, false, true, 1_000, 30), TypingAction::Ignore);
    assert!(accept_receipt(true, true, true));
    assert!(!accept_receipt(true, false, true));
}

#[test]
fn latest_known_event_of_a_receipt() {
    assert_eq!(latest_known_event(&vec![None, Some(3), Some(9), None, Some(9), Some(2)]), Some(4));
    assert_eq!(latest_known_event(&vec![None, None]), None);
    assert_eq!(latest_known_event(&vec![]), None);
}

#[test]
fn reading_over_federation() {
    assert_eq!(kind(room_read_access(false, Ok(()))), Some(ErrorKind::Forbidden));
    assert_eq!(kind(room_read_access(true, Err(Error::new(ErrorKind::Forbidden, "acl")))), Some(ErrorKind::Forbidden));
    assert_eq!(kind(room_read_access(true, Ok(()))), None);
    assert_eq!(kind(event_read_access(true, false)), Some(ErrorKind::Forbidden));
    assert_eq!(kind(event_read_access(true, true)), None);
    assert_eq!(state_at_event(Some(4)).unwrap(), 4);
    assert_eq!(state_at_event(None).unwrap_err().kind, ErrorKind::NotFound);
    assert_eq!(kind(hierarchy_room(false)), Some(ErrorKind::NotFound));
}

#[test]
fn federation_device_queries() {
    assert_eq!(kind(devices_of_local_user("x.org", "x.org")), None);
    assert_eq!(kind(devices_of_local_user("y.org", "x.org")), Some(ErrorKind::InvalidParam));
    assert_eq!(federated_device_name(true, "DEV".to_string(), Some("Phone".to_string())).as_deref(), Some("Phone"));
    assert_eq!(federated_device_name(false, "DEV".to_string(), Some("Phone".to_string())).as_deref(), Some("DEV"));
    assert_eq!(device_list_stream_id(None), 0);
    assert_eq!(device_list_stream_id(Some(7)), 7);
}

#[test]
fn server_description() {
    assert_eq!(kind(federation_enabled(false)), Some(ErrorKind::BadConfig));
    assert_eq!(well_known_server_route(true, Some("m.x.org:443".to_string())).unwrap(), "m.x.org:443");
    assert_eq!(well_known_server_route(true, None).unwrap_err().kind, ErrorKind::NotFound);
    assert_eq!(well_known_server_route(false, Some("x".to_string())).unwrap_err().kind, ErrorKind::BadConfig);
    assert_eq!(server_key_id("abc"), "ed25519:abc");
    assert_eq!(keys_valid_until(), 9_007_199_254_740_991);
}

#[test]
fn direct_to_device_edus() {
    assert!(conduwuit_core::federation::accept_direct_to_device("a.org", "a.org", false));
    assert!(!conduwuit_core::federation::accept_direct_to_device("a.org", "a.org", true));
    assert!(!conduwuit_core::federation::accept_direct_to_device("b.org", "a.org", false));
}
