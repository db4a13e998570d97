use conduwuit_core::account::admin_room;
use conduwuit_core::push_rules::default_push_rules_event;
use conduwuit_core::error::{Error, ErrorKind};
use conduwuit_core::membership::{extend_entries, invite_content};
use conduwuit_core::room::{initial_events, GuestAccess, InitialEvent, JoinRule};
use conduwuit_core::transaction::{transaction_pdus, transaction_results, TxnPdu};
use conduwuit_core::federation::{join_template, Membership, ToDeviceLog};
use conduwuit_core::pdu::{member_event_fields, pdu_room_id};
use conduwuit_core::room::{
    new_room_create_content, power_levels_content, preset_rules, tombstone_content,
    upgraded_create_content, HistoryVisibility, PowerLevelsContent, Visibility,
};
use conduwuit_core::room_version::RoomVersion;
use conduwuit_core::sync::{finish_sync, left_room, next_batch_token, SyncSections};

fn empty_sections() -> SyncSections {
    SyncSections {
        joined_rooms: 0,
        left_rooms: 0,
        invited_rooms: 0,
        knocked_rooms: 0,
        presence: 0,
        account_data: 0,
        device_lists_changed: 0,
        device_lists_left: 0,
        one_time_key_counts: 0,
        to_device: 0,
    }
}

#[test]
fn room_id_of_an_incoming_pdu() {
    assert_eq!(pdu_room_id(r#"{"room_id":"!abc:x.org","type":"m.room.message"}"#).unwrap(), "!abc:x.org");
    let e = pdu_room_id(r#"{"type":"m.room.message"}"#).unwrap_err();
    assert_eq!(e.kind, ErrorKind::InvalidParam);
    assert_eq!(e.message, "Invalid room id in pdu");
    let e = pdu_room_id(r#"{"room_id":"not a room"}"#).unwrap_err();
    assert_eq!(e.kind, ErrorKind::InvalidParam);
    let e = pdu_room_id("not json").unwrap_err();
    assert_eq!(e.kind, ErrorKind::BadServerResponse);
    assert_eq!(e.message, "Invalid PDU in server response");
}

#[test]
fn fields_of_a_join_pdu() {
    let pdu = r#"{"room_id":"!r:x.org","type":"m.room.member","sender":"@a:y.org","state_key":"@a:y.org","content":{"membership":"join","join_authorised_via_users_server":"@b:x.org"}}"#;
    let f = member_event_fields(pdu, "y.org").unwrap();
    assert_eq!(f.room_id.as_deref(), Some("!r:x.org"));
    assert_eq!(f.is_member_event, Some(true));
    assert_eq!(f.membership, Some(Membership::Join));
    assert_eq!(f.sender.as_deref(), Some("@a:y.org"));
    assert_eq!(f.sender_server.as_deref(), Some("y.org"));
    assert_eq!(f.state_key.as_deref(), Some("@a:y.org"));
    assert_eq!(f.authorising_user.as_deref(), Some("@b:x.org"));
    let f = member_event_fields(r#"{"type":"m.room.message","content":{"membership":"leave"}}"#, "y.org").unwrap();
    assert_eq!(f.room_id, None);
    assert_eq!(f.is_member_event, Some(false));
    assert_eq!(f.membership, Some(Membership::Leave));
    assert_eq!(f.sender, None);
    let e = member_event_fields("[1, 2]", "y.org").unwrap_err();
    assert_eq!(e.kind, ErrorKind::BadJson);
}

#[test]
fn join_event_template() {
    let t = join_template("@a:y.org", None);
    assert_eq!(t.event_type, "m.room.member");
    assert_eq!(t.sender, "@a:y.org");
    assert_eq!(t.state_key, "@a:y.org");
    assert_eq!(t.membership, Membership::Join);
    assert!(t.displayname.is_none() && t.avatar_url.is_none() && t.is_direct.is_none());
    assert_eq!(join_template("@a:y.org", Some("@b:x.org".to_string())).join_authorised_via_users_server.as_deref(), Some("@b:x.org"));
}

#[test]
fn power_levels_of_a_new_room() {
    let invites = vec!["@b:x.org".to_string()];
    match power_levels_content(None, "@a:x.org", &invites).unwrap() {
        PowerLevelsContent::Default(d) => {
            assert_eq!((d.ban, d.invite, d.kick, d.redact, d.state_default), (50, 50, 50, 50, 50));
            assert_eq!((d.events_default, d.users_default, d.notifications_room), (0, 0, 50));
            assert_eq!(d.users, vec!["@a:x.org".to_string(), "@b:x.org".to_string()]);
        },
        PowerLevelsContent::Override(_) => panic!("no override was given"),
    }
    match power_levels_content(Some(r#"{"ban":100}"#), "@a:x.org", &invites).unwrap() {
        PowerLevelsContent::Override(t) => assert_eq!(t, r#"{"ban":100}"#),
        PowerLevelsContent::Default(_) => panic!("the override was given"),
    }
    let e = power_levels_content(Some("{ban"), "@a:x.org", &invites).unwrap_err();
    assert_eq!(e.kind, ErrorKind::BadJson);
    assert_eq!(e.message, "Invalid power_level_content_override.");
}

#[test]
fn create_and_tombstone_contents() {
    let c = new_room_create_content("@a:x.org", true, None);
    assert_eq!(c.creator, "@a:x.org");
    assert!(c.federate);
    assert_eq!(c.room_version, RoomVersion::V6);
    assert!(c.predecessor.is_none());
    assert_eq!(preset_rules(None, Visibility::Private).history_visibility, HistoryVisibility::Shared);
    let t = tombstone_content("!new:x.org");
    assert_eq!(t.body, "This room has been replaced");
    assert_eq!(t.replacement_room, "!new:x.org");
    let c = upgraded_create_content("@a:x.org", false, RoomVersion::V5, "!old:x.org", "$tomb");
    assert!(!c.federate);
    assert_eq!(c.room_version, RoomVersion::V5);
    assert_eq!(c.predecessor, Some(("!old:x.org".to_string(), "$tomb".to_string())));
}

#[test]
fn the_end_of_a_sync() {
    assert_eq!(next_batch_token(1234), "1234");
    let (token, o) = finish_sync(false, &empty_sections(), Some(45_000), 7, 9);
    assert_eq!(token, "9");
    assert_eq!(o.wait_ms, Some(30_000));
    assert!(!o.cacheable);
    let mut s = empty_sections();
    s.to_device = 1;
    let (_, o) = finish_sync(false, &s, Some(45_000), 7, 9);
    assert_eq!(o.wait_ms, None);
    assert!(o.cacheable);
    let (_, o) = finish_sync(true, &empty_sections(), None, 9, 9);
    assert_eq!(o.wait_ms, None);
    assert!(!o.cacheable);
}

#[test]
fn left_rooms_of_a_sync() {
    assert!(left_room::<u8>(Some(5), 5, "9", vec![]).is_none());
    assert!(left_room::<u8>(None, 0, "9", vec![]).is_none());
    let l = left_room(Some(6), 5, "9", vec![1u8]).unwrap();
    assert!(l.timeline.is_empty() && l.account_data.is_empty() && !l.limited);
    assert_eq!(l.prev_batch.as_deref(), Some("9"));
    assert_eq!(l.state, vec![1u8]);
}

#[test]
fn to_device_messages_are_handled_once() {
    let mut log = ToDeviceLog { seen: vec![] };
    assert!(log.deliver("@a:y.org", "y.org", "y.org", "m1"));
    assert!(!log.deliver("@a:y.org", "y.org", "y.org", "m1"));
    assert!(log.deliver("@a:y.org", "y.org", "y.org", "m2"));
    assert!(!log.deliver("@b:z.org", "z.org", "y.org", "m3"));
    assert_eq!(log.seen.len(), 2);
}

#[test]
fn invite_member_content() {
    let c = invite_content(Some("Bob".to_string()), None, Some("L6P".to_string()), true);
    assert_eq!(c.membership, Membership::Invite);
    assert_eq!(c.displayname.as_deref(), Some("Bob"));
    assert!(c.avatar_url.is_none());
    assert_eq!(c.blurhash.as_deref(), Some("L6P"));
    assert_eq!(c.is_direct, Some(true));
    assert!(c.reason.is_none());
}

#[test]
fn events_of_a_new_room_in_order() {
    let ev = initial_events(&vec![false, true, false], true, true, false, 2);
    assert_eq!(ev, vec![
        InitialEvent::Create,
        InitialEvent::CreatorJoin,
        InitialEvent::PowerLevels,
        InitialEvent::JoinRules,
        InitialEvent::HistoryVisibility,
        InitialEvent::GuestAccess,
        InitialEvent::InitialState(0),
        InitialEvent::InitialState(2),
        InitialEvent::Name,
        InitialEvent::Invite(0),
        InitialEvent::Invite(1),
    ]);
    let ev = initial_events(&vec![true], false, false, true, 0);
    assert_eq!(ev[6..].to_vec(), vec![InitialEvent::InitialState(0), InitialEvent::Topic]);
}

#[test]
fn remote_keys_replace_earlier_ones() {
    let mut keys = vec![("@a:x".to_string(), 1), ("@b:x".to_string(), 2)];
    extend_entries(&mut keys, vec![("@a:x".to_string(), 3), ("@c:y".to_string(), 4), ("@a:x".to_string(), 5)]);
    assert_eq!(keys, vec![("@b:x".to_string(), 2), ("@c:y".to_string(), 4), ("@a:x".to_string(), 5)]);
}

#[test]
fn the_pdus_a_transaction_handles() {
    let p = |room: Result<&str, Error>, known: bool, id: Option<&str>| TxnPdu {
        room: room.map(|r| r.to_string()),
        room_known: known,
        event_id: id.map(|i| i.to_string()),
    };
    let pdus = vec![
        p(Ok("!a"), true, Some("$1")),
        p(Ok("!b"), false, Some("$2")),
        p(Ok("!a"), true, None),
        p(Ok("!c"), true, Some("$4")),
    ];
    assert_eq!(transaction_pdus(&pdus), vec![
        ("$1".to_string(), "!a".to_string()),
        ("$4".to_string(), "!c".to_string()),
    ]);
    let bad = Error::new(ErrorKind::InvalidParam, "Invalid room id in pdu");
    let pdus = vec![p(Ok("!a"), true, Some("$1")), p(Err(bad), true, None), p(Ok("!c"), true, Some("$4"))];
    assert_eq!(transaction_pdus(&pdus), vec![
        ("$1".to_string(), "!a".to_string()),
        ("$4".to_string(), "!c".to_string()),
    ]);
    let results = vec![
        ("$1".to_string(), Ok(())),
        ("$4".to_string(), Err(Error::new(ErrorKind::NotFound, "x"))),
        ("$1".to_string(), Err(Error::new(ErrorKind::Forbidden, "y"))),
    ];
    let m = transaction_results(results);
    assert_eq!(m.len(), 2);
    assert_eq!(m[0].0, "$4");
    assert_eq!(m[1].0, "$1");
    assert_eq!(m[1].1.unwrap_err().kind, ErrorKind::Forbidden);
}

#[test]
fn the_admin_room() {
    let a = admin_room("x.org", "@alice:x.org");
    assert_eq!(a.bot_user, "@conduit:x.org");
    assert_eq!(a.alias, "#admins:x.org");
    assert_eq!(a.name, "Admin Room");
    assert_eq!(a.topic, "Manage x.org");
    assert_eq!(a.room_version, RoomVersion::V6);
    assert!(a.federate);
    assert_eq!(a.join_rule, JoinRule::Invite);
    assert_eq!(a.guest_access, GuestAccess::Forbidden);
    assert_eq!(a.history_visibility, HistoryVisibility::Shared);
    assert_eq!(a.power_users, vec!["@conduit:x.org".to_string(), "@alice:x.org".to_string()]);
}

#[test]
fn new_accounts_get_the_default_push_rules() {
    let e = default_push_rules_event("@alice:x.org").unwrap();
    assert!(e.starts_with("{\"type\":\"m.push_rules\",\"content\":{\"global\":"));
    assert!(e.ends_with("}}"));
    assert!(e.contains(".m.rule.master"));
    assert!(e.contains("@alice:x.org"));
    let v: serde_json::Value = serde_json::from_str(&e).unwrap();
    assert!(v["content"]["global"]["override"].is_array());
    assert!(default_push_rules_event("not a user").is_none());
}
