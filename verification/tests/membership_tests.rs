use conduwuit_core::error::ErrorKind;
use conduwuit_core::federation::Membership;
use conduwuit_core::membership::{
    backoff_secs, ban_content, check_create_event, create_is_only_prev, event_id_from_hash,
    invite_authorized, invite_prev_events, invite_recipient, invite_response_origin,
    invite_room_version, join_attempt, join_locally, join_via, leave_content, next_depth,
    no_join_server, object_insert, remote_join_version, still_backing_off, JoinAttempt,
};
use conduwuit_core::profile::MemberContent;
use conduwuit_core::room_version::{maybe_strip_event_id, remove_key, RoomVersion};

fn content(m: Membership, name: Option<&str>) -> MemberContent {
    MemberContent {
        membership: m,
        displayname: name.map(|s| s.to_string()),
        avatar_url: None,
        blurhash: None,
        is_direct: None,
        reason: None,
    }
}

#[test]
fn object_insert_replaces_and_appends() {
    let mut obj = vec![("origin".to_string(), 1), ("event_id".to_string(), 2), ("depth".to_string(), 3)];
    object_insert(&mut obj, "event_id".to_string(), 9);
    assert_eq!(obj, vec![("origin".to_string(), 1), ("depth".to_string(), 3), ("event_id".to_string(), 9)]);
    object_insert(&mut obj, "content".to_string(), 4);
    assert_eq!(obj.len(), 4);
    assert_eq!(obj[3], ("content".to_string(), 4));
}

#[test]
fn event_id_stripped_after_version_two() {
    let mut obj = vec![("event_id".to_string(), 1), ("a".to_string(), 2)];
    maybe_strip_event_id(&mut obj, RoomVersion::V1);
    assert_eq!(obj.len(), 2);
    maybe_strip_event_id(&mut obj, RoomVersion::V6);
    assert_eq!(obj, vec![("a".to_string(), 2)]);
    remove_key(&mut obj, "missing");
    assert_eq!(obj.len(), 1);
}

#[test]
fn event_ids_from_hashes() {
    assert_eq!(event_id_from_hash("abc123"), "$abc123");
}

#[test]
fn join_locality() {
    assert!(join_locally(true, "other.org", "ours.org"));
    assert!(join_locally(false, "ours.org", "ours.org"));
    assert!(!join_locally(false, "other.org", "ours.org"));
}

#[test]
fn remote_join_versions() {
    assert_eq!(remote_join_version(Some(RoomVersion::V6)).unwrap(), RoomVersion::V6);
    assert_eq!(remote_join_version(Some(RoomVersion::V9)).unwrap_err().kind, ErrorKind::BadServerResponse);
    assert_eq!(remote_join_version(None).unwrap_err().kind, ErrorKind::BadServerResponse);
}

#[test]
fn join_server_search() {
    assert_eq!(join_attempt(3, &vec![]), JoinAttempt::Ask(0));
    assert_eq!(join_attempt(3, &vec![false]), JoinAttempt::Ask(1));
    assert_eq!(join_attempt(3, &vec![false, true]), JoinAttempt::Use(1));
    assert_eq!(join_attempt(2, &vec![false, false]), JoinAttempt::GiveUp);
    assert_eq!(join_attempt(0, &vec![]), JoinAttempt::GiveUp);
    assert_eq!(no_join_server().kind, ErrorKind::BadServerResponse);
}

#[test]
fn joined_state_needs_a_create_event() {
    let entries = vec![(1u64, "$a".to_string()), (7, "$create".to_string())];
    assert!(check_create_event(&entries, 7).is_ok());
    assert_eq!(check_create_event(&entries, 8).unwrap_err().kind, ErrorKind::BadServerResponse);
}

#[test]
fn exponential_backoff() {
    assert_eq!(backoff_secs(0), 0);
    assert_eq!(backoff_secs(1), 30);
    assert_eq!(backoff_secs(3), 270);
    assert_eq!(backoff_secs(100), 86_400);
    assert!(still_backing_off(29_999, 1));
    assert!(!still_backing_off(30_000, 1));
}

#[test]
fn invite_preparation() {
    let leaves: Vec<String> = (0..25).map(|i| format!("$e{}", i)).collect();
    let prev = invite_prev_events(leaves.clone());
    assert_eq!(prev.len(), 20);
    assert_eq!(prev[19], "$e19");
    assert_eq!(invite_prev_events(leaves[..3].to_vec()).len(), 3);
    assert!(create_is_only_prev(&vec!["$c".to_string()], Some("$c")));
    assert!(!create_is_only_prev(&vec!["$c".to_string(), "$d".to_string()], Some("$c")));
    assert!(!create_is_only_prev(&vec!["$c".to_string()], None));
    assert_eq!(invite_room_version(None), RoomVersion::V6);
    assert_eq!(invite_room_version(Some(RoomVersion::V9)), RoomVersion::V9);
    assert_eq!(next_depth(&vec![3, 9, 4]), 10);
    assert_eq!(next_depth(&vec![]), 1);
    assert_eq!(invite_authorized(false).unwrap_err().kind, ErrorKind::Forbidden);
    assert_eq!(invite_response_origin(Some(Some("x.org".to_string()))).unwrap(), "x.org");
    assert_eq!(invite_response_origin(Some(None)).unwrap_err().kind, ErrorKind::InvalidParam);
    assert_eq!(invite_response_origin(None).unwrap_err().kind, ErrorKind::InvalidParam);
    assert_eq!(invite_recipient(None).unwrap_err().kind, ErrorKind::NotFound);
}

#[test]
fn membership_changes_by_others() {
    let c = ban_content(Some(content(Membership::Join, Some("Al"))), content(Membership::Leave, None));
    assert_eq!(c.membership, Membership::Ban);
    assert_eq!(c.displayname.as_deref(), Some("Al"));
    let c = ban_content(None, content(Membership::Leave, Some("Fresh")));
    assert_eq!(c.membership, Membership::Ban);
    assert_eq!(c.displayname.as_deref(), Some("Fresh"));
    let l = leave_content(Some(content(Membership::Ban, Some("B"))), true).ok().unwrap();
    assert_eq!(l.membership, Membership::Leave);
    assert_eq!(l.displayname.as_deref(), Some("B"));
    assert_eq!(leave_content(None, false).err().unwrap().kind, ErrorKind::BadState);
}

#[test]
fn join_servers_from_invite_state() {
    let s = vec!["a.org".to_string(), "b.org".to_string(), "a.org".to_string()];
    let out = join_via(&s, "room.org");
    assert_eq!(out, vec!["a.org", "b.org", "room.org"]);
    let out = join_via(&s, "b.org");
    assert_eq!(out, vec!["a.org", "b.org"]);
}
