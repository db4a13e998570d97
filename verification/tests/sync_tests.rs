use conduwuit_core::federation::Membership;
use conduwuit_core::sync::{
    announce_all_members, changed_after, device_list_left, forget_running_sync, heroes,
    incremental_state, joined_since_last_sync, member_device_change, members_to_announce,
    merge_presence, merge_presence_updates, oldest_first, prev_batch_count,
    send_notification_counts, send_one_time_key_counts, share_encrypted_room, since_count, state_sync, sync_outcome,
    sync_start, timeline_limited, timeline_window, DeviceListChange, HeroCandidate,
    PresenceContent, PresenceState, StateSync, SyncStart,
};

fn presence(p: PresenceState, status: Option<&str>, ago: Option<u64>) -> PresenceContent {
    PresenceContent {
        presence: p,
        status_msg: status.map(|s| s.to_string()),
        last_active_ago: ago,
        displayname: None,
        avatar_url: None,
        currently_active: None,
    }
}

#[test]
fn since_token_is_read_as_a_count() {
    assert_eq!(since_count(None), 0);
    assert_eq!(since_count(Some("15")), 15);
    assert_eq!(since_count(Some("s72594_4483_1934")), 0);
}

#[test]
fn next_batch_token_round_trips_as_since() {
    let next_batch = 987654321u64;
    assert_eq!(since_count(Some(&next_batch.to_string())), next_batch);
}

#[test]
fn timeline_takes_the_ten_newest_after_since() {
    let counts: Vec<u64> = (1..=15).rev().collect();
    let w = timeline_window(&counts, 2);
    assert_eq!(w.take, 10);
    assert!(w.limited);
    assert_eq!(prev_batch_count(&counts, &w), Some(6));
}

#[test]
fn timeline_stops_at_since() {
    let counts = vec![9u64, 8, 7, 3, 2];
    let w = timeline_window(&counts, 7);
    assert_eq!(w.take, 2);
    assert!(!w.limited);
    assert!(timeline_limited(&w, true));
    assert!(!timeline_limited(&w, false));
}

#[test]
fn timeline_of_exactly_ten_is_not_limited() {
    let counts: Vec<u64> = (1..=10).rev().collect();
    let w = timeline_window(&counts, 0);
    assert_eq!(w.take, 10);
    assert!(!w.limited);
}

#[test]
fn empty_timeline_has_no_prev_batch() {
    let counts: Vec<u64> = vec![];
    let w = timeline_window(&counts, 0);
    assert_eq!(w.take, 0);
    assert_eq!(prev_batch_count(&counts, &w), None);
}

#[test]
fn oldest_first_reverses_the_newest() {
    let v = vec!["e5", "e4", "e3", "e2"];
    assert_eq!(oldest_first(v, 3), vec!["e3", "e4", "e5"]);
}

#[test]
fn notification_counts_rule() {
    assert!(send_notification_counts(1, 0, 5));
    assert!(send_notification_counts(0, 6, 5));
    assert!(!send_notification_counts(0, 5, 5));
}

#[test]
fn state_sync_kinds() {
    assert_eq!(state_sync(None, 4, true), StateSync::Initial);
    assert_eq!(state_sync(Some(3), 4, false), StateSync::Unchanged);
    assert_eq!(state_sync(Some(4), 4, true), StateSync::Unchanged);
    assert_eq!(state_sync(Some(3), 4, true), StateSync::Incremental);
}

#[test]
fn joined_since_last_sync_unless_joined_then() {
    assert!(joined_since_last_sync(None));
    assert!(joined_since_last_sync(Some(Membership::Invite)));
    assert!(!joined_since_last_sync(Some(Membership::Join)));
}

#[test]
fn incremental_state_is_the_difference_without_timeline() {
    let current: Vec<String> = ["$a", "$b", "$c", "$d"].iter().map(|s| s.to_string()).collect();
    let since: Vec<String> = ["$a"].iter().map(|s| s.to_string()).collect();
    let timeline: Vec<String> = ["$c"].iter().map(|s| s.to_string()).collect();
    assert_eq!(incremental_state(&current, &since, &timeline, false), vec!["$b", "$d"]);
    assert_eq!(incremental_state(&current, &since, &timeline, true), current);
}

#[test]
fn heroes_are_distinct_members_other_than_the_sender() {
    let c = |u: Option<&str>, m: Membership, still: bool| HeroCandidate {
        user: u.map(|s| s.to_string()),
        membership: m,
        still_member: still,
    };
    let candidates = vec![
        c(Some("@me:x"), Membership::Join, true),
        c(Some("@a:x"), Membership::Join, true),
        c(Some("@b:x"), Membership::Leave, true),
        c(Some("@c:x"), Membership::Invite, false),
        c(None, Membership::Join, true),
        c(Some("@a:x"), Membership::Invite, true),
        c(Some("@d:x"), Membership::Invite, true),
    ];
    assert_eq!(heroes(2, 1, &candidates, "@me:x"), vec!["@a:x", "@d:x"]);
    assert!(heroes(5, 1, &candidates, "@me:x").is_empty());
}

#[test]
fn member_device_changes() {
    assert_eq!(member_device_change(None, Membership::Join, false), DeviceListChange::Changed);
    assert_eq!(member_device_change(Some(Membership::Leave), Membership::Join, true), DeviceListChange::Unchanged);
    assert_eq!(member_device_change(Some(Membership::Join), Membership::Leave, false), DeviceListChange::Left);
    assert_eq!(member_device_change(Some(Membership::Invite), Membership::Join, false), DeviceListChange::Unchanged);
    assert!(announce_all_members(true, true, true));
    assert!(announce_all_members(false, true, false));
    assert!(!announce_all_members(true, false, false));
}

#[test]
fn members_to_announce_skips_sender_and_shared() {
    let m = vec![
        ("@me:x".to_string(), false),
        ("@a:x".to_string(), true),
        ("@b:x".to_string(), false),
    ];
    assert_eq!(members_to_announce(&m, "@me:x"), vec!["@b:x"]);
    assert!(device_list_left(&vec![false, false]));
    assert!(!device_list_left(&vec![false, true]));
}

#[test]
fn counts_and_changes_after_since() {
    assert!(send_one_time_key_counts(0, 0));
    assert!(send_one_time_key_counts(5, 4));
    assert!(!send_one_time_key_counts(4, 4));
    assert!(changed_after(Some(5), 4));
    assert!(!changed_after(Some(4), 4));
    assert!(!changed_after(None, 0));
}

#[test]
fn presence_merge_keeps_earlier_fields() {
    let old = presence(PresenceState::Online, Some("busy"), Some(10));
    let new = presence(PresenceState::Unavailable, None, Some(3));
    let m = merge_presence(old, new);
    assert_eq!(m.presence, PresenceState::Unavailable);
    assert_eq!(m.status_msg.as_deref(), Some("busy"));
    assert_eq!(m.last_active_ago, Some(3));
}

#[test]
fn presence_updates_merge_per_user() {
    let updates = vec![
        ("@a:x".to_string(), presence(PresenceState::Online, Some("hi"), None)),
        ("@b:x".to_string(), presence(PresenceState::Offline, None, None)),
        ("@a:x".to_string(), presence(PresenceState::Unavailable, None, Some(7))),
    ];
    let out = merge_presence_updates(updates);
    assert_eq!(out.len(), 2);
    let a = out.iter().find(|(u, _)| u == "@a:x").unwrap();
    assert_eq!(a.1.presence, PresenceState::Unavailable);
    assert_eq!(a.1.status_msg.as_deref(), Some("hi"));
    assert_eq!(a.1.last_active_ago, Some(7));
    let b = out.iter().find(|(u, _)| u == "@b:x").unwrap();
    assert_eq!(b.1.presence, PresenceState::Offline);
}

#[test]
fn empty_sync_waits_at_most_thirty_seconds() {
    let o = sync_outcome(false, true, Some(90_000), 5, 5);
    assert_eq!(o.wait_ms, Some(30_000));
    assert!(!o.cacheable);
    let o = sync_outcome(false, true, Some(30_500), 5, 5);
    assert_eq!(o.wait_ms, Some(30_500));
    let o = sync_outcome(false, true, None, 5, 5);
    assert_eq!(o.wait_ms, Some(0));
}

#[test]
fn sync_is_cached_only_when_it_made_progress() {
    let o = sync_outcome(true, true, Some(1000), 5, 5);
    assert_eq!(o.wait_ms, None);
    assert!(!o.cacheable);
    let o = sync_outcome(false, false, None, 5, 9);
    assert!(o.cacheable);
}

#[test]
fn running_sync_is_reused_for_same_since() {
    assert_eq!(sync_start(None, Some("1")), SyncStart::Spawn);
    assert_eq!(sync_start(Some(Some("1")), Some("1")), SyncStart::Reuse);
    assert_eq!(sync_start(Some(Some("1")), Some("2")), SyncStart::Spawn);
    assert_eq!(sync_start(Some(None), None), SyncStart::Reuse);
    assert!(forget_running_sync(true, false, Some(Some("1")), Some("1")));
    assert!(!forget_running_sync(true, true, Some(Some("1")), Some("1")));
    assert!(!forget_running_sync(true, false, Some(Some("2")), Some("1")));
    assert!(!forget_running_sync(false, false, Some(Some("1")), Some("1")));
}

#[test]
fn shared_encrypted_rooms() {
    let shared = vec![("!this".to_string(), true), ("!other".to_string(), false)];
    assert!(!share_encrypted_room(&shared, "!this"));
    let shared = vec![("!this".to_string(), true), ("!other".to_string(), true)];
    assert!(share_encrypted_room(&shared, "!this"));
}

#[test]
fn unlimited_timeline_holds_every_new_event() {
    let counts = vec![20u64, 18, 17, 4, 3];
    let w = timeline_window(&counts, 10);
    assert!(!w.limited);
    assert_eq!(w.take, 3);
    assert!(counts[w.take..].iter().all(|c| *c <= 10));
}
