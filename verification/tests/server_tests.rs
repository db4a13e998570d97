use conduwuit_core::cli::{parse, version};
use conduwuit_core::error::ErrorKind;
use conduwuit_core::missing_events::{FetchResult, MissingEventsAction, MissingEventsWalk};
use conduwuit_core::mods::{available, close, open, restart_thresh, run, stale, stale_count};
use conduwuit_core::profile::{
    is_remote_user, local_profile_exists, member_updates, profile_presence, MemberContent,
    ProfileChange,
};
use conduwuit_core::federation::Membership;
use conduwuit_core::sync::PresenceState;

fn args(v: &[&str]) -> Vec<String> {
    v.iter().map(|s| s.to_string()).collect()
}

#[test]
fn command_line() {
    assert_eq!(parse(args(&["conduwuit", "-c", "conf.toml"]), "1.0").unwrap().config.as_deref(), Some("conf.toml"));
    assert_eq!(parse(args(&["conduwuit", "--config", "x"]), "1.0").unwrap().config.as_deref(), Some("x"));
    assert_eq!(parse(args(&["conduwuit"]), "1.0").unwrap().config, None);
    let e = parse(args(&["conduwuit", "--bogus"]), "1.0").unwrap_err();
    assert!(!e.display);
    let e = parse(args(&["conduwuit", "--version"]), "1.0").unwrap_err();
    assert!(e.display);
    assert!(e.message.contains("1.0"));
}

#[test]
fn version_strings() {
    assert_eq!(version("0.4.0", None), "0.4.0");
    assert_eq!(version("0.4.0", Some("abc")), "0.4.0 (abc)");
}

#[test]
fn module_reload_policy() {
    assert_eq!(available(), 5);
    assert_eq!(restart_thresh(), 1);
    assert_eq!(stale(&vec![false, false, true, true]), 2);
    assert_eq!(stale(&vec![false, false]), 2);
    assert_eq!(stale_count(Some(3)), 2);
    assert_eq!(stale_count(None), 0);
    assert_eq!(open(3), vec!["conduit_admin", "conduit_router"]);
    assert!(open(5).is_empty());
    assert_eq!(close(&vec![false, true, true], false), 1);
    assert_eq!(close(&vec![false, true, false], false), 3);
    assert_eq!(close(&vec![false, false], true), 0);
    let r = run(true, 1);
    assert!(r.stops && r.starts && r.reloads);
    let r = run(true, 2);
    assert!(!r.stops && !r.starts);
    let r = run(false, 5);
    assert!(r.stops && !r.starts);
}

#[test]
fn missing_events_walk() {
    let mut w: MissingEventsWalk<u32> =
        MissingEventsWalk::start("!r".to_string(), vec!["$c".to_string()], vec!["$a".to_string()], 10);
    assert_eq!(w.next_action(), MissingEventsAction::Fetch("$c".to_string()));
    w.on_fetched(FetchResult::Found { room_id: Some("!r".to_string()), prev_events: Some(vec!["$b".to_string()]), pdu: 3 }).unwrap();
    assert_eq!(w.next_action(), MissingEventsAction::CheckVisible("$c".to_string()));
    w.on_visibility(true).unwrap();
    assert_eq!(w.next_action(), MissingEventsAction::Fetch("$b".to_string()));
    w.on_fetched(FetchResult::Found { room_id: Some("!r".to_string()), prev_events: Some(vec!["$a".to_string(), "$x".to_string()]), pdu: 2 }).unwrap();
    w.on_visibility(true).unwrap();
    assert_eq!(w.next_action(), MissingEventsAction::Fetch("$a".to_string()));
    w.on_fetched(FetchResult::Found { room_id: Some("!r".to_string()), prev_events: None, pdu: 1 }).unwrap();
    assert_eq!(w.next_action(), MissingEventsAction::Fetch("$x".to_string()));
    w.on_fetched(FetchResult::Missing).unwrap();
    assert_eq!(w.next_action(), MissingEventsAction::Done);
    assert_eq!(w.finish(), vec![3, 2]);
}

#[test]
fn invisible_events_are_not_followed() {
    let mut w: MissingEventsWalk<u32> =
        MissingEventsWalk::start("!r".to_string(), vec!["$c".to_string()], vec![], 10);
    w.on_fetched(FetchResult::Found { room_id: Some("!r".to_string()), prev_events: Some(vec!["$b".to_string()]), pdu: 3 }).unwrap();
    w.on_visibility(false).unwrap();
    assert_eq!(w.next_action(), MissingEventsAction::Done);
    assert!(w.finish().is_empty());
}

#[test]
fn hidden_events_without_prev_events_are_passed_over() {
    let mut w: MissingEventsWalk<u32> =
        MissingEventsWalk::start("!r".to_string(), vec!["$c".to_string()], vec![], 10);
    w.on_fetched(FetchResult::Found { room_id: Some("!r".to_string()), prev_events: None, pdu: 3 }).unwrap();
    w.on_visibility(false).unwrap();
    assert_eq!(w.next_action(), MissingEventsAction::Done);
    let mut w: MissingEventsWalk<u32> =
        MissingEventsWalk::start("!r".to_string(), vec!["$c".to_string()], vec![], 10);
    w.on_fetched(FetchResult::Found { room_id: Some("!r".to_string()), prev_events: None, pdu: 3 }).unwrap();
    let e = w.on_visibility(true).unwrap_err();
    assert_eq!(e.kind, ErrorKind::BadDatabase);
}

#[test]
fn missing_events_from_another_room_are_refused() {
    let mut w: MissingEventsWalk<u32> =
        MissingEventsWalk::start("!r".to_string(), vec!["$c".to_string()], vec![], 10);
    let e = w.on_fetched(FetchResult::Found { room_id: Some("!evil".to_string()), prev_events: None, pdu: 3 }).unwrap_err();
    assert_eq!(e.kind, ErrorKind::InvalidParam);
    let mut w: MissingEventsWalk<u32> =
        MissingEventsWalk::start("!r".to_string(), vec!["$c".to_string()], vec![], 10);
    let e = w.on_fetched(FetchResult::Found { room_id: None, prev_events: None, pdu: 3 }).unwrap_err();
    assert_eq!(e.kind, ErrorKind::BadDatabase);
}

#[test]
fn missing_events_stop_at_the_limit() {
    let mut w: MissingEventsWalk<u32> =
        MissingEventsWalk::start("!r".to_string(), vec!["$c".to_string(), "$d".to_string()], vec![], 1);
    w.on_fetched(FetchResult::Found { room_id: Some("!r".to_string()), prev_events: Some(vec![]), pdu: 1 }).unwrap();
    w.on_visibility(true).unwrap();
    assert_eq!(w.next_action(), MissingEventsAction::Done);
}

#[test]
fn profile_changes() {
    assert!(is_remote_user("y.org", "x.org"));
    assert!(!is_remote_user("x.org", "x.org"));
    assert_eq!(local_profile_exists(false).unwrap_err().kind, ErrorKind::NotFound);
    let c = |n: &str| MemberContent {
        membership: Membership::Join,
        displayname: Some(n.to_string()),
        avatar_url: Some("mxc://x/old".to_string()),
        blurhash: None,
        is_direct: None,
        reason: None,
    };
    let rooms = vec![("!a".to_string(), Some(c("old"))), ("!b".to_string(), None), ("!c".to_string(), Some(c("old2")))];
    let out = member_updates(rooms, &ProfileChange::DisplayName(Some("new".to_string())));
    assert_eq!(out.len(), 2);
    assert_eq!(out[0].0, "!a");
    assert_eq!(out[0].1.displayname.as_deref(), Some("new"));
    assert_eq!(out[0].1.avatar_url.as_deref(), Some("mxc://x/old"));
    assert_eq!(out[1].0, "!c");
    let out = member_updates(vec![("!a".to_string(), Some(c("n")))], &ProfileChange::AvatarUrl(None));
    assert_eq!(out[0].1.avatar_url, None);
    assert_eq!(out[0].1.displayname.as_deref(), Some("n"));
    let p = profile_presence(Some("N".to_string()), None, 77);
    assert_eq!(p.presence, PresenceState::Online);
    assert_eq!(p.last_active_ago, Some(77));
    assert_eq!(p.displayname.as_deref(), Some("N"));
    assert_eq!(p.currently_active, None);
}
