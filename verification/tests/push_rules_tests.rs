use conduwuit_core::error::ErrorKind;
use conduwuit_core::push_rules::{
    delete_pushrule_route, get_pushrule_actions_route, get_pushrule_enabled_route,
    get_pushrule_route, get_pushrules_all_route, set_pushrule_actions_route,
    set_pushrule_enabled_route, set_pushrule_route, RuleKind, Ruleset,
};

fn with_rules(ids: &[&str]) -> Ruleset {
    let mut rs = Ruleset::new();
    for id in ids {
        rs.set(RuleKind::Override, id, vec!["notify".to_string()], vec![], None);
    }
    rs
}

#[test]
fn set_then_get() {
    let mut rs = Ruleset::new();
    rs.set(RuleKind::Content, "word", vec!["notify".to_string()], vec!["c".to_string()], Some("cake"));
    let r = rs.get(RuleKind::Content, "word").unwrap();
    assert_eq!(r.rule_id, "word");
    assert!(r.enabled);
    assert!(!r.default);
    assert_eq!(r.actions, vec!["notify".to_string()]);
    assert!(r.conditions.is_empty());
    assert_eq!(r.pattern.as_deref(), Some("cake"));
    assert!(rs.get(RuleKind::Override, "word").is_none());
}

#[test]
fn conditions_kept_for_override_rules() {
    let mut rs = Ruleset::new();
    rs.set(RuleKind::Override, "o", vec![], vec!["cond".to_string()], Some("ignored"));
    let r = rs.get(RuleKind::Override, "o").unwrap();
    assert_eq!(r.conditions, vec!["cond".to_string()]);
    assert_eq!(r.pattern, None);
}

#[test]
fn setting_again_replaces_and_moves_last() {
    let mut rs = with_rules(&["a", "b", "c"]);
    rs.set(RuleKind::Override, "a", vec!["dont_notify".to_string()], vec![], None);
    let ids: Vec<&str> = rs.override_.iter().map(|r| r.rule_id.as_str()).collect();
    assert_eq!(ids, vec!["c", "b", "a"]);
    assert_eq!(rs.get(RuleKind::Override, "a").unwrap().actions, vec!["dont_notify".to_string()]);
}

#[test]
fn delete_then_get() {
    let mut rs = with_rules(&["a", "b", "c"]);
    rs.delete(RuleKind::Override, "a");
    assert!(rs.get(RuleKind::Override, "a").is_none());
    let ids: Vec<&str> = rs.override_.iter().map(|r| r.rule_id.as_str()).collect();
    assert_eq!(ids, vec!["c", "b"]);
    rs.delete(RuleKind::Override, "zzz");
    assert_eq!(rs.override_.len(), 2);
}

#[test]
fn enable_and_actions() {
    let mut rs = with_rules(&["a"]);
    rs.set_enabled(RuleKind::Override, "a", false);
    assert!(!rs.is_enabled(RuleKind::Override, "a"));
    rs.set_actions(RuleKind::Override, "a", vec!["x".to_string()]);
    assert_eq!(rs.actions(RuleKind::Override, "a").unwrap(), &vec!["x".to_string()]);
    assert!(!rs.is_enabled(RuleKind::Override, "missing"));
    assert!(rs.actions(RuleKind::Underride, "a").is_none());
    rs.set_enabled(RuleKind::Room, "missing", true);
    assert!(rs.room.is_empty());
}

#[test]
fn custom_kinds_hold_nothing() {
    let mut rs = Ruleset::new();
    rs.set(RuleKind::Custom, "x", vec![], vec![], None);
    assert!(rs.get(RuleKind::Custom, "x").is_none());
}

#[test]
fn push_rule_routes() {
    assert_eq!(get_pushrules_all_route(None).err().unwrap().kind, ErrorKind::NotFound);
    let rs = set_pushrule_route("global", Some(Ruleset::new()), RuleKind::Sender, "@a:x", vec![], vec![], None).ok().unwrap();
    assert!(get_pushrule_route(Some(&rs), RuleKind::Sender, "@a:x").is_ok());
    assert_eq!(get_pushrule_route(Some(&rs), RuleKind::Sender, "@b:x").err().unwrap().kind, ErrorKind::NotFound);
    assert_eq!(get_pushrule_route(None, RuleKind::Sender, "@a:x").err().unwrap().kind, ErrorKind::NotFound);
    assert_eq!(
        set_pushrule_route("device", Some(Ruleset::new()), RuleKind::Sender, "x", vec![], vec![], None).err().unwrap().kind,
        ErrorKind::InvalidParam
    );
    assert_eq!(
        set_pushrule_route("global", None, RuleKind::Sender, "x", vec![], vec![], None).err().unwrap().kind,
        ErrorKind::NotFound
    );
    assert_eq!(get_pushrule_enabled_route("global", Some(&rs), RuleKind::Sender, "@a:x").unwrap(), true);
    assert_eq!(get_pushrule_enabled_route("global", Some(&rs), RuleKind::Sender, "nope").unwrap(), false);
    assert_eq!(get_pushrule_enabled_route("x", Some(&rs), RuleKind::Sender, "nope").unwrap_err().kind, ErrorKind::InvalidParam);
    assert!(get_pushrule_actions_route("global", Some(&rs), RuleKind::Sender, "nope").unwrap().is_none());
    let rs = set_pushrule_enabled_route("global", Some(rs), RuleKind::Sender, "@a:x", false).ok().unwrap();
    assert!(!rs.is_enabled(RuleKind::Sender, "@a:x"));
    let rs = set_pushrule_actions_route("global", Some(rs), RuleKind::Sender, "@a:x", vec!["n".to_string()]).ok().unwrap();
    assert_eq!(rs.actions(RuleKind::Sender, "@a:x").unwrap().len(), 1);
    let rs = delete_pushrule_route("global", Some(rs), RuleKind::Sender, "@a:x").ok().unwrap();
    assert!(rs.get(RuleKind::Sender, "@a:x").is_none());
    assert_eq!(delete_pushrule_route("global", None, RuleKind::Sender, "@a:x").err().unwrap().kind, ErrorKind::NotFound);
}
