use conduwuit_core::error::ErrorKind;
use conduwuit_core::keys::{
    device_keys, include_user_signing_key, key_query_failures, key_changes_range, sender_signatures,
    signing_keys_auth, split_key_query, SigningKeysAuth,
};

#[test]
fn key_queries_split_by_server() {
    let reqs = vec![
        ("ours.org".to_string(), "@a:ours.org"),
        ("b.org".to_string(), "@x:b.org"),
        ("c.org".to_string(), "@y:c.org"),
        ("b.org".to_string(), "@z:b.org"),
        ("ours.org".to_string(), "@d:ours.org"),
    ];
    let (local, mut remote) = split_key_query(reqs, "ours.org");
    remote.sort();
    assert_eq!(local, vec!["@a:ours.org", "@d:ours.org"]);
    assert_eq!(remote, vec![
        ("b.org".to_string(), vec!["@x:b.org", "@z:b.org"]),
        ("c.org".to_string(), vec!["@y:c.org"]),
    ]);
}

#[test]
fn device_keys_of_a_query() {
    let found = vec![("A".to_string(), Some(1)), ("B".to_string(), None), ("C".to_string(), Some(3))];
    assert_eq!(device_keys(found), vec![("A".to_string(), 1), ("C".to_string(), 3)]);
    assert_eq!(device_keys(vec![("A".to_string(), Some(1)), ("B".to_string(), Some(2))]), vec![("A".to_string(), 1), ("B".to_string(), 2)]);
    assert_eq!(device_keys::<u8>(vec![]), vec![]);
}

#[test]
fn key_query_failures_name_failed_servers() {
    let answers = vec![("a.org".to_string(), true), ("b.org".to_string(), false), ("c.org".to_string(), false)];
    assert_eq!(key_query_failures(&answers), vec!["b.org".to_string(), "c.org".to_string()]);
    assert_eq!(key_query_failures(&vec![]), Vec::<String>::new());
}

#[test]
fn user_signing_key_only_for_self() {
    assert!(include_user_signing_key("@a:x", Some("@a:x")));
    assert!(!include_user_signing_key("@a:x", Some("@b:x")));
    assert!(!include_user_signing_key("@a:x", None));
}

#[test]
fn signing_key_upload_auth() {
    assert_eq!(signing_keys_auth(true, true, false).unwrap(), SigningKeysAuth::Proceed);
    assert_eq!(signing_keys_auth(true, false, true).unwrap(), SigningKeysAuth::Continue);
    assert_eq!(signing_keys_auth(false, false, true).unwrap(), SigningKeysAuth::StartSession);
    assert_eq!(signing_keys_auth(false, false, false).unwrap_err().kind, ErrorKind::NotJson);
}

#[test]
fn uploaded_signatures() {
    let sigs = vec![
        ("@other:x".to_string(), Some(vec![("ed25519:K".to_string(), Some("o".to_string()))])),
        ("@me:x".to_string(), Some(vec![("ed25519:A".to_string(), Some("sigA".to_string()))])),
    ];
    assert_eq!(sender_signatures(Some(sigs.clone()), "@me:x").unwrap(), vec![("ed25519:A".to_string(), "sigA".to_string())]);
    assert_eq!(sender_signatures(None, "@me:x").unwrap_err().kind, ErrorKind::InvalidParam);
    assert_eq!(sender_signatures(Some(sigs), "@nobody:x").unwrap_err().kind, ErrorKind::InvalidParam);
    let bad = vec![("@me:x".to_string(), None)];
    assert_eq!(sender_signatures(Some(bad), "@me:x").unwrap_err().kind, ErrorKind::InvalidParam);
    let bad = vec![("@me:x".to_string(), Some(vec![("k".to_string(), None)]))];
    assert_eq!(sender_signatures(Some(bad), "@me:x").unwrap_err().kind, ErrorKind::InvalidParam);
}

#[test]
fn key_change_ranges() {
    assert_eq!(key_changes_range("1", "9").unwrap(), (1, 9));
    assert_eq!(key_changes_range("a", "9").unwrap_err().kind, ErrorKind::InvalidParam);
    assert_eq!(key_changes_range("1", "b").unwrap_err().kind, ErrorKind::InvalidParam);
}
