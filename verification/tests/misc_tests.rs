use conduwuit_core::account_data::{delete_tag, shown_presence, update_tag};
use conduwuit_core::alias::{
    alias_after_appservice, alias_in_namespace, check_local_alias, create_alias_check,
    resolved_alias,
};
use conduwuit_core::appservice::with_access_token;
use conduwuit_core::directory::{set_room_visibility, DirectoryVisibility};
use conduwuit_core::error::ErrorKind;
use conduwuit_core::room::room_version_capabilities;
use conduwuit_core::room_version::RoomVersion;
use conduwuit_core::events::{
    canonical_alias_check, client_typing, message_txn, to_device_target, NamedAlias, ToDeviceTarget, TxnOutcome,
};
use conduwuit_core::media::{
    media_source, mxc_uri, named_disposition, new_upload_uri, thumbnail_size, upload_disposition,
    MediaSource,
};
use conduwuit_core::query::{join_servers, local_alias_room, profile_query, ProfileField};
use conduwuit_core::report::report_check;
use conduwuit_core::transaction::group_by_room;
use conduwuit_core::turn::turn_server_route;

#[test]
fn tags_update_and_delete() {
    let mut tags: Vec<(String, u32)> = vec![("m.favourite".to_string(), 1)];
    update_tag(&mut tags, "u.work".to_string(), 2);
    update_tag(&mut tags, "m.favourite".to_string(), 3);
    assert_eq!(tags, vec![("u.work".to_string(), 2), ("m.favourite".to_string(), 3)]);
    delete_tag(&mut tags, "u.work");
    assert_eq!(tags, vec![("m.favourite".to_string(), 3)]);
}

#[test]
fn presence_of_the_last_shared_room() {
    assert_eq!(shown_presence(vec![Some(1), None, Some(3), None]), Some(3));
    assert_eq!(shown_presence::<u8>(vec![None, None]), None);
}

#[test]
fn alias_rules() {
    assert!(check_local_alias("x.org", "x.org").is_ok());
    assert_eq!(check_local_alias("y.org", "x.org").unwrap_err().kind, ErrorKind::InvalidParam);
    assert_eq!(create_alias_check("x.org", "x.org", true).unwrap_err().kind, ErrorKind::Conflict);
    assert_eq!(create_alias_check("y.org", "x.org", true).unwrap_err().kind, ErrorKind::InvalidParam);
    assert!(create_alias_check("x.org", "x.org", false).is_ok());
    assert_eq!(alias_after_appservice(None).unwrap_err().kind, ErrorKind::BadConfig);
    let (room, servers) = resolved_alias(Some("!r:x.org".to_string()), "x.org").unwrap();
    assert_eq!(room, "!r:x.org");
    assert_eq!(servers, vec!["x.org"]);
    assert_eq!(resolved_alias(None, "x.org").unwrap_err().kind, ErrorKind::NotFound);
}

#[test]
fn appservice_alias_namespaces() {
    let patterns = vec!["(".to_string(), "#irc_.*".to_string()];
    assert!(alias_in_namespace(&patterns, "#irc_foo:x.org"));
    assert!(!alias_in_namespace(&patterns, "#matrix:x.org"));
    assert!(!alias_in_namespace(&vec!["(".to_string()], "("));
}

#[test]
fn appservice_tokens() {
    assert_eq!(with_access_token("/path", "tok"), "/path?access_token=tok");
    assert_eq!(with_access_token("/path?a=b", "tok"), "/path?a=b&access_token=tok");
}

#[test]
fn transaction_ids() {
    assert_eq!(message_txn(None).unwrap(), TxnOutcome::Send);
    assert_eq!(message_txn(Some(Some("$e".to_string()))).unwrap(), TxnOutcome::Repeat("$e".to_string()));
    assert_eq!(message_txn(Some(None)).unwrap_err().kind, ErrorKind::InvalidParam);
}

#[test]
fn canonical_aliases() {
    let a = |s: &str, r: Option<&str>| NamedAlias { server: s.to_string(), room: r.map(|x| x.to_string()) };
    assert!(canonical_alias_check(&vec![a("x.org", Some("!r"))], "x.org", "!r").is_ok());
    assert!(canonical_alias_check(&vec![], "x.org", "!r").is_ok());
    assert_eq!(canonical_alias_check(&vec![a("x.org", Some("!q"))], "x.org", "!r").unwrap_err().kind, ErrorKind::Forbidden);
    assert_eq!(canonical_alias_check(&vec![a("y.org", Some("!r"))], "x.org", "!r").unwrap_err().kind, ErrorKind::Forbidden);
    assert_eq!(canonical_alias_check(&vec![a("x.org", None)], "x.org", "!r").unwrap_err().kind, ErrorKind::Forbidden);
}

#[test]
fn to_device_targets() {
    assert_eq!(to_device_target("y.org", "x.org", true), ToDeviceTarget::Remote);
    assert_eq!(to_device_target("x.org", "x.org", true), ToDeviceTarget::AllDevices);
    assert_eq!(to_device_target("x.org", "x.org", false), ToDeviceTarget::Device);
}

#[test]
fn media_uris_and_sources() {
    assert_eq!(mxc_uri("x.org", "abc"), "mxc://x.org/abc");
    let u = new_upload_uri("x.org");
    let id = u.strip_prefix("mxc://x.org/").unwrap();
    assert_eq!(id.len(), 32);
    assert!(id.chars().all(|c| c.is_ascii_alphanumeric()));
    assert_eq!(upload_disposition(Some("a.png")).as_deref(), Some("inline; filename=a.png"));
    assert_eq!(upload_disposition(None), None);
    assert_eq!(named_disposition("a.png", false), "inline; filename=a.png");
    assert_eq!(named_disposition("a.png", true), "inline: filename=a.png");
    assert_eq!(media_source(true, "y.org", "x.org", false).unwrap(), MediaSource::Local);
    assert_eq!(media_source(false, "y.org", "x.org", true).unwrap(), MediaSource::Remote);
    assert_eq!(media_source(false, "x.org", "x.org", true).unwrap_err().kind, ErrorKind::NotFound);
    assert_eq!(media_source(false, "y.org", "x.org", false).unwrap_err().kind, ErrorKind::NotFound);
    assert_eq!(thumbnail_size(64, 32).unwrap(), (64, 32));
    assert_eq!(thumbnail_size(u64::from(u32::MAX) + 1, 1).unwrap_err().kind, ErrorKind::InvalidParam);
}

#[test]
fn turn_credentials_with_secret() {
    let (user, pass) = turn_server_route("secret", "@alice:example.com", 1000, 0, String::new(), String::new());
    assert_eq!(user, "1000:@alice:example.com");
    assert_eq!(pass, "B6aMG3rY+WgFk/neRXfT76RMmbU=");
    let (user, _) = turn_server_route("secret", "@alice:example.com", 1000, 86400, String::new(), String::new());
    assert_eq!(user, "87400:@alice:example.com");
}

#[test]
fn turn_credentials_without_secret() {
    let (user, pass) = turn_server_route("", "@a:x", 0, 0, "u".to_string(), "p".to_string());
    assert_eq!(user, "u");
    assert_eq!(pass, "p");
}

#[test]
fn reports() {
    assert!(report_check(true, Some(-50), Some("spam")).is_ok());
    assert!(report_check(true, None, None).is_ok());
    assert_eq!(report_check(false, None, None).unwrap_err().kind, ErrorKind::InvalidParam);
    assert_eq!(report_check(true, Some(1), None).unwrap_err().kind, ErrorKind::InvalidParam);
    assert_eq!(report_check(true, Some(-101), None).unwrap_err().kind, ErrorKind::InvalidParam);
    let long: String = "é".repeat(251);
    assert_eq!(report_check(true, None, Some(&long)).unwrap_err().kind, ErrorKind::InvalidParam);
    let ok: String = "é".repeat(250);
    assert!(report_check(true, None, Some(&ok)).is_ok());
}

#[test]
fn join_servers_put_ours_first() {
    let servers = vec!["b.org".to_string(), "ours.org".to_string(), "a.org".to_string(), "b.org".to_string()];
    for _ in 0..20 {
        let out = join_servers(&servers, "ours.org");
        assert_eq!(out.len(), 3);
        assert_eq!(out[0], "ours.org");
        assert!(out.contains(&"a.org".to_string()));
        assert!(out.contains(&"b.org".to_string()));
    }
    let out = join_servers(&vec!["a.org".to_string(), "a.org".to_string()], "ours.org");
    assert_eq!(out, vec!["a.org"]);
    assert_eq!(local_alias_room(None).unwrap_err().kind, ErrorKind::NotFound);
}

#[test]
fn federated_profile_fields() {
    let p = profile_query(true, "x.org", "x.org", Some(ProfileField::AvatarUrl)).unwrap();
    assert!(!p.displayname && p.avatar);
    let p = profile_query(true, "x.org", "x.org", None).unwrap();
    assert!(p.displayname && p.avatar);
    let p = profile_query(true, "x.org", "x.org", Some(ProfileField::Custom)).unwrap();
    assert!(!p.displayname && !p.avatar);
    assert_eq!(profile_query(false, "x.org", "x.org", None).unwrap_err().kind, ErrorKind::Forbidden);
    assert_eq!(profile_query(true, "y.org", "x.org", None).unwrap_err().kind, ErrorKind::InvalidParam);
}

#[test]
fn pdus_grouped_by_room_in_order() {
    let pdus = vec![
        ("!b".to_string(), 1),
        ("!a".to_string(), 2),
        ("!b".to_string(), 3),
        ("!a".to_string(), 4),
        ("!c".to_string(), 5),
    ];
    let mut g = group_by_room(pdus);
    g.sort();
    assert_eq!(g, vec![
        ("!a".to_string(), vec![2, 4]),
        ("!b".to_string(), vec![1, 3]),
        ("!c".to_string(), vec![5]),
    ]);
}

#[test]
fn client_typing_notices() {
    assert_eq!(client_typing(true, Some(3_000), 10_000).unwrap(), Some(13_000));
    assert_eq!(client_typing(true, None, 10_000).unwrap(), None);
    assert_eq!(client_typing(false, None, 10_000).unwrap_err().kind, ErrorKind::Forbidden);
}

#[test]
fn room_visibility_and_capabilities() {
    assert_eq!(set_room_visibility(DirectoryVisibility::Public).unwrap(), true);
    assert_eq!(set_room_visibility(DirectoryVisibility::Private).unwrap(), false);
    assert_eq!(set_room_visibility(DirectoryVisibility::Custom).unwrap_err().kind, ErrorKind::InvalidParam);
    let (default, available) = room_version_capabilities();
    assert_eq!(default, RoomVersion::V6);
    assert_eq!(available, vec![RoomVersion::V5, RoomVersion::V6]);
}
