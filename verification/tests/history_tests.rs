use conduwuit_core::error::ErrorKind;
use conduwuit_core::history::{
    check_joined, context_side_limit, end_token, lazy_loaded, messages_from, messages_limit,
    messages_to, messages_window, state_event_found, state_read_access,
};

#[test]
fn message_tokens() {
    assert_eq!(messages_from("12").unwrap(), 12);
    assert_eq!(messages_from("t12").unwrap_err().kind, ErrorKind::InvalidParam);
    assert_eq!(messages_to(Some("5")), Some(5));
    assert_eq!(messages_to(Some("x")), None);
    assert_eq!(messages_to(None), None);
    assert_eq!(end_token(Some(44)).as_deref(), Some("44"));
    assert_eq!(end_token(None), None);
    assert_eq!(messages_from(&end_token(Some(44)).unwrap()).unwrap(), 44);
}

#[test]
fn message_limits() {
    assert_eq!(messages_limit(30), 30);
    assert_eq!(messages_limit(u64::MAX), 10);
}

#[test]
fn message_window_skips_unreadable_and_stops_at_to() {
    let counts = vec![Some(9), None, Some(7), Some(6), Some(5)];
    assert_eq!(messages_window(&counts, 10, Some(6)), vec![0, 2]);
    assert_eq!(messages_window(&counts, 2, None), vec![0]);
    assert_eq!(messages_window(&counts, 10, None), vec![0, 2, 3, 4]);
    assert_eq!(messages_window(&counts, 10, Some(9)), Vec::<usize>::new());
}

#[test]
fn joined_required() {
    assert!(check_joined(true).is_ok());
    assert_eq!(check_joined(false).unwrap_err().kind, ErrorKind::Forbidden);
}

#[test]
fn context_limits() {
    assert_eq!(context_side_limit(10).unwrap(), 5);
    assert_eq!(context_side_limit(11).unwrap(), 5);
    assert_eq!(context_side_limit(u64::from(u32::MAX) + 1).unwrap_err().kind, ErrorKind::InvalidParam);
}

#[test]
fn lazy_loaded_members() {
    let s = vec![
        ("@a:x".to_string(), false),
        ("@b:x".to_string(), true),
        ("@a:x".to_string(), false),
        ("@c:x".to_string(), false),
    ];
    assert_eq!(lazy_loaded(&s), vec!["@a:x", "@c:x"]);
}

#[test]
fn state_access() {
    assert!(state_read_access(false, true).is_ok());
    assert!(state_read_access(true, false).is_ok());
    assert_eq!(state_read_access(false, false).unwrap_err().kind, ErrorKind::Forbidden);
    assert_eq!(state_event_found(Some(3)).unwrap(), 3);
    assert_eq!(state_event_found::<u8>(None).unwrap_err().kind, ErrorKind::NotFound);
}
