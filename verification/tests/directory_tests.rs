use conduwuit_core::directory::{
    filter_rooms, get_public_rooms_filtered_helper, is_remote_directory, next_token, prev_token,
    since_offset, sort_rooms, PublicRoomsChunk,
};
use conduwuit_core::error::ErrorKind;

fn room(id: &str, name: Option<&str>, members: u64) -> PublicRoomsChunk {
    PublicRoomsChunk {
        room_id: id.to_string(),
        name: name.map(|s| s.to_string()),
        topic: None,
        canonical_alias: None,
        avatar_url: None,
        num_joined_members: members,
        world_readable: false,
        guest_can_join: false,
    }
}

#[test]
fn since_tokens() {
    assert_eq!(since_offset(None, 10).unwrap(), 0);
    assert_eq!(since_offset(Some("n20"), 10).unwrap(), 20);
    assert_eq!(since_offset(Some("p20"), 10).unwrap(), 10);
    assert_eq!(since_offset(Some("p5"), 10).unwrap(), 0);
    assert_eq!(since_offset(Some("x5"), 10).unwrap_err().kind, ErrorKind::InvalidParam);
    assert_eq!(since_offset(Some("n"), 10).unwrap_err().kind, ErrorKind::InvalidParam);
    assert_eq!(since_offset(Some(""), 10).unwrap_err().kind, ErrorKind::InvalidParam);
}

#[test]
fn tokens_round_trip() {
    assert_eq!(next_token(30), "n30");
    assert_eq!(prev_token(30), "p30");
    assert_eq!(since_offset(Some(&next_token(30)), 10).unwrap(), 30);
    assert_eq!(since_offset(Some(&prev_token(30)), 10).unwrap(), 20);
}

#[test]
fn rooms_filtered_by_term_ignoring_case() {
    let rooms = vec![room("!a", Some("Rust Lovers"), 3), room("!b", Some("Go"), 5), room("!c", None, 1)];
    let out = filter_rooms(rooms.clone(), Some("rust"));
    assert_eq!(out.len(), 1);
    assert_eq!(out[0].room_id, "!a");
    assert_eq!(filter_rooms(rooms, None).len(), 3);
}

#[test]
fn rooms_sorted_by_members_stably() {
    let rooms = vec![room("!a", None, 3), room("!b", None, 5), room("!c", None, 3), room("!d", None, 9)];
    let ids: Vec<String> = sort_rooms(rooms).into_iter().map(|r| r.room_id).collect();
    assert_eq!(ids, vec!["!d", "!b", "!a", "!c"]);
}

#[test]
fn directory_pages() {
    let rooms: Vec<PublicRoomsChunk> = (0..25).map(|i| room(&format!("!r{}", i), None, 100 - i)).collect();
    let p = get_public_rooms_filtered_helper(rooms.clone(), Some(10), None, None).unwrap();
    assert_eq!(p.chunk.len(), 10);
    assert_eq!(p.chunk[0].room_id, "!r0");
    assert_eq!(p.prev_batch, None);
    assert_eq!(p.next_batch.as_deref(), Some("n10"));
    assert_eq!(p.total_room_count_estimate, 25);
    let p = get_public_rooms_filtered_helper(rooms.clone(), Some(10), Some("n20"), None).unwrap();
    assert_eq!(p.chunk.len(), 5);
    assert_eq!(p.prev_batch.as_deref(), Some("p20"));
    assert_eq!(p.next_batch, None);
    let p = get_public_rooms_filtered_helper(rooms.clone(), None, None, None).unwrap();
    assert_eq!(p.chunk.len(), 10);
    assert_eq!(
        get_public_rooms_filtered_helper(rooms, None, Some("bad"), None).unwrap_err().kind,
        ErrorKind::InvalidParam
    );
}

#[test]
fn remote_directories() {
    assert!(is_remote_directory(Some("other.org"), "ours.org"));
    assert!(!is_remote_directory(Some("ours.org"), "ours.org"));
    assert!(!is_remote_directory(None, "ours.org"));
}

#[test]
fn directory_pages_tile_the_rooms() {
    let rooms: Vec<PublicRoomsChunk> = (0..12).map(|i| room(&format!("!r{}", i), None, 5)).collect();
    let first = get_public_rooms_filtered_helper(rooms.clone(), Some(4), None, None).unwrap();
    let second = get_public_rooms_filtered_helper(rooms.clone(), Some(4), first.next_batch.as_deref(), None).unwrap();
    let ids: Vec<String> = first.chunk.iter().chain(second.chunk.iter()).map(|r| r.room_id.clone()).collect();
    let expected: Vec<String> = (0..8).map(|i| format!("!r{}", i)).collect();
    assert_eq!(ids, expected);
    let back = get_public_rooms_filtered_helper(rooms, Some(4), second.prev_batch.as_deref(), None).unwrap();
    assert_eq!(back.chunk[0].room_id, "!r0");
}
