use conduwuit_core::error::ErrorKind;
use conduwuit_core::search::{
    highlights, merge_hits, page, search_limit, search_skip, search_users, DirectoryUser,
};

#[test]
fn hits_merge_greatest_first() {
    let streams = vec![vec![(1u64, 9u64), (1, 3)], vec![(2, 1)], vec![(1, 5), (1, 4)]];
    assert_eq!(merge_hits(&streams, 10), vec![(2, 1), (1, 9), (1, 5), (1, 4), (1, 3)]);
    assert_eq!(merge_hits(&streams, 2), vec![(2, 1), (1, 9)]);
    assert_eq!(merge_hits(&vec![], 3), vec![]);
}

#[test]
fn equal_hits_taken_from_the_last_room_first() {
    let streams = vec![vec![(1u64, 1u64)], vec![(1, 1), (0, 0)]];
    assert_eq!(merge_hits(&streams, 3), vec![(1, 1), (1, 1), (0, 0)]);
}

#[test]
fn search_pages() {
    let items: Vec<u32> = (0..7).collect();
    assert_eq!(page(items.clone(), 0, 3), (vec![0, 1, 2], Some(3)));
    assert_eq!(page(items.clone(), 6, 3), (vec![6], None));
    assert_eq!(page(items.clone(), 9, 3), (vec![], None));
    assert_eq!(page(items, 4, 3), (vec![4, 5, 6], Some(7)));
}

#[test]
fn search_tokens() {
    assert_eq!(search_limit(None), 10);
    assert_eq!(search_limit(Some(4)), 4);
    assert_eq!(search_skip(None).unwrap(), 0);
    assert_eq!(search_skip(Some("20")).unwrap(), 20);
    assert_eq!(search_skip(Some("x")).unwrap_err().kind, ErrorKind::InvalidParam);
}

#[test]
fn highlight_words() {
    assert_eq!(highlights("Hello, World"), vec!["hello", "", "world"]);
    assert_eq!(highlights("cake!"), vec!["cake"]);
    assert_eq!(highlights(""), Vec::<String>::new());
    assert_eq!(highlights("!a"), vec!["", "a"]);
    let expected: Vec<String> = "Ärger über x".split_terminator(|c: char| !c.is_alphanumeric()).map(str::to_lowercase).collect();
    assert_eq!(highlights("Ärger über x"), expected);
}

#[test]
fn highlights_use_unicode_lower_case() {
    assert_eq!(highlights("HeLLo ÄÖ"), vec!["hello", "äö"]);
}

#[test]
fn user_directory_search() {
    let u = |id: &str, name: Option<&str>| DirectoryUser { user_id: id.to_string(), display_name: name.map(|s| s.to_string()) };
    let users = vec![u("@alice:x", None), u("@bob:x", Some("Alice B")), u("@carol:x", Some("C")), u("@ALICIA:x", None)];
    let (found, limited) = search_users(users, "ali", 2);
    assert_eq!(found.len(), 2);
    assert_eq!(found[0].user_id, "@alice:x");
    assert_eq!(found[1].user_id, "@bob:x");
    assert!(limited);
}

#[test]
fn consecutive_pages_tile_the_results() {
    let items: Vec<u32> = (0..9).collect();
    let (first, next) = page(items.clone(), 2, 3);
    let (second, _) = page(items.clone(), next.unwrap(), 3);
    let (both, _) = page(items, 2, 6);
    let mut joined = first;
    joined.extend(second);
    assert_eq!(joined, both);
}
