use discord_search_bot::database::{
    add_sync_range, delete_channel_messages, delete_message, delete_messages,
    get_earliest_message_id, get_sync_range, insert_message, insert_messages,
    is_channel_caching_enabled, search_messages_like, search_messages_range, set_channel_caching,
    update_message, Archive, SearchResult,
};
use discord_search_bot::range::Range;

fn msg(id: i64, channel: i64, content: &str) -> SearchResult {
    SearchResult {
        message_id: id,
        channel_id: channel,
        guild_id: 1,
        _author_id: 9,
        author_name: "bob".to_string(),
        content: content.to_string(),
        created_at: id,
    }
}

fn ids(rows: &[SearchResult]) -> Vec<i64> {
    rows.iter().map(|r| r.message_id).collect()
}

#[test]
fn upsert_twice_keeps_one_row_with_second_content() {
    let mut a = Archive::new();
    insert_message(&mut a, msg(5, 2, "first"));
    insert_message(&mut a, msg(5, 2, "second"));
    let all = search_messages_range(&a, 1, 2, "", i64::MIN, i64::MAX);
    assert_eq!(ids(&all), vec![5]);
    assert_eq!(all[0].content, "second");
    insert_message(&mut a, msg(5, 2, "second"));
    assert_eq!(search_messages_range(&a, 1, 2, "", i64::MIN, i64::MAX).len(), 1);
}

#[test]
fn range_search_is_newest_first_and_case_sensitive() {
    let mut a = Archive::new();
    for (id, c) in [(3, "a foo"), (1, "foo"), (7, "FOO"), (5, "xfoox"), (9, "bar")] {
        insert_message(&mut a, msg(id, 2, c));
    }
    insert_message(&mut a, msg(4, 3, "foo"));
    assert_eq!(ids(&search_messages_range(&a, 1, 2, "foo", 0, 100)), vec![5, 3, 1]);
    assert_eq!(ids(&search_messages_range(&a, 1, 2, "foo", 2, 5)), vec![5, 3]);
    assert_eq!(ids(&search_messages_range(&a, 1, 2, "FOO", 0, 100)), vec![7]);
    assert_eq!(ids(&search_messages_range(&a, 1, 2, "", 0, 100)), vec![9, 7, 5, 3, 1]);
    assert_eq!(ids(&search_messages_range(&a, 2, 2, "foo", 0, 100)), Vec::<i64>::new());
}

#[test]
fn paged_search() {
    let mut a = Archive::new();
    for id in 1..=25 {
        insert_message(&mut a, msg(id, 2, "hit"));
    }
    assert_eq!(ids(&search_messages_like(&a, 1, 2, "hit", 10, 0)), (16..=25).rev().collect::<Vec<_>>());
    assert_eq!(ids(&search_messages_like(&a, 1, 2, "hit", 10, 20)), (1..=5).rev().collect::<Vec<_>>());
    assert!(search_messages_like(&a, 1, 2, "hit", 10, 30).is_empty());
    assert!(search_messages_like(&a, 1, 2, "hit", 0, 0).is_empty());
}

#[test]
fn bulk_insert_sets_guild() {
    let mut a = Archive::new();
    let batch = vec![msg(3, 2, "x"), msg(2, 2, "y"), msg(3, 2, "z")];
    insert_messages(&mut a, &batch, 44);
    let all = search_messages_range(&a, 44, 2, "", i64::MIN, i64::MAX);
    assert_eq!(ids(&all), vec![3, 2]);
    assert_eq!(all[0].content, "z");
    assert!(search_messages_range(&a, 1, 2, "", i64::MIN, i64::MAX).is_empty());
}

#[test]
fn update_and_delete() {
    let mut a = Archive::new();
    for id in 1..=4 {
        insert_message(&mut a, msg(id, 2, "old"));
    }
    update_message(&mut a, 2, Some("new".to_string()));
    update_message(&mut a, 3, None);
    update_message(&mut a, 99, Some("ghost".to_string()));
    assert_eq!(ids(&search_messages_range(&a, 1, 2, "new", 0, 10)), vec![2]);
    assert_eq!(ids(&search_messages_range(&a, 1, 2, "old", 0, 10)), vec![4, 3, 1]);
    delete_message(&mut a, 3);
    delete_message(&mut a, 3);
    assert_eq!(ids(&search_messages_range(&a, 1, 2, "", 0, 10)), vec![4, 2, 1]);
    delete_messages(&mut a, &vec![1, 4, 77]);
    assert_eq!(ids(&search_messages_range(&a, 1, 2, "", 0, 10)), vec![2]);
}

#[test]
fn earliest_id_per_channel() {
    let mut a = Archive::new();
    assert_eq!(get_earliest_message_id(&a, 2), None);
    insert_message(&mut a, msg(8, 2, ""));
    insert_message(&mut a, msg(3, 5, ""));
    insert_message(&mut a, msg(6, 2, ""));
    assert_eq!(get_earliest_message_id(&a, 2), Some(6));
    assert_eq!(get_earliest_message_id(&a, 5), Some(3));
    delete_channel_messages(&mut a, 2);
    assert_eq!(get_earliest_message_id(&a, 2), None);
    assert_eq!(get_earliest_message_id(&a, 5), Some(3));
}

#[test]
fn sync_ranges_only_grow() {
    let mut a = Archive::new();
    assert_eq!(get_sync_range(&a, 2), None);
    assert_eq!(add_sync_range(&mut a, 2, 50, 60), Range::new(50, 60));
    assert_eq!(add_sync_range(&mut a, 2, 55, 58), Range::new(50, 60));
    assert_eq!(add_sync_range(&mut a, 2, 40, 45), Range::new(40, 60));
    assert_eq!(add_sync_range(&mut a, 2, 70, 70), Range::new(40, 70));
    assert_eq!(get_sync_range(&a, 2), Some(Range::new(40, 70)));
    assert_eq!(get_sync_range(&a, 3), None);
}

#[test]
fn disabling_caching_purges_channel() {
    let mut a = Archive::new();
    assert!(!is_channel_caching_enabled(&a, 2));
    set_channel_caching(&mut a, 2, true);
    set_channel_caching(&mut a, 3, true);
    assert!(is_channel_caching_enabled(&a, 2));
    insert_message(&mut a, msg(1, 2, "foo"));
    insert_message(&mut a, msg(2, 3, "foo"));
    add_sync_range(&mut a, 2, 1, 1);
    add_sync_range(&mut a, 3, 2, 2);
    set_channel_caching(&mut a, 2, false);
    assert!(!is_channel_caching_enabled(&a, 2));
    assert!(search_messages_range(&a, 1, 2, "", i64::MIN, i64::MAX).is_empty());
    assert!(search_messages_like(&a, 1, 2, "foo", 10, 0).is_empty());
    assert_eq!(get_sync_range(&a, 2), None);
    assert_eq!(ids(&search_messages_range(&a, 1, 3, "foo", 0, 10)), vec![2]);
    assert_eq!(get_sync_range(&a, 3), Some(Range::new(2, 2)));
}
