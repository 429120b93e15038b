use discord_search_bot::database::SearchResult;
use discord_search_bot::render::{result_body, result_field, result_title, timestamp_to_readable};
use discord_search_bot::text::{push_decimal, push_signed_decimal, substr};

fn row(id: i64, content: &str) -> SearchResult {
    SearchResult {
        message_id: id,
        channel_id: 20,
        guild_id: 10,
        _author_id: 7,
        author_name: "alice".to_string(),
        content: content.to_string(),
        created_at: 0,
    }
}

#[test]
fn test_substr() {
    assert_eq!(substr("hello world", 20), "hello world");
    assert_eq!(substr("hello world", 5), "hello");
    // utf-8 korean(3bytes)
    assert_eq!(substr("안녕하세요", 7), "안녕하세요");
    assert_eq!(substr("안녕하세요", 2), "안녕");
}

#[test]
fn substr_edges() {
    assert_eq!(substr("", 3), "");
    assert_eq!(substr("abc", 0), "");
    assert_eq!(substr("abc", 3), "abc");
}

#[test]
fn decimal_text() {
    let mut s = String::new();
    push_decimal(&mut s, 0);
    assert_eq!(s, "0");
    let mut s = String::from("x");
    push_decimal(&mut s, 1234567890);
    assert_eq!(s, "x1234567890");
    let mut s = String::new();
    push_signed_decimal(&mut s, -42);
    assert_eq!(s, "-42");
    let mut s = String::new();
    push_signed_decimal(&mut s, i64::MIN);
    assert_eq!(s, "-9223372036854775808");
}

#[test]
fn link_of_result() {
    let r = row(123, "hi");
    assert_eq!(r.link(), "https://discord.com/channels/10/20/123");
}

#[test]
fn readable_timestamp() {
    assert_eq!(timestamp_to_readable(0), "1970-01-01 00:00:00");
    assert_eq!(timestamp_to_readable(1609459200), "2021-01-01 00:00:00");
    assert_eq!(timestamp_to_readable(1700000000), "2023-11-14 22:13:20");
}

#[test]
fn result_lines() {
    let r = row(5, "hello");
    assert_eq!(result_title(&r, "2021-01-01 00:00:00"), "alice\t2021-01-01 00:00:00");
    assert_eq!(result_body(&r), "[hello](https://discord.com/channels/10/20/5)\n");
    let long = row(6, &"a".repeat(60));
    let body = result_body(&long);
    assert_eq!(body, format!("[{}](https://discord.com/channels/10/20/6)\n", "a".repeat(50)));
    let (title, _) = result_field(&r);
    assert_eq!(title, "alice\t1970-01-01 00:00:00");
}
