use discord_search_bot::database::{
    add_sync_range, get_sync_range, insert_message, search_messages_range, set_channel_caching,
    Archive, SearchResult,
};
use discord_search_bot::engine::{
    delivery_batches, id_bounds, PageWalk, Phase, SearchSession, DB_PAGE_SIZE, SEARCH_COUNT,
};
use discord_search_bot::ingest::{
    cache_event_applies, configure_caching, handle_cache_event, CacheEffect, CacheEvent,
};
use discord_search_bot::range::Range;
use discord_search_bot::tracker::RangeTracker;

const CH: i64 = 20;
const GUILD: i64 = 10;

fn msg(id: i64, content: &str) -> SearchResult {
    SearchResult {
        message_id: id,
        channel_id: CH,
        guild_id: GUILD,
        _author_id: 1,
        author_name: "carol".to_string(),
        content: content.to_string(),
        created_at: 0,
    }
}

fn ids(rows: &[SearchResult]) -> Vec<i64> {
    rows.iter().map(|r| r.message_id).collect()
}

#[test]
fn cached_hit_needs_no_fetch() {
    let mut archive = Archive::new();
    let mut tracker = RangeTracker::new();
    set_channel_caching(&mut archive, CH, true);
    for id in 100..=110 {
        insert_message(&mut archive, msg(id, if id == 105 { "a foo b" } else { "bar" }));
    }
    add_sync_range(&mut archive, CH, 100, 110);
    tracker.set(CH, Range::new(100, 110));
    let mut s = SearchSession::start_cached(CH, GUILD, "foo".to_string(), false, 1, tracker.get(CH), 999);
    assert_eq!(s.phase, Phase::Query);
    let found = s.search_archive(&archive);
    assert_eq!(ids(&found), vec![105]);
    assert_eq!(s.phase, Phase::Paused);
    assert_eq!(s.cursor, 104);
}

#[test]
fn empty_channel_ends_after_one_fetch() {
    let mut archive = Archive::new();
    let mut tracker = RangeTracker::new();
    set_channel_caching(&mut archive, CH, true);
    let mut s = SearchSession::start_cached(CH, GUILD, "x".to_string(), false, 1, tracker.get(CH), 500);
    assert_eq!(s.range, Range::new(500, 500));
    assert!(s.search_archive(&archive).is_empty());
    assert_eq!(s.phase, Phase::Fetch);
    let mut walk = PageWalk::new(s.fetch_cursor());
    assert_eq!(walk.next_request(), Some(500));
    walk.on_page(Vec::new());
    assert_eq!(walk.next_request(), None);
    s.store_fetched(&mut archive, &mut tracker, walk.collected);
    assert_eq!(s.phase, Phase::Exhausted);
    assert!(s.is_over());
    assert_eq!(get_sync_range(&archive, CH), None);
}

#[test]
fn live_range_from_created_events() {
    let mut archive = Archive::new();
    let mut tracker = RangeTracker::new();
    configure_caching(&mut archive, &mut tracker, CH, true);
    let e = CacheEvent::Created { message: msg(300, "hi"), in_guild: true, from_bot: false };
    assert_eq!(handle_cache_event(&mut archive, &mut tracker, e), CacheEffect::Archived { sync: Range::new(300, 300) });
    assert_eq!(tracker.get(CH), Some(Range::new(300, 300)));
    let e = CacheEvent::Created { message: msg(340, "yo"), in_guild: true, from_bot: false };
    handle_cache_event(&mut archive, &mut tracker, e);
    assert_eq!(tracker.get(CH), Some(Range::new(300, 340)));
    assert_eq!(get_sync_range(&archive, CH), Some(Range::new(300, 340)));
    assert_eq!(ids(&search_messages_range(&archive, GUILD, CH, "", 0, 1000)), vec![340, 300]);
}

#[test]
fn events_are_ignored_without_caching_or_from_bots() {
    let mut archive = Archive::new();
    let mut tracker = RangeTracker::new();
    let e = CacheEvent::Created { message: msg(1, "hi"), in_guild: true, from_bot: false };
    assert_eq!(handle_cache_event(&mut archive, &mut tracker, e), CacheEffect::Ignored);
    assert_eq!(tracker.get(CH), None);
    configure_caching(&mut archive, &mut tracker, CH, true);
    let e = CacheEvent::Created { message: msg(2, "bot"), in_guild: true, from_bot: true };
    assert_eq!(handle_cache_event(&mut archive, &mut tracker, e), CacheEffect::Ignored);
    assert_eq!(handle_cache_event(&mut archive, &mut tracker, CacheEvent::Other), CacheEffect::Ignored);
    assert!(search_messages_range(&archive, GUILD, CH, "", 0, 10).is_empty());
}

#[test]
fn edit_and_delete_events() {
    let mut archive = Archive::new();
    let mut tracker = RangeTracker::new();
    configure_caching(&mut archive, &mut tracker, CH, true);
    for id in [10, 11, 12] {
        let e = CacheEvent::Created { message: msg(id, "old"), in_guild: true, from_bot: false };
        handle_cache_event(&mut archive, &mut tracker, e);
    }
    let e = CacheEvent::Updated { channel_id: CH, message_id: 11, content: Some("new".to_string()) };
    assert_eq!(handle_cache_event(&mut archive, &mut tracker, e), CacheEffect::Edited);
    assert_eq!(ids(&search_messages_range(&archive, GUILD, CH, "new", 0, 100)), vec![11]);
    let e = CacheEvent::Deleted { channel_id: CH, message_id: 12 };
    assert_eq!(handle_cache_event(&mut archive, &mut tracker, e), CacheEffect::Removed);
    let e = CacheEvent::BulkDeleted { channel_id: CH, message_ids: vec![10, 99] };
    handle_cache_event(&mut archive, &mut tracker, e);
    assert_eq!(ids(&search_messages_range(&archive, GUILD, CH, "", 0, 100)), vec![11]);
    assert_eq!(get_sync_range(&archive, CH), Some(Range::new(10, 12)));
    configure_caching(&mut archive, &mut tracker, CH, false);
    assert_eq!(tracker.get(CH), None);
    assert_eq!(get_sync_range(&archive, CH), None);
    assert!(search_messages_range(&archive, GUILD, CH, "", 0, 100).is_empty());
}

#[test]
fn backfill_then_find() {
    let mut archive = Archive::new();
    let mut tracker = RangeTracker::new();
    set_channel_caching(&mut archive, CH, true);
    let mut s = SearchSession::start_cached(CH, GUILD, "needle".to_string(), true, 1, None, 1000);
    assert!(s.search_archive(&archive).is_empty());
    let page = vec![msg(900, "hay"), msg(850, "a needle"), msg(800, "hay")];
    s.store_fetched(&mut archive, &mut tracker, page);
    assert_eq!(s.phase, Phase::Query);
    assert_eq!(s.range, Range::new(800, 1000));
    assert_eq!(tracker.get(CH), Some(Range::new(800, 1000)));
    assert_eq!(get_sync_range(&archive, CH), Some(Range::new(800, 900)));
    let found = s.search_archive(&archive);
    assert_eq!(ids(&found), vec![850]);
    assert_eq!(s.phase, Phase::Paused);
    assert!(!s.on_continue(2));
    assert_eq!(s.phase, Phase::Paused);
    assert!(s.on_continue(1));
    assert_eq!(s.phase, Phase::Query);
    assert!(s.search_archive(&archive).is_empty());
    assert_eq!(s.fetch_cursor(), 800);
}

#[test]
fn no_duplicate_delivery_across_steps() {
    let mut archive = Archive::new();
    for id in 1..=30 {
        insert_message(&mut archive, msg(id, "x"));
    }
    let mut s = SearchSession::start_cached(CH, GUILD, "x".to_string(), false, 1, Some(Range::new(1, 30)), 0);
    let first = s.search_archive(&archive);
    assert_eq!(first.len(), 30);
    let batches = delivery_batches(&first);
    assert_eq!(batches.len(), 3);
    let mut seen: Vec<i64> = batches.iter().flat_map(|b| ids(b)).collect();
    seen.sort();
    seen.dedup();
    assert_eq!(seen.len(), 30);
    assert!(s.on_continue(1));
    assert!(s.search_archive(&archive).is_empty());
}

#[test]
fn timeout_ends_paused_session() {
    let mut s = SearchSession::start_uncached(CH, GUILD, "q".to_string(), false, 1, 100);
    s.on_timeout();
    assert_eq!(s.phase, Phase::Fetch);
    let r = s.match_fetched(vec![msg(90, "q"), msg(80, "no")]);
    assert_eq!(ids(&r), vec![90]);
    assert_eq!(s.phase, Phase::Paused);
    assert_eq!(s.cursor, 80);
    s.on_timeout();
    assert_eq!(s.phase, Phase::Ended);
    assert!(s.is_over());
    assert!(!s.on_continue(1));
}

#[test]
fn uncached_until_find_keeps_fetching() {
    let mut s = SearchSession::start_uncached(CH, GUILD, "q".to_string(), true, 1, 100);
    assert!(s.match_fetched(vec![msg(99, "a"), msg(95, "b")]).is_empty());
    assert_eq!(s.phase, Phase::Fetch);
    assert_eq!(s.fetch_cursor(), 95);
    assert!(s.match_fetched(Vec::new()).is_empty());
    assert_eq!(s.phase, Phase::Exhausted);
}

#[test]
fn page_walk_stops_after_fixed_number_of_requests() {
    let mut walk = PageWalk::new(10_000);
    let mut next = 10_000;
    for _ in 0..SEARCH_COUNT {
        assert_eq!(walk.next_request(), Some(next));
        let page: Vec<SearchResult> = (1..=3).map(|k| msg(next - k, "")).collect();
        walk.on_page(page);
        next -= 3;
    }
    assert_eq!(walk.next_request(), None);
    assert_eq!(walk.collected.len(), 3 * SEARCH_COUNT);
}

#[test]
fn page_walk_ends_on_error() {
    let mut walk = PageWalk::new(50);
    walk.on_page(vec![msg(40, ""), msg(30, "")]);
    walk.on_error();
    assert_eq!(walk.next_request(), None);
    assert!(walk.failed);
    assert!(walk.finish().is_none());
}

#[test]
fn finished_walk_hands_over_pages() {
    let mut walk = PageWalk::new(50);
    walk.on_page(vec![msg(40, ""), msg(30, "")]);
    walk.on_page(Vec::new());
    assert!(!walk.failed);
    assert_eq!(ids(&walk.finish().unwrap()), vec![40, 30]);
}

#[test]
fn failed_fetch_is_not_end_of_history() {
    let mut archive = Archive::new();
    set_channel_caching(&mut archive, CH, true);
    let mut s = SearchSession::start_cached(CH, GUILD, "x".to_string(), false, 1, None, 500);
    assert!(s.search_archive(&archive).is_empty());
    let mut walk = PageWalk::new(s.fetch_cursor());
    walk.on_error();
    assert!(walk.finish().is_none());
    s.fetch_failed();
    assert_eq!(s.phase, Phase::Failed);
    assert!(s.is_over());
    assert!(!s.on_continue(1));
}

#[test]
fn fetch_never_narrows_a_live_range_widened_meanwhile() {
    let mut archive = Archive::new();
    let mut tracker = RangeTracker::new();
    configure_caching(&mut archive, &mut tracker, CH, true);
    for id in [100, 200] {
        let e = CacheEvent::Created { message: msg(id, "old"), in_guild: true, from_bot: false };
        handle_cache_event(&mut archive, &mut tracker, e);
    }
    let mut s = SearchSession::start_cached(CH, GUILD, "zzz".to_string(), true, 1, tracker.get(CH), 0);
    assert_eq!(s.range, Range::new(100, 200));
    assert!(s.search_archive(&archive).is_empty());
    // A live message arrives while the session fetches.
    let e = CacheEvent::Created { message: msg(250, "new"), in_guild: true, from_bot: false };
    handle_cache_event(&mut archive, &mut tracker, e);
    assert_eq!(tracker.get(CH), Some(Range::new(100, 250)));
    s.store_fetched(&mut archive, &mut tracker, vec![msg(90, "a"), msg(50, "b")]);
    assert_eq!(s.range, Range::new(50, 200));
    assert_eq!(tracker.get(CH), Some(Range::new(50, 250)));
    assert_eq!(get_sync_range(&archive, CH), Some(Range::new(50, 250)));
}

#[test]
fn one_fetch_then_search_then_pause() {
    let mut archive = Archive::new();
    let mut tracker = RangeTracker::new();
    set_channel_caching(&mut archive, CH, true);
    let mut s = SearchSession::start_cached(CH, GUILD, "needle".to_string(), false, 1, None, 1000);
    assert!(s.search_archive(&archive).is_empty());
    assert_eq!(s.phase, Phase::Fetch);
    s.store_fetched(&mut archive, &mut tracker, vec![msg(900, "a needle"), msg(800, "hay")]);
    assert_eq!(s.phase, Phase::Query);
    assert_eq!(ids(&s.search_archive(&archive)), vec![900]);
    assert_eq!(s.phase, Phase::Paused);
    assert!(s.on_continue(1));
    assert!(s.search_archive(&archive).is_empty());
    assert_eq!(s.phase, Phase::Fetch);
    s.store_fetched(&mut archive, &mut tracker, vec![msg(700, "hay")]);
    assert!(s.search_archive(&archive).is_empty());
    assert_eq!(s.phase, Phase::Paused);
    assert!(s.on_continue(1));
    assert_eq!(s.fetch_cursor(), 700);
}

#[test]
fn which_events_apply() {
    let mut archive = Archive::new();
    let created = CacheEvent::Created { message: msg(1, "hi"), in_guild: true, from_bot: false };
    assert!(!cache_event_applies(&archive, &created));
    set_channel_caching(&mut archive, CH, true);
    assert!(cache_event_applies(&archive, &created));
    let bot = CacheEvent::Created { message: msg(2, "hi"), in_guild: true, from_bot: true };
    assert!(!cache_event_applies(&archive, &bot));
    assert!(cache_event_applies(&archive, &CacheEvent::Deleted { channel_id: CH, message_id: 1 }));
    assert!(!cache_event_applies(&archive, &CacheEvent::Deleted { channel_id: 99, message_id: 1 }));
    assert!(!cache_event_applies(&archive, &CacheEvent::Other));
}

#[test]
fn exhaustion_within_ceiling_of_pages() {
    // 250 messages in pages of 100: three non-empty answers, then an empty one.
    let history: Vec<i64> = (1..=250).rev().collect();
    let p = 100usize;
    let mut walk = PageWalk::new(1000);
    let mut answers = 0;
    while let Some(before) = walk.next_request() {
        let page: Vec<SearchResult> =
            history.iter().filter(|&&id| id < before).take(p).map(|&id| msg(id, "")).collect();
        if !page.is_empty() {
            answers += 1;
        }
        walk.on_page(page);
    }
    assert_eq!(answers, (250 + p - 1) / p);
    assert_eq!(walk.collected.len(), 250);
}

#[test]
fn bounds_and_batches() {
    let page = vec![msg(5, ""), msg(9, ""), msg(2, "")];
    assert_eq!(id_bounds(&page), (2, 9));
    let rows: Vec<SearchResult> = (1..=23).map(|id| msg(id, "")).collect();
    let b = delivery_batches(&rows);
    assert_eq!(b.iter().map(|x| x.len()).collect::<Vec<_>>(), vec![DB_PAGE_SIZE, DB_PAGE_SIZE, 3]);
    assert_eq!(ids(&b[2]), vec![21, 22, 23]);
    assert!(delivery_batches(&Vec::new()).is_empty());
}
