//! Properties that hold across calls of the library, proved over the models
//! that the functions' own contracts use.
use vstd::prelude::*;
use vstd::arithmetic::div_mod::{lemma_fundamental_div_mod, lemma_mod_pos_bound};
use vstd::seq_lib::group_filter_ensures;
use crate::database::{newest_first, page, range_pred, upserted, Archive, SearchResult};
use crate::engine::{is_oldest, message_ids};
use crate::range::{covers, extended, Range};
use crate::text::is_substring;

verus! {

/// Upserting a message twice, the second time with possibly other content,
/// leaves exactly one row with that id, the second one: the same rows as
/// upserting only the second.
pub proof fn lemma_upsert_idempotent(rows: Set<SearchResult>, first: SearchResult, second: SearchResult)
    requires
        first.message_id == second.message_id,
    ensures
        upserted(upserted(rows, first), second).filter(
            |r: SearchResult| r.message_id == second.message_id,
        ) == set![second],
        upserted(upserted(rows, first), second) == upserted(rows, second),
{
    assert(upserted(upserted(rows, first), second).filter(
        |r: SearchResult| r.message_id == second.message_id,
    ) =~= set![second]);
    assert(upserted(upserted(rows, first), second) =~= upserted(rows, second));
}

/// The sync range after extending `start` over each span of `spans` in turn.
pub open spec fn ranges_after(start: Option<Range>, spans: Seq<(i64, i64)>) -> Option<Range>
    decreases spans.len(),
{
    if spans.len() == 0 {
        start
    } else {
        Some(extended(ranges_after(start, spans.drop_last()), spans.last().0, spans.last().1))
    }
}

/// Over any sequence of extensions of a channel's sync range, each range
/// includes every earlier one and every span extended over so far.
pub proof fn lemma_sync_range_never_shrinks(
    start: Option<Range>,
    spans: Seq<(i64, i64)>,
    i: int,
    j: int,
)
    requires
        0 <= i <= j <= spans.len(),
        ranges_after(start, spans.subrange(0, i)) is Some,
    ensures
        ranges_after(start, spans.subrange(0, j)) is Some,
        covers(
            ranges_after(start, spans.subrange(0, j))->0,
            ranges_after(start, spans.subrange(0, i))->0,
        ),
        i > 0 ==> covers(
            ranges_after(start, spans.subrange(0, j))->0,
            Range { start: spans[i - 1].0, end: spans[i - 1].1 },
        ),
    decreases j - i,
{
    if i > 0 {
        assert(spans.subrange(0, i).drop_last() =~= spans.subrange(0, i - 1));
    }
    if j > i {
        lemma_sync_range_never_shrinks(start, spans, i, j - 1);
        assert(spans.subrange(0, j).drop_last() =~= spans.subrange(0, j - 1));
    }
}

/// Filtering rows that are newest first keeps them newest first, and keeps
/// only rows that were in it.
proof fn lemma_filter_newest_first(s: Seq<SearchResult>, pred: spec_fn(SearchResult) -> bool)
    requires
        newest_first(s),
    ensures
        newest_first(s.filter(pred)),
        forall|k: int| 0 <= k < s.filter(pred).len() ==> s.contains(#[trigger] s.filter(pred)[k]),
    decreases s.len(),
{
    broadcast use group_filter_ensures;
    reveal(Seq::filter);
    if s.len() > 0 {
        let t = s.drop_last();
        assert(newest_first(t));
        lemma_filter_newest_first(t, pred);
        let ft = t.filter(pred);
        assert forall|k: int| 0 <= k < ft.len() implies #[trigger] ft[k].message_id > s.last().message_id by {
            assert(t.contains(ft[k]));
            let m = choose|m: int| 0 <= m < t.len() && t[m] == ft[k];
            assert(s[m] == t[m]);
        }
        assert forall|k: int| 0 <= k < s.filter(pred).len() implies s.contains(
            #[trigger] s.filter(pred)[k],
        ) by {
            if k < ft.len() {
                assert(t.contains(ft[k]));
                let m = choose|m: int| 0 <= m < t.len() && t[m] == ft[k];
                assert(s[m] == t[m]);
            } else {
                assert(s[s.len() - 1] == s.last());
            }
        }
    }
}

/// A search step delivers each message at most once, and none that an
/// earlier step delivered: the earlier step left the cursor below all it
/// delivered, and the next step searches at or below that cursor.
pub proof fn lemma_no_duplicate_delivery(
    rows: Seq<SearchResult>,
    guild_id: i64,
    channel_id: i64,
    query: Seq<char>,
    start: i64,
    cursor: i64,
    earlier: Seq<SearchResult>,
)
    requires
        newest_first(rows),
        forall|k: int| 0 <= k < earlier.len() ==> cursor < #[trigger] earlier[k].message_id,
    ensures
        ({
            let found = rows.filter(range_pred(guild_id, channel_id, query, start, cursor));
            &&& forall|a: int, b: int|
                0 <= a < b < found.len() ==> #[trigger] found[a].message_id != #[trigger] found[b].message_id
            &&& forall|a: int, b: int|
                0 <= a < found.len() && 0 <= b < earlier.len() ==> #[trigger] found[a].message_id
                    != #[trigger] earlier[b].message_id
        }),
{
    broadcast use group_filter_ensures;
    let pred = range_pred(guild_id, channel_id, query, start, cursor);
    lemma_filter_newest_first(rows, pred);
    let found = rows.filter(pred);
    assert forall|a: int, b: int| 0 <= a < found.len() && 0 <= b < earlier.len() implies #[trigger] found[a].message_id
        != #[trigger] earlier[b].message_id by {
        assert(found.contains(found[a]));
        assert(pred(found[a]));
    }
}

/// Once caching of a channel is turned off (its messages removed and its
/// sync range dropped), no search of that channel finds anything and it has
/// no sync range.
pub proof fn lemma_purged_channel_is_empty(
    before: Archive,
    after: Archive,
    guild_id: i64,
    channel_id: i64,
    query: Seq<char>,
    min_id: i64,
    max_id: i64,
    limit: nat,
    offset: nat,
)
    requires
        after.messages() == before.messages().filter(|r: SearchResult| r.channel_id != channel_id),
        after.sync_ranges() == before.sync_ranges().remove(channel_id),
    ensures
        after.rows().filter(range_pred(guild_id, channel_id, query, min_id, max_id)).len() == 0,
        page(
            after.rows().filter(range_pred(guild_id, channel_id, query, i64::MIN, i64::MAX)),
            limit,
            offset,
        ).len() == 0,
        after.sync_range_of(channel_id) is None,
{
    broadcast use group_filter_ensures;
    let f = after.rows().filter(range_pred(guild_id, channel_id, query, min_id, max_id));
    if f.len() > 0 {
        assert(f.contains(f[0]));
        after.rows().lemma_filter_contains_rev(
            range_pred(guild_id, channel_id, query, min_id, max_id),
            f[0],
        );
        assert(after.messages().contains(f[0]));
        assert(before.messages().filter(|r: SearchResult| r.channel_id != channel_id).contains(f[0]));
    }
    let g = after.rows().filter(range_pred(guild_id, channel_id, query, i64::MIN, i64::MAX));
    if g.len() > 0 {
        assert(g.contains(g[0]));
        after.rows().lemma_filter_contains_rev(
            range_pred(guild_id, channel_id, query, i64::MIN, i64::MAX),
            g[0],
        );
        assert(after.messages().contains(g[0]));
        assert(before.messages().filter(|r: SearchResult| r.channel_id != channel_id).contains(g[0]));
    }
}

/// Ids strictly decrease along `h`.
pub open spec fn strictly_decreasing(h: Seq<i64>) -> bool {
    forall|a: int, b: int| 0 <= a < b < h.len() ==> #[trigger] h[a] > #[trigger] h[b]
}

/// `j` splits `h` (newest first) into the ids at or above `before` and those
/// below it.
pub open spec fn splits_at(h: Seq<i64>, before: i64, j: int) -> bool {
    &&& 0 <= j <= h.len()
    &&& forall|k: int| 0 <= k < j ==> #[trigger] h[k] >= before
    &&& forall|k: int| j <= k < h.len() ==> #[trigger] h[k] < before
}

/// The end of a page of at most `p` ids starting at index `j` of `h`.
pub open spec fn page_end(h: Seq<i64>, j: int, p: nat) -> int {
    if j + p < h.len() {
        j + p
    } else {
        h.len() as int
    }
}

/// `page` is what a remote source holding the channel history `h` (newest
/// first) answers to a request for up to `p` messages before `before`: the
/// newest `p` ids of `h` below `before`.
pub open spec fn answers(h: Seq<i64>, before: i64, p: nat, page: Seq<i64>) -> bool {
    exists|j: int| splits_at(h, before, j) && page == h.subrange(j, page_end(h, j, p))
}

proof fn lemma_split_unique(h: Seq<i64>, before: i64, j1: int, j2: int)
    requires
        splits_at(h, before, j1),
        splits_at(h, before, j2),
    ensures
        j1 == j2,
{
    if j1 < j2 {
        assert(h[j1] >= before);
    } else if j2 < j1 {
        assert(h[j2] >= before);
    }
}

/// Each id of `page` is at least `next`: a request at `next` asks for
/// nothing that `page` already brought.
pub open spec fn asks_below(next: i64, page: Seq<SearchResult>) -> bool {
    forall|m: int| 0 <= m < page.len() ==> next <= #[trigger] page[m].message_id
}

/// The least index a split of `h` at the `k`-th request can have.
pub open spec fn walked(h: Seq<i64>, p: nat, k: int) -> int {
    if k * p < h.len() {
        k * p
    } else {
        h.len() as int
    }
}

proof fn lemma_walk_position(
    h: Seq<i64>,
    p: nat,
    cursors: Seq<i64>,
    pages: Seq<Seq<SearchResult>>,
    k: int,
)
    requires
        strictly_decreasing(h),
        p > 0,
        cursors.len() == pages.len(),
        0 <= k < pages.len(),
        forall|i: int| 0 <= i < pages.len() ==> answers(h, #[trigger] cursors[i], p, message_ids(pages[i])),
        forall|i: int| 0 <= i < pages.len() - 1 ==> asks_below(cursors[i + 1], #[trigger] pages[i]),
        forall|i: int| 0 <= i < k ==> (#[trigger] pages[i]).len() > 0,
    ensures
        forall|j: int| #[trigger] splits_at(h, cursors[k], j) ==> j >= walked(h, p, k),
    decreases k,
{
    if k > 0 {
        lemma_walk_position(h, p, cursors, pages, k - 1);
        assert(answers(h, cursors[k - 1], p, message_ids(pages[k - 1])));
        let jj = choose|jj: int|
            splits_at(h, cursors[k - 1], jj) && message_ids(pages[k - 1]) == h.subrange(
                jj,
                page_end(h, jj, p),
            );
        let e = page_end(h, jj, p);
        assert(pages[k - 1].len() > 0);
        assert(message_ids(pages[k - 1]).len() == e - jj);
        assert(cursors[k] <= pages[k - 1][e - jj - 1].message_id);
        assert(message_ids(pages[k - 1])[e - jj - 1] == h[e - 1]);
        assert(k * p == (k - 1) * p + p) by (nonlinear_arith);
        assert(e >= walked(h, p, k));
        assert forall|j: int| #[trigger] splits_at(h, cursors[k], j) implies j >= walked(h, p, k) by {
            if j < e {
                if j < e - 1 {
                    assert(h[j] > h[e - 1]);
                }
                assert(h[j] >= cursors[k]);
            }
        }
    } else {
        assert(0 * p == 0) by (nonlinear_arith);
    }
}

/// Walking back through a channel whose history holds `n` messages, with
/// requests of at most `p` messages where each request asks at or below
/// every message the previous one brought, the request after at most
/// `ceil(n / p)` non-empty answers comes back empty: the walk reaches the
/// end of history and never goes past it. The library's cursors follow
/// that rule: `PageWalk::on_page` moves to the oldest id of the page,
/// `SearchSession::match_fetched` likewise, and `store_fetched` leaves a
/// range whose start, the next fetch cursor, is at most every id stored
/// (see [`lemma_walk_asks_below`]).
pub proof fn lemma_backfill_exhausts(
    h: Seq<i64>,
    p: nat,
    cursors: Seq<i64>,
    pages: Seq<Seq<SearchResult>>,
)
    requires
        strictly_decreasing(h),
        p > 0,
        cursors.len() == pages.len(),
        pages.len() == (h.len() + p - 1) / (p as int) + 1,
        forall|i: int| 0 <= i < pages.len() ==> answers(h, #[trigger] cursors[i], p, message_ids(pages[i])),
        forall|i: int| 0 <= i < pages.len() - 1 ==> asks_below(cursors[i + 1], #[trigger] pages[i]),
    ensures
        exists|i: int| 0 <= i < pages.len() && (#[trigger] pages[i]).len() == 0,
{
    let last = pages.len() - 1;
    if forall|i: int| 0 <= i < last ==> (#[trigger] pages[i]).len() > 0 {
        lemma_walk_position(h, p, cursors, pages, last);
        let n = h.len() as int;
        lemma_fundamental_div_mod(n + p - 1, p as int);
        lemma_mod_pos_bound(n + p - 1, p as int);
        assert(last * p >= n) by (nonlinear_arith)
            requires
                last == (n + p - 1) / (p as int),
                n + p - 1 == (p as int) * ((n + p - 1) / (p as int)) + (n + p - 1) % (p as int),
                (n + p - 1) % (p as int) < p,
        ;
        assert(answers(h, cursors[last], p, message_ids(pages[last])));
        let jj = choose|jj: int|
            splits_at(h, cursors[last], jj) && message_ids(pages[last]) == h.subrange(
                jj,
                page_end(h, jj, p),
            );
        assert(jj >= walked(h, p, last));
        assert(message_ids(pages[last]).len() == 0);
        assert(pages[last].len() == 0);
    }
}

/// The cursor a walk moves to after a non-empty page asks below it.
pub proof fn lemma_walk_asks_below(next: i64, page: Seq<SearchResult>)
    requires
        is_oldest(next, page),
    ensures
        asks_below(next, page),
{
    assert forall|m: int| 0 <= m < page.len() implies next <= #[trigger] page[m].message_id by {
        assert(message_ids(page)[m] == page[m].message_id);
    }
}

proof fn lemma_walk_prefix(pages: Seq<Seq<SearchResult>>, cursors: Seq<i64>, k: int)
    requires
        cursors.len() == pages.len() + 1,
        0 <= k <= pages.len(),
        forall|i: int| 0 <= i < pages.len() ==> newest_first(#[trigger] pages[i]),
        forall|i: int, m: int|
            0 <= i < pages.len() && 0 <= m < pages[i].len() ==> #[trigger] pages[i][m].message_id
                < cursors[i],
        forall|i: int| 0 <= i < pages.len() ==> asks_below(cursors[i + 1], #[trigger] pages[i]),
        forall|i: int| 0 <= i < pages.len() ==> #[trigger] cursors[i + 1] <= cursors[i],
    ensures
        newest_first(pages.subrange(0, k).flatten_alt()),
        forall|t: int|
            0 <= t < pages.subrange(0, k).flatten_alt().len() ==> cursors[k]
                <= #[trigger] pages.subrange(0, k).flatten_alt()[t].message_id,
    decreases k,
{
    if k > 0 {
        lemma_walk_prefix(pages, cursors, k - 1);
        let prev = pages.subrange(0, k - 1);
        assert(pages.subrange(0, k).drop_last() =~= prev);
        let a = prev.flatten_alt();
        let b = pages[k - 1];
        let f = pages.subrange(0, k).flatten_alt();
        assert(f == a + b);
        assert(asks_below(cursors[k], b));
        assert forall|x: int, y: int| 0 <= x < y < f.len() implies #[trigger] f[x].message_id
            > #[trigger] f[y].message_id by {
            if y < a.len() {
            } else if x >= a.len() {
                assert(newest_first(b));
                assert(b[x - a.len()].message_id > b[y - a.len()].message_id);
            } else {
                assert(b[y - a.len()].message_id < cursors[k - 1]);
            }
        }
        assert forall|t: int| 0 <= t < f.len() implies cursors[k] <= #[trigger] f[t].message_id by {
            if t < a.len() {
                assert(cursors[k] <= cursors[k - 1]);
            } else {
                assert(f[t] == b[t - a.len()]);
            }
        }
    }
}

/// An uncached session delivers each message at most once. Its walk asks
/// the remote source for pages below a cursor that never rises and that
/// each request sets at or below every message received (as
/// `PageWalk::on_page` and `SearchSession::match_fetched` do); when each
/// page is newest first and lies below the cursor it was asked at, all
/// messages received, and the matches among them that are delivered,
/// strictly decrease in id.
pub proof fn lemma_uncached_delivers_each_once(
    pages: Seq<Seq<SearchResult>>,
    cursors: Seq<i64>,
    query: Seq<char>,
)
    requires
        cursors.len() == pages.len() + 1,
        forall|i: int| 0 <= i < pages.len() ==> newest_first(#[trigger] pages[i]),
        forall|i: int, m: int|
            0 <= i < pages.len() && 0 <= m < pages[i].len() ==> #[trigger] pages[i][m].message_id
                < cursors[i],
        forall|i: int| 0 <= i < pages.len() ==> asks_below(cursors[i + 1], #[trigger] pages[i]),
        forall|i: int| 0 <= i < pages.len() ==> #[trigger] cursors[i + 1] <= cursors[i],
    ensures
        newest_first(pages.flatten()),
        newest_first(pages.flatten().filter(|m: SearchResult| is_substring(query, m.content@))),
{
    lemma_walk_prefix(pages, cursors, pages.len() as int);
    assert(pages.subrange(0, pages.len() as int) =~= pages);
    pages.lemma_flatten_and_flatten_alt_are_equivalent();
    lemma_filter_newest_first(pages.flatten(), |m: SearchResult| is_substring(query, m.content@));
}

} // verus!
