//! The search engine: a search session as an explicit state machine, the
//! walk over remote history pages that backs one fetch step, and the
//! batching of results for delivery.
use vstd::prelude::*;
use crate::database::{
    add_sync_range, insert_messages, newest_first, range_pred, search_messages_range, Archive,
    SearchResult,
};
use crate::range::Range;
use crate::text::{is_substring, text_contains};
use crate::tracker::RangeTracker;

verus! {

/// Most messages the remote source hands out per request.
pub const SEARCH_MESSAGE_LIMIT: u8 = 100;

/// Requests made by one fetch step.
pub const SEARCH_COUNT: usize = 10;

/// Most results in one delivered unit.
pub const DB_PAGE_SIZE: usize = 10;

/// The ids of a page of messages, in order.
pub open spec fn message_ids(page: Seq<SearchResult>) -> Seq<i64> {
    page.map_values(|m: SearchResult| m.message_id)
}

/// `id` is the smallest of the non-empty `ids`.
pub open spec fn oldest_id(id: i64, ids: Seq<i64>) -> bool {
    &&& exists|k: int| 0 <= k < ids.len() && #[trigger] ids[k] == id
    &&& forall|k: int| 0 <= k < ids.len() ==> id <= #[trigger] ids[k]
}

/// `id` is the smallest message id of the non-empty `page`.
pub open spec fn is_oldest(id: i64, page: Seq<SearchResult>) -> bool {
    oldest_id(id, message_ids(page))
}

/// The smallest message id of a non-empty page, and the largest.
pub fn id_bounds(page: &Vec<SearchResult>) -> (r: (i64, i64))
    requires
        page@.len() > 0,
    ensures
        is_oldest(r.0, page@),
        exists|k: int| 0 <= k < page@.len() && #[trigger] page@[k].message_id == r.1,
        forall|k: int| 0 <= k < page@.len() ==> #[trigger] page@[k].message_id <= r.1,
{
    let mut lo = page[0].message_id;
    let mut hi = page[0].message_id;
    let mut i: usize = 1;
    while i < page.len()
        invariant
            1 <= i <= page@.len(),
            exists|k: int| 0 <= k < i && #[trigger] page@[k].message_id == lo,
            exists|k: int| 0 <= k < i && #[trigger] page@[k].message_id == hi,
            forall|k: int| 0 <= k < i ==> lo <= #[trigger] page@[k].message_id <= hi,
        decreases page@.len() - i,
    {
        let id = page[i].message_id;
        if id < lo {
            lo = id;
        }
        if id > hi {
            hi = id;
        }
        i += 1;
    }
    assert(is_oldest(lo, page@)) by {
        let k = choose|k: int| 0 <= k < page@.len() && #[trigger] page@[k].message_id == lo;
        assert(message_ids(page@)[k] == lo);
    }
    (lo, hi)
}

/// The walk over remote history behind one fetch step: up to
/// [`SEARCH_COUNT`] requests of [`SEARCH_MESSAGE_LIMIT`] messages, each
/// older than the oldest message received so far. An empty answer ends the
/// walk at the end of history; a failed request ends it as failed.
pub struct PageWalk {
    pub before: i64,
    pub requests: usize,
    pub done: bool,
    pub failed: bool,
    pub collected: Vec<SearchResult>,
}

impl PageWalk {
    /// A walk over the history older than message `before`.
    pub fn new(before: i64) -> (r: PageWalk)
        ensures
            r.before == before,
            r.requests == 0,
            !r.done,
            !r.failed,
            r.collected@.len() == 0,
    {
        PageWalk { before, requests: 0, done: false, failed: false, collected: Vec::new() }
    }

    /// The cursor of the next request, or none when the walk is over.
    pub fn next_request(&self) -> (r: Option<i64>)
        ensures
            r == (if !self.done && self.requests < SEARCH_COUNT {
                Some(self.before)
            } else {
                None
            }),
    {
        if !self.done && self.requests < SEARCH_COUNT {
            Some(self.before)
        } else {
            None
        }
    }

    /// Takes the answer to the request at `self.before`. An empty page ends
    /// the walk; otherwise its messages are kept and the next request asks
    /// for what is older than the oldest of them.
    pub fn on_page(&mut self, page: Vec<SearchResult>)
        requires
            !old(self).done,
            old(self).requests < SEARCH_COUNT,
        ensures
            final(self).failed == old(self).failed,
            page@.len() == 0 ==> {
                &&& final(self).done
                &&& final(self).before == old(self).before
                &&& final(self).requests == old(self).requests
                &&& final(self).collected@ == old(self).collected@
            },
            page@.len() > 0 ==> {
                &&& !final(self).done
                &&& is_oldest(final(self).before, page@)
                &&& final(self).requests == old(self).requests + 1
                &&& final(self).collected@ == old(self).collected@ + page@
            },
    {
        if page.len() == 0 {
            self.done = true;
        } else {
            let (lo, _) = id_bounds(&page);
            self.before = lo;
            self.requests = self.requests + 1;
            let mut page = page;
            self.collected.append(&mut page);
        }
    }

    /// A request failed: the walk ends, and ends as failed.
    pub fn on_error(&mut self)
        ensures
            final(self).done,
            final(self).failed,
            final(self).before == old(self).before,
            final(self).requests == old(self).requests,
            final(self).collected@ == old(self).collected@,
    {
        self.done = true;
        self.failed = true;
    }

    /// What the walk brought: the messages received, or none when a request
    /// failed.
    pub fn finish(self) -> (r: Option<Vec<SearchResult>>)
        ensures
            r is None <==> self.failed,
            r matches Some(v) ==> v@ == self.collected@,
    {
        if self.failed {
            None
        } else {
            Some(self.collected)
        }
    }
}

/// Where a search session stands.
#[derive(Clone, Copy, Debug, PartialEq, Eq, Structural)]
pub enum Phase {
    /// Next: search the archive below the cursor.
    Query,
    /// Next: fetch older history from the remote source.
    Fetch,
    /// Waiting for the requester to ask for more.
    Paused,
    /// The requester did not ask for more in time.
    Ended,
    /// The channel's history is used up.
    Exhausted,
    /// Fetching history or saving it failed; the session stops and reports it.
    Failed,
}

/// One search of a channel's history for `query`, driven step by step.
/// With `cached` the archive is searched and backfilled; without it fetched
/// pages are matched directly and nothing is stored.
pub struct SearchSession {
    pub channel_id: i64,
    pub guild_id: i64,
    pub query: String,
    pub until_find: bool,
    pub cached: bool,
    pub requester: u64,
    pub range: Range,
    pub cursor: i64,
    pub phase: Phase,
    /// A fetch step ran since the session started or last resumed.
    pub fetched: bool,
}

/// The range a cached session starts from: the live range, or the
/// degenerate range at "now" when the channel has none.
pub open spec fn start_range(live: Option<Range>, now_id: i64) -> Range {
    match live {
        Some(r) => r,
        None => Range { start: now_id, end: now_id },
    }
}

/// Where the session goes once a step is done: on to the next step of the
/// same kind while searching until found and nothing was found, else to a
/// pause.
pub open spec fn after_step(until_find: bool, found: bool, next: Phase) -> Phase {
    if until_find && !found {
        next
    } else {
        Phase::Paused
    }
}

impl SearchSession {
    /// A session over the archive, starting at the top of the channel's
    /// live range (or at `now_id` when the channel has none).
    pub fn start_cached(
        channel_id: i64,
        guild_id: i64,
        query: String,
        until_find: bool,
        requester: u64,
        live: Option<Range>,
        now_id: i64,
    ) -> (r: SearchSession)
        ensures
            r.channel_id == channel_id,
            r.guild_id == guild_id,
            r.query == query,
            r.until_find == until_find,
            r.requester == requester,
            r.cached,
            r.range == start_range(live, now_id),
            r.cursor == r.range.end,
            r.phase == Phase::Query,
            !r.fetched,
    {
        let range = match live {
            Some(r) => r,
            None => Range::new(now_id, now_id),
        };
        SearchSession {
            channel_id,
            guild_id,
            query,
            until_find,
            cached: true,
            requester,
            range,
            cursor: range.end,
            phase: Phase::Query,
            fetched: false,
        }
    }

    /// A session that matches fetched pages directly, starting below
    /// message `start_id`.
    pub fn start_uncached(
        channel_id: i64,
        guild_id: i64,
        query: String,
        until_find: bool,
        requester: u64,
        start_id: i64,
    ) -> (r: SearchSession)
        ensures
            r.channel_id == channel_id,
            r.guild_id == guild_id,
            r.query == query,
            r.until_find == until_find,
            r.requester == requester,
            !r.cached,
            r.range == (Range { start: start_id, end: start_id }),
            r.cursor == start_id,
            r.phase == Phase::Fetch,
            !r.fetched,
    {
        SearchSession {
            channel_id,
            guild_id,
            query,
            until_find,
            cached: false,
            requester,
            range: Range::new(start_id, start_id),
            cursor: start_id,
            phase: Phase::Fetch,
            fetched: false,
        }
    }

    /// Whether the session has reached a terminal state.
    pub fn is_over(&self) -> (r: bool)
        ensures
            r == (self.phase == Phase::Ended || self.phase == Phase::Exhausted || self.phase
                == Phase::Failed),
    {
        match self.phase {
            Phase::Ended | Phase::Exhausted | Phase::Failed => true,
            _ => false,
        }
    }

    /// Searches the archive in `[range.start, cursor]`. Matches, newest
    /// first, are returned for delivery and the cursor moves just below the
    /// oldest of them, then the session pauses. With no match the session
    /// goes on to fetch older history, except that a session not searching
    /// until found pauses once a fetch step has run since it started or
    /// resumed. When a match is the smallest possible
    /// id, nothing older can exist and the session is exhausted.
    pub fn search_archive(&mut self, archive: &Archive) -> (r: Vec<SearchResult>)
        requires
            old(self).phase == Phase::Query,
            old(self).cached,
            archive.wf(),
        ensures
            r@ == archive.rows().filter(
                range_pred(
                    old(self).guild_id,
                    old(self).channel_id,
                    old(self).query@,
                    old(self).range.start,
                    old(self).cursor,
                ),
            ),
            newest_first(r@),
            r@.len() == 0 ==> final(self).cursor == old(self).cursor && final(self).phase == (if !old(
                self,
            ).until_find && old(self).fetched {
                Phase::Paused
            } else {
                Phase::Fetch
            }),
            r@.len() > 0 && r@.last().message_id > i64::MIN ==> final(self).cursor == r@.last().message_id
                - 1 && final(self).phase == Phase::Paused,
            r@.len() > 0 && r@.last().message_id == i64::MIN ==> final(self).phase == Phase::Exhausted,
            final(self).phase != Phase::Exhausted ==> forall|k: int|
                0 <= k < r@.len() ==> final(self).cursor < #[trigger] r@[k].message_id,
            final(self).range == old(self).range,
            final(self).channel_id == old(self).channel_id,
            final(self).guild_id == old(self).guild_id,
            final(self).query == old(self).query,
            final(self).until_find == old(self).until_find,
            final(self).cached == old(self).cached,
            final(self).requester == old(self).requester,
            final(self).fetched == old(self).fetched,
    {
        let rows = search_messages_range(
            archive,
            self.guild_id,
            self.channel_id,
            self.query.as_str(),
            self.range.start,
            self.cursor,
        );
        let n = rows.len();
        if n == 0 {
            self.phase = if !self.until_find && self.fetched {
                Phase::Paused
            } else {
                Phase::Fetch
            };
        } else {
            let last = rows[n - 1].message_id;
            assert forall|k: int| 0 <= k < rows@.len() implies last <= #[trigger] rows@[k].message_id by {
                if k < n - 1 {
                    assert(rows@[k].message_id > rows@[n - 1].message_id);
                }
            }
            if last > i64::MIN {
                self.cursor = last - 1;
                self.phase = Phase::Paused;
            } else {
                self.phase = Phase::Exhausted;
            }
        }
        rows
    }

    /// The message id that the next remote request fetches below: the
    /// bottom of the range for a cached session, the cursor otherwise.
    pub fn fetch_cursor(&self) -> (r: i64)
        ensures
            r == (if self.cached {
                self.range.start
            } else {
                self.cursor
            }),
    {
        if self.cached {
            self.range.start
        } else {
            self.cursor
        }
    }

    /// Takes a fetched page for a cached session. An empty page means the
    /// history is used up. Otherwise the page is archived, the channel's
    /// sync range is extended over it, the session's range reaches down to
    /// the sync range's new start, and the channel's live range is widened
    /// over the session's range (never narrowed, so a live message recorded
    /// meanwhile keeps its place). The session then searches the widened
    /// range.
    pub fn store_fetched(
        &mut self,
        archive: &mut Archive,
        tracker: &mut RangeTracker,
        page: Vec<SearchResult>,
    )
        requires
            old(self).phase == Phase::Fetch,
            old(self).cached,
            old(archive).wf(),
        ensures
            final(archive).wf(),
            final(self).channel_id == old(self).channel_id,
            final(self).guild_id == old(self).guild_id,
            final(self).query == old(self).query,
            final(self).until_find == old(self).until_find,
            final(self).cached == old(self).cached,
            final(self).requester == old(self).requester,
            final(self).cursor == old(self).cursor,
            final(archive).caching() == old(archive).caching(),
            page@.len() == 0 ==> {
                &&& final(self).phase == Phase::Exhausted
                &&& final(self).fetched == old(self).fetched
                &&& final(self).range == old(self).range
                &&& *final(archive) == *old(archive)
                &&& *final(tracker) == *old(tracker)
            },
            page@.len() > 0 ==> exists|lo: i64, hi: i64| {
                &&& is_oldest(lo, page@)
                &&& (exists|k: int| 0 <= k < page@.len() && #[trigger] page@[k].message_id == hi)
                &&& (forall|k: int| 0 <= k < page@.len() ==> #[trigger] page@[k].message_id <= hi)
                &&& final(archive).messages() == crate::database::upserted_all(
                    old(archive).messages(),
                    page@,
                    old(self).guild_id,
                )
                &&& final(archive).sync_ranges() == old(archive).sync_ranges().insert(
                    old(self).channel_id,
                    crate::range::extended(old(archive).sync_range_of(old(self).channel_id), lo, hi),
                )
                &&& final(self).range == (Range {
                    start: crate::range::extended(
                        old(archive).sync_range_of(old(self).channel_id),
                        lo,
                        hi,
                    ).start,
                    end: old(self).range.end,
                })
                &&& final(tracker).entries() == old(tracker).entries().insert(
                    old(self).channel_id,
                    crate::range::extended(
                        old(tracker).entry(old(self).channel_id),
                        final(self).range.start,
                        final(self).range.end,
                    ),
                )
                &&& final(self).phase == Phase::Query
                &&& final(self).fetched
            },
            page@.len() > 0 ==> forall|k: int|
                0 <= k < page@.len() ==> final(self).range.start <= #[trigger] page@[k].message_id,
    {
        if page.len() == 0 {
            self.phase = Phase::Exhausted;
            return ;
        }
        let (lo, hi) = id_bounds(&page);
        assert forall|k: int| 0 <= k < page@.len() implies lo <= #[trigger] page@[k].message_id by {
            assert(message_ids(page@)[k] == page@[k].message_id);
        }
        insert_messages(archive, &page, self.guild_id);
        let extended = add_sync_range(archive, self.channel_id, lo, hi);
        self.range = Range::new(extended.start, self.range.end);
        tracker.merge(self.channel_id, self.range);
        self.phase = Phase::Query;
        self.fetched = true;
    }

    /// The fetch step failed (a remote request, or saving what it brought):
    /// the session stops in the failed state.
    pub fn fetch_failed(&mut self)
        requires
            old(self).phase == Phase::Fetch,
        ensures
            *final(self) == (SearchSession { phase: Phase::Failed, ..*old(self) }),
    {
        self.phase = Phase::Failed;
    }

    /// Takes a fetched page for an uncached session: returns the messages
    /// whose content contains the query, in page order, and moves the cursor
    /// below the oldest message of the page. An empty page means the history
    /// is used up.
    pub fn match_fetched(&mut self, page: Vec<SearchResult>) -> (r: Vec<SearchResult>)
        requires
            old(self).phase == Phase::Fetch,
            !old(self).cached,
        ensures
            r@ == page@.filter(|m: SearchResult| is_substring(old(self).query@, m.content@)),
            final(self).channel_id == old(self).channel_id,
            final(self).guild_id == old(self).guild_id,
            final(self).query == old(self).query,
            final(self).until_find == old(self).until_find,
            final(self).cached == old(self).cached,
            final(self).requester == old(self).requester,
            final(self).range == old(self).range,
            final(self).fetched == old(self).fetched,
            page@.len() == 0 ==> final(self).phase == Phase::Exhausted && final(self).cursor == old(
                self,
            ).cursor,
            page@.len() > 0 ==> is_oldest(final(self).cursor, page@) && final(self).phase
                == after_step(old(self).until_find, r@.len() > 0, Phase::Fetch),
    {
        if page.len() == 0 {
            self.phase = Phase::Exhausted;
            return Vec::new();
        }
        let (lo, _) = id_bounds(&page);
        let ghost q = self.query@;
        let ghost pred = |m: SearchResult| is_substring(q, m.content@);
        let mut out: Vec<SearchResult> = Vec::new();
        let mut i: usize = 0;
        while i < page.len()
            invariant
                i <= page@.len(),
                q == self.query@,
                pred == (|m: SearchResult| is_substring(q, m.content@)),
                out@ == page@.subrange(0, i as int).filter(pred),
            decreases page@.len() - i,
        {
            proof {
                assert(page@.subrange(0, i + 1) =~= page@.subrange(0, i as int).push(page@[i as int]));
                page@.subrange(0, i as int).lemma_filter_push(page@[i as int], pred);
            }
            if text_contains(page[i].content.as_str(), self.query.as_str()) {
                out.push(page[i].duplicate());
            }
            i += 1;
        }
        assert(page@.subrange(0, page@.len() as int) =~= page@);
        self.cursor = lo;
        self.phase = if self.until_find && out.len() == 0 {
            Phase::Fetch
        } else {
            Phase::Paused
        };
        out
    }

    /// A continuation signal from `actor`. It resumes a paused session only
    /// when it comes from the requester; anything else changes nothing.
    pub fn on_continue(&mut self, actor: u64) -> (r: bool)
        ensures
            r == (old(self).phase == Phase::Paused && actor == old(self).requester),
            r ==> *final(self) == (SearchSession {
                phase: if old(self).cached {
                    Phase::Query
                } else {
                    Phase::Fetch
                },
                fetched: false,
                ..*old(self)
            }),
            !r ==> *final(self) == *old(self),
    {
        if self.phase == Phase::Paused && actor == self.requester {
            self.phase = if self.cached {
                Phase::Query
            } else {
                Phase::Fetch
            };
            self.fetched = false;
            true
        } else {
            false
        }
    }

    /// The wait for a continuation ran out: a paused session ends.
    pub fn on_timeout(&mut self)
        ensures
            old(self).phase == Phase::Paused ==> *final(self) == (SearchSession {
                phase: Phase::Ended,
                ..*old(self)
            }),
            old(self).phase != Phase::Paused ==> *final(self) == *old(self),
    {
        if self.phase == Phase::Paused {
            self.phase = Phase::Ended;
        }
    }
}

/// The views of a sequence of batches.
pub open spec fn batch_views(b: Seq<Vec<SearchResult>>) -> Seq<Seq<SearchResult>> {
    b.map_values(|v: Vec<SearchResult>| v@)
}

/// Splits results into delivered units of at most [`DB_PAGE_SIZE`], in
/// order: every unit is full except possibly the last.
pub fn delivery_batches(rows: &Vec<SearchResult>) -> (r: Vec<Vec<SearchResult>>)
    ensures
        batch_views(r@).flatten() == rows@,
        forall|b: int| 0 <= b < r@.len() ==> 0 < #[trigger] r@[b]@.len() <= DB_PAGE_SIZE,
        forall|b: int| 0 <= b < r@.len() - 1 ==> #[trigger] r@[b]@.len() == DB_PAGE_SIZE,
{
    let mut out: Vec<Vec<SearchResult>> = Vec::new();
    let mut i: usize = 0;
    while i < rows.len()
        invariant
            i <= rows@.len(),
            batch_views(out@).flatten_alt() == rows@.subrange(0, i as int),
            forall|b: int| 0 <= b < out@.len() ==> 0 < #[trigger] out@[b]@.len() <= DB_PAGE_SIZE,
            forall|b: int| 0 <= b < out@.len() - 1 ==> #[trigger] out@[b]@.len() == DB_PAGE_SIZE,
            out@.len() > 0 ==> (out@.last()@.len() == DB_PAGE_SIZE || i == rows@.len()),
        decreases rows@.len() - i,
    {
        let end: usize = if rows.len() - i > DB_PAGE_SIZE { i + DB_PAGE_SIZE } else { rows.len() };
        let mut batch: Vec<SearchResult> = Vec::new();
        let mut j: usize = i;
        while j < end
            invariant
                i <= j <= end <= rows@.len(),
                batch@ == rows@.subrange(i as int, j as int),
            decreases end - j,
        {
            batch.push(rows[j].duplicate());
            assert(batch@ =~= rows@.subrange(i as int, j + 1));
            j += 1;
        }
        let ghost before = out@;
        out.push(batch);
        proof {
            assert(batch_views(out@).drop_last() =~= batch_views(before));
            assert(rows@.subrange(0, end as int) =~= rows@.subrange(0, i as int) + rows@.subrange(
                i as int,
                end as int,
            ));
        }
        i = end;
    }
    proof {
        batch_views(out@).lemma_flatten_and_flatten_alt_are_equivalent();
        assert(rows@.subrange(0, rows@.len() as int) =~= rows@);
    }
    out
}

} // verus!
