//! The archive store: archived messages, per-channel sync ranges and the
//! per-channel caching switch.
use vstd::prelude::*;
use vstd::std_specs::hash::group_hash_axioms;
use crate::range::{extend_range, extended, Range};
use crate::text::{is_substring, push_signed_decimal, signed_decimal, text_contains};

verus! {

/// One archived message.
#[derive(Debug)]
pub struct SearchResult {
    pub message_id: i64,
    pub channel_id: i64,
    pub guild_id: i64,
    pub _author_id: i64,
    pub author_name: String,
    pub content: String,
    pub created_at: i64,
}

/// The web address of a message.
pub open spec fn link_text(guild_id: i64, channel_id: i64, message_id: i64) -> Seq<char> {
    "https://discord.com/channels/"@ + signed_decimal(guild_id as int) + "/"@ + signed_decimal(
        channel_id as int,
    ) + "/"@ + signed_decimal(message_id as int)
}

impl SearchResult {
    /// The web address of this message.
    pub fn link(&self) -> (r: String)
        ensures
            r@ == link_text(self.guild_id, self.channel_id, self.message_id),
    {
        let mut out = String::from_str("https://discord.com/channels/");
        push_signed_decimal(&mut out, self.guild_id);
        out.append("/");
        push_signed_decimal(&mut out, self.channel_id);
        out.append("/");
        push_signed_decimal(&mut out, self.message_id);
        assert(out@ =~= link_text(self.guild_id, self.channel_id, self.message_id));
        out
    }

    /// A field-by-field copy.
    pub fn duplicate(&self) -> (r: SearchResult)
        ensures
            r == *self,
    {
        SearchResult {
            message_id: self.message_id,
            channel_id: self.channel_id,
            guild_id: self.guild_id,
            _author_id: self._author_id,
            author_name: self.author_name.clone(),
            content: self.content.clone(),
            created_at: self.created_at,
        }
    }
}


/// Ids strictly decrease along the sequence: newest first, each id once.
pub open spec fn newest_first(s: Seq<SearchResult>) -> bool {
    forall|i: int, j: int| 0 <= i < j < s.len() ==> #[trigger] s[i].message_id > #[trigger] s[j].message_id
}

/// The rows that remain after `msg` is upserted into `rows`: every row with
/// another id, and `msg` itself.
pub open spec fn upserted(rows: Set<SearchResult>, msg: SearchResult) -> Set<SearchResult> {
    rows.filter(|r: SearchResult| r.message_id != msg.message_id).insert(msg)
}

/// A row that a range search for `query` in `[min_id, max_id]` returns.
pub open spec fn range_match(
    r: SearchResult,
    guild_id: i64,
    channel_id: i64,
    query: Seq<char>,
    min_id: i64,
    max_id: i64,
) -> bool {
    &&& r.guild_id == guild_id
    &&& r.channel_id == channel_id
    &&& min_id <= r.message_id <= max_id
    &&& is_substring(query, r.content@)
}

/// [`range_match`] as a predicate.
pub open spec fn range_pred(
    guild_id: i64,
    channel_id: i64,
    query: Seq<char>,
    min_id: i64,
    max_id: i64,
) -> spec_fn(SearchResult) -> bool {
    |r: SearchResult| range_match(r, guild_id, channel_id, query, min_id, max_id)
}

/// The archive: messages, sync ranges by channel, and the channels whose
/// messages are being archived.
pub struct Archive {
    rows: Vec<SearchResult>,
    sync_ranges: std::collections::HashMap<i64, Range>,
    caching: std::collections::HashSet<i64>,
}

impl Archive {
    /// The archived messages, newest first.
    pub closed spec fn rows(&self) -> Seq<SearchResult> {
        self.rows@
    }

    /// The archived messages as a set.
    pub open spec fn messages(&self) -> Set<SearchResult> {
        Set::new(|r: SearchResult| self.rows().contains(r))
    }

    /// The sync range of each channel that has one.
    pub closed spec fn sync_ranges(&self) -> Map<i64, Range> {
        self.sync_ranges@
    }

    /// The sync range of `channel_id` as an option.
    pub open spec fn sync_range_of(&self, channel_id: i64) -> Option<Range> {
        if self.sync_ranges().contains_key(channel_id) {
            Some(self.sync_ranges()[channel_id])
        } else {
            None
        }
    }

    /// The channels with caching enabled.
    pub closed spec fn caching(&self) -> Set<i64> {
        self.caching@
    }

    pub open spec fn wf(&self) -> bool {
        newest_first(self.rows())
    }

    /// An empty archive: no messages, no ranges, caching off everywhere.
    pub fn new() -> (r: Archive)
        ensures
            r.wf(),
            r.rows() == Seq::<SearchResult>::empty(),
            r.sync_ranges() == Map::<i64, Range>::empty(),
            r.caching() == Set::<i64>::empty(),
    {
        Archive {
            rows: Vec::new(),
            sync_ranges: std::collections::HashMap::new(),
            caching: std::collections::HashSet::new(),
        }
    }

    /// Index of the first row whose id is at most `id`.
    fn position_of(&self, id: i64) -> (r: usize)
        requires
            self.wf(),
        ensures
            r <= self.rows().len(),
            forall|j: int| 0 <= j < r ==> #[trigger] self.rows()[j].message_id > id,
            forall|j: int| r <= j < self.rows().len() ==> #[trigger] self.rows()[j].message_id <= id,
    {
        let mut lo: usize = 0;
        let mut hi: usize = self.rows.len();
        while lo < hi
            invariant
                lo <= hi <= self.rows@.len(),
                self.wf(),
                forall|j: int| 0 <= j < lo ==> #[trigger] self.rows@[j].message_id > id,
                forall|j: int| hi <= j < self.rows@.len() ==> #[trigger] self.rows@[j].message_id <= id,
            decreases hi - lo,
        {
            let mid = lo + (hi - lo) / 2;
            if self.rows[mid].message_id > id {
                lo = mid + 1;
            } else {
                hi = mid;
            }
        }
        lo
    }
}

/// Inserts `msg`, replacing the archived message with the same id if any.
pub fn insert_message(archive: &mut Archive, msg: SearchResult)
    requires
        old(archive).wf(),
    ensures
        final(archive).wf(),
        final(archive).messages() == upserted(old(archive).messages(), msg),
        final(archive).sync_ranges() == old(archive).sync_ranges(),
        final(archive).caching() == old(archive).caching(),
{
    let i = archive.position_of(msg.message_id);
    let ghost old_rows = archive.rows@;
    let ghost m = msg;
    if i < archive.rows.len() && archive.rows[i].message_id == msg.message_id {
        archive.rows.set(i, msg);
        let ghost new_rows = archive.rows@;
        assert(new_rows == old_rows.update(i as int, m));
        assert forall|r: SearchResult| #[trigger] new_rows.contains(r) <==> (r == m || (
        old_rows.contains(r) && r.message_id != m.message_id)) by {
            if new_rows.contains(r) {
                let k = choose|k: int| 0 <= k < new_rows.len() && new_rows[k] == r;
                if k != i {
                    assert(old_rows[k] == r);
                    if k < i {
                        assert(old_rows[k].message_id > old_rows[i as int].message_id);
                    } else {
                        assert(old_rows[i as int].message_id > old_rows[k].message_id);
                    }
                }
            }
            if r == m {
                assert(new_rows[i as int] == r);
            } else if old_rows.contains(r) && r.message_id != m.message_id {
                let k = choose|k: int| 0 <= k < old_rows.len() && old_rows[k] == r;
                assert(k != i);
                assert(new_rows[k] == r);
            }
        }
    } else {
        archive.rows.insert(i, msg);
        let ghost new_rows = archive.rows@;
        assert(new_rows == old_rows.insert(i as int, m));
        assert forall|r: SearchResult| #[trigger] new_rows.contains(r) <==> (r == m || (
        old_rows.contains(r) && r.message_id != m.message_id)) by {
            if new_rows.contains(r) {
                let k = choose|k: int| 0 <= k < new_rows.len() && new_rows[k] == r;
                if k < i {
                    assert(old_rows[k] == r);
                } else if k > i {
                    assert(old_rows[k - 1] == r);
                }
            }
            if r == m {
                assert(new_rows[i as int] == r);
            } else if old_rows.contains(r) && r.message_id != m.message_id {
                let k = choose|k: int| 0 <= k < old_rows.len() && old_rows[k] == r;
                if k < i {
                    assert(new_rows[k] == r);
                } else {
                    assert(new_rows[k + 1] == r);
                }
            }
        }
        assert forall|a: int, b: int| 0 <= a < b < new_rows.len() implies #[trigger] new_rows[a].message_id
            > #[trigger] new_rows[b].message_id by {
            if b < i {
            } else if a < i && b == i {
            } else if a < i {
                assert(new_rows[b] == old_rows[b - 1]);
            } else if a == i {
                assert(new_rows[b] == old_rows[b - 1]);
                assert(old_rows[i as int].message_id <= m.message_id);
            } else {
                assert(new_rows[a] == old_rows[a - 1]);
                assert(new_rows[b] == old_rows[b - 1]);
            }
        }
    }
    assert(archive.messages() =~= upserted(old(archive).messages(), m));
}

/// Every archived message of `channel_id` in guild `guild_id` whose id lies
/// in `[min_id, max_id]` and whose content contains `query`, newest first.
pub fn search_messages_range(
    archive: &Archive,
    guild_id: i64,
    channel_id: i64,
    query: &str,
    min_id: i64,
    max_id: i64,
) -> (r: Vec<SearchResult>)
    requires
        archive.wf(),
    ensures
        r@ == archive.rows().filter(range_pred(guild_id, channel_id, query@, min_id, max_id)),
        newest_first(r@),
{
    let ghost pred = range_pred(guild_id, channel_id, query@, min_id, max_id);
    let mut out: Vec<SearchResult> = Vec::new();
    let mut i: usize = 0;
    while i < archive.rows.len()
        invariant
            i <= archive.rows@.len(),
            archive.wf(),
            pred == range_pred(guild_id, channel_id, query@, min_id, max_id),
            out@ == archive.rows@.subrange(0, i as int).filter(pred),
            newest_first(out@),
            forall|k: int, j: int| 0 <= k < out@.len() && i <= j < archive.rows@.len()
                ==> #[trigger] out@[k].message_id > #[trigger] archive.rows@[j].message_id,
        decreases archive.rows@.len() - i,
    {
        let row = &archive.rows[i];
        proof {
            assert(archive.rows@.subrange(0, i + 1) =~= archive.rows@.subrange(0, i as int).push(
                archive.rows@[i as int],
            ));
            archive.rows@.subrange(0, i as int).lemma_filter_push(archive.rows@[i as int], pred);
        }
        let hit = row.guild_id == guild_id && row.channel_id == channel_id && min_id
            <= row.message_id && row.message_id <= max_id && text_contains(
            row.content.as_str(),
            query,
        );
        assert(hit == pred(archive.rows@[i as int]));
        if hit {
            out.push(row.duplicate());
        }
        i += 1;
    }
    assert(archive.rows@.subrange(0, archive.rows@.len() as int) =~= archive.rows@);
    out
}


/// `r` as archived under guild `guild_id`.
pub open spec fn in_guild(r: SearchResult, guild_id: i64) -> SearchResult {
    SearchResult { guild_id, ..r }
}

/// The rows after each of `msgs`, in order and set to guild `guild_id`, is
/// upserted into `rows`.
pub open spec fn upserted_all(rows: Set<SearchResult>, msgs: Seq<SearchResult>, guild_id: i64) -> Set<
    SearchResult,
>
    decreases msgs.len(),
{
    if msgs.len() == 0 {
        rows
    } else {
        upserted(upserted_all(rows, msgs.drop_last(), guild_id), in_guild(msgs.last(), guild_id))
    }
}

/// `r` with its content replaced when it is message `message_id`.
pub open spec fn edited(r: SearchResult, message_id: i64, content: String) -> SearchResult {
    if r.message_id == message_id {
        SearchResult { content, ..r }
    } else {
        r
    }
}

/// The part of `s` from position `offset`, at most `limit` items long.
pub open spec fn page(s: Seq<SearchResult>, limit: nat, offset: nat) -> Seq<SearchResult> {
    let from = if offset < s.len() { offset as int } else { s.len() as int };
    let to = if offset + limit < s.len() { (offset + limit) as int } else { s.len() as int };
    s.subrange(from, to)
}

/// Upserts each of `msgs` in order, archived under guild `guild_id`.
pub fn insert_messages(archive: &mut Archive, msgs: &Vec<SearchResult>, guild_id: i64)
    requires
        old(archive).wf(),
    ensures
        final(archive).wf(),
        final(archive).messages() == upserted_all(old(archive).messages(), msgs@, guild_id),
        final(archive).sync_ranges() == old(archive).sync_ranges(),
        final(archive).caching() == old(archive).caching(),
{
    let mut i: usize = 0;
    while i < msgs.len()
        invariant
            i <= msgs@.len(),
            archive.wf(),
            archive.messages() == upserted_all(
                old(archive).messages(),
                msgs@.subrange(0, i as int),
                guild_id,
            ),
            archive.sync_ranges() == old(archive).sync_ranges(),
            archive.caching() == old(archive).caching(),
        decreases msgs@.len() - i,
    {
        let mut m = msgs[i].duplicate();
        m.guild_id = guild_id;
        insert_message(archive, m);
        assert(msgs@.subrange(0, i + 1).drop_last() =~= msgs@.subrange(0, i as int));
        i += 1;
    }
    assert(msgs@.subrange(0, msgs@.len() as int) =~= msgs@);
}

/// Replaces the content of message `message_id` when `content` is given;
/// nothing else changes.
pub fn update_message(archive: &mut Archive, message_id: i64, content: Option<String>)
    requires
        old(archive).wf(),
    ensures
        final(archive).wf(),
        final(archive).rows() == match content {
            Some(c) => old(archive).rows().map_values(|r: SearchResult| edited(r, message_id, c)),
            None => old(archive).rows(),
        },
        final(archive).sync_ranges() == old(archive).sync_ranges(),
        final(archive).caching() == old(archive).caching(),
{
    if let Some(c) = content {
        let ghost old_rows = archive.rows@;
        let ghost cc = c;
        let i = archive.position_of(message_id);
        if i < archive.rows.len() && archive.rows[i].message_id == message_id {
            let mut row = archive.rows[i].duplicate();
            row.content = c;
            archive.rows.set(i, row);
            assert forall|k: int| 0 <= k < old_rows.len() && k != i implies #[trigger] old_rows[k].message_id
                != message_id by {
                if k < i {
                    assert(old_rows[k].message_id > old_rows[i as int].message_id);
                } else {
                    assert(old_rows[i as int].message_id > old_rows[k].message_id);
                }
            }
        }
        assert(archive.rows@ =~= old_rows.map_values(|r: SearchResult| edited(r, message_id, cc)));
    }
}

/// Removes message `message_id` if it is archived.
pub fn delete_message(archive: &mut Archive, message_id: i64)
    requires
        old(archive).wf(),
    ensures
        final(archive).wf(),
        final(archive).messages() == old(archive).messages().filter(
            |r: SearchResult| r.message_id != message_id,
        ),
        final(archive).sync_ranges() == old(archive).sync_ranges(),
        final(archive).caching() == old(archive).caching(),
{
    let ghost old_rows = archive.rows@;
    let i = archive.position_of(message_id);
    if i < archive.rows.len() && archive.rows[i].message_id == message_id {
        archive.rows.remove(i);
        let ghost new_rows = archive.rows@;
        assert(new_rows == old_rows.remove(i as int));
        assert forall|r: SearchResult| #[trigger] new_rows.contains(r) <==> (old_rows.contains(r)
            && r.message_id != message_id) by {
            if new_rows.contains(r) {
                let k = choose|k: int| 0 <= k < new_rows.len() && new_rows[k] == r;
                if k < i {
                    assert(old_rows[k] == r);
                } else {
                    assert(old_rows[k + 1] == r);
                }
            }
            if old_rows.contains(r) && r.message_id != message_id {
                let k = choose|k: int| 0 <= k < old_rows.len() && old_rows[k] == r;
                if k < i {
                    assert(new_rows[k] == r);
                } else {
                    assert(k != i);
                    assert(new_rows[k - 1] == r);
                }
            }
        }
        assert forall|a: int, b: int| 0 <= a < b < new_rows.len() implies #[trigger] new_rows[a].message_id
            > #[trigger] new_rows[b].message_id by {
            if b < i {
            } else if a < i {
                assert(new_rows[b] == old_rows[b + 1]);
            } else {
                assert(new_rows[a] == old_rows[a + 1]);
                assert(new_rows[b] == old_rows[b + 1]);
            }
        }
    }
    assert(archive.messages() =~= old(archive).messages().filter(
        |r: SearchResult| r.message_id != message_id,
    ));
}

/// Removes every archived message whose id is in `message_ids`.
pub fn delete_messages(archive: &mut Archive, message_ids: &Vec<i64>)
    requires
        old(archive).wf(),
    ensures
        final(archive).wf(),
        final(archive).messages() == old(archive).messages().filter(
            |r: SearchResult| !message_ids@.contains(r.message_id),
        ),
        final(archive).sync_ranges() == old(archive).sync_ranges(),
        final(archive).caching() == old(archive).caching(),
{
    let mut i: usize = 0;
    while i < message_ids.len()
        invariant
            i <= message_ids@.len(),
            archive.wf(),
            archive.messages() == old(archive).messages().filter(
                |r: SearchResult| !message_ids@.subrange(0, i as int).contains(r.message_id),
            ),
            archive.sync_ranges() == old(archive).sync_ranges(),
            archive.caching() == old(archive).caching(),
        decreases message_ids@.len() - i,
    {
        let id = message_ids[i];
        delete_message(archive, id);
        let ghost done = message_ids@.subrange(0, i + 1);
        let ghost prev = message_ids@.subrange(0, i as int);
        assert forall|x: i64| #[trigger] done.contains(x) <==> (prev.contains(x) || x == id) by {
            if done.contains(x) {
                let k = choose|k: int| 0 <= k < done.len() && done[k] == x;
                if k < i {
                    assert(prev[k] == x);
                }
            }
            if prev.contains(x) {
                let k = choose|k: int| 0 <= k < prev.len() && prev[k] == x;
                assert(done[k] == x);
            }
            if x == id {
                assert(done[i as int] == x);
            }
        }
        assert(archive.messages() =~= old(archive).messages().filter(
            |r: SearchResult| !done.contains(r.message_id),
        ));
        i += 1;
    }
    assert(message_ids@.subrange(0, message_ids@.len() as int) =~= message_ids@);
}

/// Removes every archived message of channel `channel_id`.
pub fn delete_channel_messages(archive: &mut Archive, channel_id: i64)
    requires
        old(archive).wf(),
    ensures
        final(archive).wf(),
        final(archive).messages() == old(archive).messages().filter(
            |r: SearchResult| r.channel_id != channel_id,
        ),
        final(archive).sync_ranges() == old(archive).sync_ranges(),
        final(archive).caching() == old(archive).caching(),
{
    let ghost old_rows = archive.rows@;
    let mut kept: Vec<SearchResult> = Vec::new();
    let mut i: usize = 0;
    while i < archive.rows.len()
        invariant
            i <= archive.rows@.len(),
            archive.rows@ == old_rows,
            newest_first(old_rows),
            newest_first(kept@),
            forall|k: int, j: int| 0 <= k < kept@.len() && i <= j < old_rows.len()
                ==> #[trigger] kept@[k].message_id > #[trigger] old_rows[j].message_id,
            forall|r: SearchResult| #[trigger] kept@.contains(r) <==> exists|j: int|
                0 <= j < i && old_rows[j] == r && r.channel_id != channel_id,
        decreases old_rows.len() - i,
    {
        if archive.rows[i].channel_id != channel_id {
            let row = archive.rows[i].duplicate();
            let ghost before = kept@;
            kept.push(row);
            assert forall|r: SearchResult| #[trigger] kept@.contains(r) <==> (before.contains(r)
                || r == old_rows[i as int]) by {
                if kept@.contains(r) {
                    let k = choose|k: int| 0 <= k < kept@.len() && kept@[k] == r;
                    if k < before.len() {
                        assert(before[k] == r);
                    }
                }
                if before.contains(r) {
                    let k = choose|k: int| 0 <= k < before.len() && before[k] == r;
                    assert(kept@[k] == r);
                }
                if r == old_rows[i as int] {
                    assert(kept@[before.len() as int] == r);
                }
            }
        }
        i += 1;
    }
    archive.rows = kept;
    assert(archive.messages() =~= old(archive).messages().filter(
        |r: SearchResult| r.channel_id != channel_id,
    ));
}

/// The archived messages of `channel_id` in guild `guild_id` whose content
/// contains `query`, newest first, from position `offset`, at most `limit`.
pub fn search_messages_like(
    archive: &Archive,
    guild_id: i64,
    channel_id: i64,
    query: &str,
    limit: u32,
    offset: u32,
) -> (r: Vec<SearchResult>)
    requires
        archive.wf(),
    ensures
        r@ == page(
            archive.rows().filter(range_pred(guild_id, channel_id, query@, i64::MIN, i64::MAX)),
            limit as nat,
            offset as nat,
        ),
{
    let all = search_messages_range(archive, guild_id, channel_id, query, i64::MIN, i64::MAX);
    let n = all.len();
    let from: usize = if (offset as usize) < n { offset as usize } else { n };
    let to: usize = if (offset as u64 + limit as u64) < n as u64 { offset as usize + limit as usize } else { n };
    let mut out: Vec<SearchResult> = Vec::new();
    let mut i: usize = from;
    while i < to
        invariant
            from <= i <= to <= all@.len(),
            out@ == all@.subrange(from as int, i as int),
        decreases to - i,
    {
        out.push(all[i].duplicate());
        assert(out@ =~= all@.subrange(from as int, i + 1));
        i += 1;
    }
    out
}

/// The smallest archived message id of `channel_id`, if it has any.
pub fn get_earliest_message_id(archive: &Archive, channel_id: i64) -> (r: Option<i64>)
    requires
        archive.wf(),
    ensures
        r is None <==> forall|k: int| 0 <= k < archive.rows().len() ==> #[trigger] archive.rows()[k].channel_id != channel_id,
        r matches Some(id) ==> (exists|k: int| 0 <= k < archive.rows().len() && #[trigger] archive.rows()[k].channel_id == channel_id
            && archive.rows()[k].message_id == id),
        r matches Some(id) ==> (forall|k: int| 0 <= k < archive.rows().len() && #[trigger] archive.rows()[k].channel_id == channel_id
            ==> id <= archive.rows()[k].message_id),
{
    let mut i: usize = archive.rows.len();
    while i > 0
        invariant
            i <= archive.rows@.len(),
            archive.wf(),
            forall|k: int| i <= k < archive.rows@.len() ==> #[trigger] archive.rows@[k].channel_id != channel_id,
        decreases i,
    {
        i -= 1;
        if archive.rows[i].channel_id == channel_id {
            assert(archive.rows()[i as int].channel_id == channel_id);
            assert forall|k: int| 0 <= k < archive.rows().len() && #[trigger] archive.rows()[k].channel_id
                == channel_id implies archive.rows()[i as int].message_id <= archive.rows()[k].message_id by {
                if k < i {
                    assert(archive.rows()[k].message_id > archive.rows()[i as int].message_id);
                }
            }
            return Some(archive.rows[i].message_id);
        }
    }
    None
}

/// The sync range of `channel_id`, if it has one.
pub fn get_sync_range(archive: &Archive, channel_id: i64) -> (r: Option<Range>)
    ensures
        r == archive.sync_range_of(channel_id),
{
    broadcast use group_hash_axioms;
    match archive.sync_ranges.get(&channel_id) {
        Some(r) => Some(*r),
        None => None,
    }
}

/// Records that `[min_id, max_id]` of `channel_id` is archived: the sync
/// range becomes the bounding interval of the old one and the new span.
pub fn add_sync_range(archive: &mut Archive, channel_id: i64, min_id: i64, max_id: i64) -> (r: Range)
    requires
        old(archive).wf(),
    ensures
        final(archive).wf(),
        r == extended(old(archive).sync_range_of(channel_id), min_id, max_id),
        final(archive).sync_ranges() == old(archive).sync_ranges().insert(channel_id, r),
        final(archive).rows() == old(archive).rows(),
        final(archive).caching() == old(archive).caching(),
{
    broadcast use group_hash_axioms;
    let current = get_sync_range(archive, channel_id);
    let r = extend_range(current, min_id, max_id);
    archive.sync_ranges.insert(channel_id, r);
    r
}

/// Whether messages of `channel_id` are being archived.
pub fn is_channel_caching_enabled(archive: &Archive, channel_id: i64) -> (r: bool)
    ensures
        r == archive.caching().contains(channel_id),
{
    broadcast use group_hash_axioms;
    archive.caching.contains(&channel_id)
}

/// Turns archiving of `channel_id` on or off. Turning it off also removes
/// the channel's messages and its sync range.
pub fn set_channel_caching(archive: &mut Archive, channel_id: i64, enabled: bool)
    requires
        old(archive).wf(),
    ensures
        final(archive).wf(),
        enabled ==> final(archive).caching() == old(archive).caching().insert(channel_id),
        enabled ==> final(archive).rows() == old(archive).rows(),
        enabled ==> final(archive).sync_ranges() == old(archive).sync_ranges(),
        !enabled ==> final(archive).caching() == old(archive).caching().remove(channel_id),
        !enabled ==> final(archive).messages() == old(archive).messages().filter(
            |r: SearchResult| r.channel_id != channel_id,
        ),
        !enabled ==> final(archive).sync_ranges() == old(archive).sync_ranges().remove(channel_id),
{
    broadcast use group_hash_axioms;
    if enabled {
        archive.caching.insert(channel_id);
    } else {
        archive.caching.remove(&channel_id);
        delete_channel_messages(archive, channel_id);
        archive.sync_ranges.remove(&channel_id);
    }
}

} // verus!
