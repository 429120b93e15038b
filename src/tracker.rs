//! The range tracker: the live range of each channel, held in a concurrent
//! map so that ingestion and searches share it.
use vstd::prelude::*;
use dashmap::DashMap;
use crate::range::{extend_range, extended, live_after, next_live_range, Range};

verus! {

#[verifier::external_type_specification]
#[verifier::external_body]
#[verifier::reject_recursive_types(K)]
#[verifier::reject_recursive_types(V)]
#[verifier::reject_recursive_types(S)]
pub struct ExDashMap<K, V, S>(DashMap<K, V, S>);

/// Live ranges by channel id.
pub type LiveMap = DashMap<i64, Range>;

/// The entries of a map of live ranges, by channel id.
pub uninterp spec fn live_entries(m: LiveMap) -> Map<i64, Range>;

/// Relies on `DashMap::new`: the map starts with no entries.
#[verifier::external_body]
fn map_new() -> (r: LiveMap)
    ensures
        live_entries(r).dom() == Set::<i64>::empty(),
{
    DashMap::new()
}

/// Relies on `DashMap::get`: the value stored under `key`, if any.
#[verifier::external_body]
fn map_get(m: &LiveMap, key: i64) -> (r: Option<Range>)
    ensures
        r == (if live_entries(*m).contains_key(key) {
            Some(live_entries(*m)[key])
        } else {
            None
        }),
{
    m.get(&key).map(|e| *e)
}

/// Relies on `DashMap::insert`: `key` now maps to `value`, other keys are
/// untouched.
#[verifier::external_body]
fn map_insert(m: &mut LiveMap, key: i64, value: Range)
    ensures
        live_entries(*final(m)) == live_entries(*old(m)).insert(key, value),
{
    m.insert(key, value);
}

/// Relies on `DashMap::remove`: `key` no longer has an entry, other keys
/// are untouched.
#[verifier::external_body]
fn map_remove(m: &mut LiveMap, key: i64)
    ensures
        live_entries(*final(m)) == live_entries(*old(m)).remove(key),
{
    m.remove(&key);
}

/// The live range of each channel seen since start-up.
pub struct RangeTracker {
    ranges: LiveMap,
}

impl RangeTracker {
    /// The live range of each channel that has one.
    pub closed spec fn entries(&self) -> Map<i64, Range> {
        live_entries(self.ranges)
    }

    /// The live range of `channel_id` as an option.
    pub open spec fn entry(&self, channel_id: i64) -> Option<Range> {
        if self.entries().contains_key(channel_id) {
            Some(self.entries()[channel_id])
        } else {
            None
        }
    }

    /// A tracker with no live ranges.
    pub fn new() -> (r: RangeTracker)
        ensures
            r.entries().dom() == Set::<i64>::empty(),
    {
        RangeTracker { ranges: map_new() }
    }

    /// The live range of `channel_id`, if it has one.
    pub fn get(&self, channel_id: i64) -> (r: Option<Range>)
        ensures
            r == self.entry(channel_id),
    {
        map_get(&self.ranges, channel_id)
    }

    /// Sets the live range of `channel_id`.
    pub fn set(&mut self, channel_id: i64, range: Range)
        ensures
            final(self).entries() == old(self).entries().insert(channel_id, range),
    {
        map_insert(&mut self.ranges, channel_id, range);
    }

    /// Drops the live range of `channel_id`.
    pub fn forget(&mut self, channel_id: i64)
        ensures
            final(self).entries() == old(self).entries().remove(channel_id),
    {
        map_remove(&mut self.ranges, channel_id);
    }

    /// Widens the live range of `channel_id` to also cover `range`: the
    /// entry becomes the bounding interval of its current value and
    /// `range` (just `range` when the channel has none), so a value written
    /// meanwhile is never narrowed. Returns the new entry.
    pub fn merge(&mut self, channel_id: i64, range: Range) -> (r: Range)
        ensures
            r == extended(old(self).entry(channel_id), range.start, range.end),
            final(self).entries() == old(self).entries().insert(channel_id, r),
    {
        let current = self.get(channel_id);
        let r = extend_range(current, range.start, range.end);
        self.set(channel_id, r);
        r
    }

    /// Records a new message `message_id` of `channel_id`: the live range
    /// becomes `[min(start, message_id), message_id]`, or `[message_id,
    /// message_id]` for a channel without one. Returns the new range.
    pub fn widen_live(&mut self, channel_id: i64, message_id: i64) -> (r: Range)
        ensures
            r == live_after(old(self).entry(channel_id), message_id),
            final(self).entries() == old(self).entries().insert(channel_id, r),
    {
        let current = self.get(channel_id);
        let r = next_live_range(current, message_id);
        self.set(channel_id, r);
        r
    }
}

} // verus!
