//! Closed intervals of message ids that are known to be fully archived.
use vstd::prelude::*;

verus! {

/// The closed interval `[start, end]` of message ids.
#[derive(Clone, Copy, Debug, PartialEq, Eq, Structural)]
pub struct Range {
    pub start: i64,
    pub end: i64,
}

/// `outer` includes every id of `inner`.
pub open spec fn covers(outer: Range, inner: Range) -> bool {
    outer.start <= inner.start && inner.end <= outer.end
}

pub open spec fn min_i64(a: i64, b: i64) -> i64 {
    if a <= b { a } else { b }
}

pub open spec fn max_i64(a: i64, b: i64) -> i64 {
    if a >= b { a } else { b }
}

/// The bounding interval of a range and `[min_id, max_id]`.
pub open spec fn widened(r: Range, min_id: i64, max_id: i64) -> Range {
    Range { start: min_i64(r.start, min_id), end: max_i64(r.end, max_id) }
}

/// What a channel's sync range becomes after the span `[min_id, max_id]` is
/// archived: the span itself when the channel had none, else the bounding
/// interval of both.
pub open spec fn extended(old: Option<Range>, min_id: i64, max_id: i64) -> Range {
    match old {
        Some(r) => widened(r, min_id, max_id),
        None => Range { start: min_id, end: max_id },
    }
}

/// The live range after a new message `id` arrives: its lower bound only
/// moves down, its upper bound is the new message.
pub open spec fn live_after(old: Option<Range>, id: i64) -> Range {
    match old {
        Some(r) => Range { start: min_i64(r.start, id), end: id },
        None => Range { start: id, end: id },
    }
}

impl Range {
    pub fn new(start: i64, end: i64) -> (r: Range)
        ensures
            r.start == start,
            r.end == end,
    {
        Range { start, end }
    }

    /// Whether `id` lies in the closed interval.
    pub fn contains(&self, id: i64) -> (r: bool)
        ensures
            r == (self.start <= id && id <= self.end),
    {
        self.start <= id && id <= self.end
    }

    /// The bounding interval of `self` and `[min_id, max_id]`.
    pub fn widen(&self, min_id: i64, max_id: i64) -> (r: Range)
        ensures
            r == widened(*self, min_id, max_id),
    {
        let start = if self.start <= min_id { self.start } else { min_id };
        let end = if self.end >= max_id { self.end } else { max_id };
        Range { start, end }
    }
}

/// See [`extended`].
pub fn extend_range(old: Option<Range>, min_id: i64, max_id: i64) -> (r: Range)
    ensures
        r == extended(old, min_id, max_id),
{
    match old {
        Some(r) => r.widen(min_id, max_id),
        None => Range::new(min_id, max_id),
    }
}

/// See [`live_after`].
pub fn next_live_range(old: Option<Range>, id: i64) -> (r: Range)
    ensures
        r == live_after(old, id),
{
    match old {
        Some(r) => {
            let start = if r.start <= id { r.start } else { id };
            Range::new(start, id)
        },
        None => Range::new(id, id),
    }
}

} // verus!
