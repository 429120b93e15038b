//! The ingestion path: applying live message notifications to the archive
//! and the live ranges.
use vstd::prelude::*;
use crate::database::{
    add_sync_range, delete_message, delete_messages, insert_message, is_channel_caching_enabled,
    set_channel_caching, update_message, upserted, Archive, SearchResult,
};
use crate::range::{extended, live_after, Range};
use crate::tracker::RangeTracker;

verus! {

/// A live notification about a channel's messages.
pub enum CacheEvent {
    /// A new message; `in_guild` is false for a direct message, `from_bot`
    /// when an automated account wrote it.
    Created { message: SearchResult, in_guild: bool, from_bot: bool },
    /// A message was edited; `content` is absent when the edit left the
    /// text alone.
    Updated { channel_id: i64, message_id: i64, content: Option<String> },
    Deleted { channel_id: i64, message_id: i64 },
    BulkDeleted { channel_id: i64, message_ids: Vec<i64> },
    /// Anything that does not concern archived messages.
    Other,
}

/// What applying an event did.
#[derive(Clone, Copy, Debug, PartialEq, Eq, Structural)]
pub enum CacheEffect {
    /// Nothing changed.
    Ignored,
    /// A new message was recorded; the channel's sync range is now `sync`.
    Archived { sync: Range },
    /// Content of an archived message was replaced (if it was archived).
    Edited,
    /// Archived messages were removed (those that were archived).
    Removed,
}

/// The channel an event concerns, if it concerns archived messages.
pub open spec fn event_channel(event: CacheEvent) -> Option<i64> {
    match event {
        CacheEvent::Created { message, .. } => Some(message.channel_id),
        CacheEvent::Updated { channel_id, .. } => Some(channel_id),
        CacheEvent::Deleted { channel_id, .. } => Some(channel_id),
        CacheEvent::BulkDeleted { channel_id, .. } => Some(channel_id),
        CacheEvent::Other => None,
    }
}

/// Whether [`handle_cache_event`] would change anything for `event`: it
/// concerns archived messages of a channel with caching on, and is not a
/// new message from an automated account.
pub open spec fn event_applies(archive: Archive, event: CacheEvent) -> bool {
    &&& event_channel(event) matches Some(ch)
    &&& archive.caching().contains(ch)
    &&& !(event matches CacheEvent::Created { from_bot, .. } && from_bot)
}

/// See [`event_applies`].
pub fn cache_event_applies(archive: &Archive, event: &CacheEvent) -> (r: bool)
    ensures
        r == event_applies(*archive, *event),
{
    let channel_id = match event {
        CacheEvent::Created { message, from_bot, .. } => {
            if *from_bot {
                return false;
            }
            message.channel_id
        },
        CacheEvent::Updated { channel_id, .. } => *channel_id,
        CacheEvent::Deleted { channel_id, .. } => *channel_id,
        CacheEvent::BulkDeleted { channel_id, .. } => *channel_id,
        CacheEvent::Other => {
            return false;
        },
    };
    is_channel_caching_enabled(archive, channel_id)
}

/// Applies one live notification. Events of channels without caching, and
/// new messages from automated accounts, change nothing. A new message is
/// archived (when it belongs to a guild), the channel's live range is
/// widened to it and the sync range is extended over the live range. Edits
/// replace content; deletions remove rows and never shrink a range.
pub fn handle_cache_event(archive: &mut Archive, tracker: &mut RangeTracker, event: CacheEvent) -> (r:
    CacheEffect)
    requires
        old(archive).wf(),
    ensures
        final(archive).wf(),
        final(archive).caching() == old(archive).caching(),
        match event_channel(event) {
            Some(ch) => old(archive).caching().contains(ch),
            None => false,
        } || r == CacheEffect::Ignored,
        r == CacheEffect::Ignored ==> *final(archive) == *old(archive) && *final(tracker) == *old(tracker),
        r == CacheEffect::Ignored <==> !event_applies(*old(archive), event),
        match event {
            CacheEvent::Created { message, in_guild, from_bot } => {
                let ch = message.channel_id;
                let live = live_after(old(tracker).entry(ch), message.message_id);
                let sync = extended(old(archive).sync_range_of(ch), live.start, live.end);
                if !old(archive).caching().contains(ch) || from_bot {
                    r == CacheEffect::Ignored
                } else {
                    &&& r == (CacheEffect::Archived { sync })
                    &&& final(tracker).entries() == old(tracker).entries().insert(ch, live)
                    &&& final(archive).sync_ranges() == old(archive).sync_ranges().insert(ch, sync)
                    &&& in_guild ==> final(archive).messages() == upserted(
                        old(archive).messages(),
                        message,
                    )
                    &&& !in_guild ==> final(archive).rows() == old(archive).rows()
                }
            },
            CacheEvent::Updated { channel_id, message_id, content } => {
                old(archive).caching().contains(channel_id) ==> {
                    &&& r == CacheEffect::Edited
                    &&& *final(tracker) == *old(tracker)
                    &&& final(archive).sync_ranges() == old(archive).sync_ranges()
                    &&& final(archive).rows() == match content {
                        Some(c) => old(archive).rows().map_values(
                            |x: SearchResult| crate::database::edited(x, message_id, c),
                        ),
                        None => old(archive).rows(),
                    }
                }
            },
            CacheEvent::Deleted { channel_id, message_id } => {
                old(archive).caching().contains(channel_id) ==> {
                    &&& r == CacheEffect::Removed
                    &&& *final(tracker) == *old(tracker)
                    &&& final(archive).sync_ranges() == old(archive).sync_ranges()
                    &&& final(archive).messages() == old(archive).messages().filter(
                        |x: SearchResult| x.message_id != message_id,
                    )
                }
            },
            CacheEvent::BulkDeleted { channel_id, message_ids } => {
                old(archive).caching().contains(channel_id) ==> {
                    &&& r == CacheEffect::Removed
                    &&& *final(tracker) == *old(tracker)
                    &&& final(archive).sync_ranges() == old(archive).sync_ranges()
                    &&& final(archive).messages() == old(archive).messages().filter(
                        |x: SearchResult| !message_ids@.contains(x.message_id),
                    )
                }
            },
            CacheEvent::Other => r == CacheEffect::Ignored,
        },
{
    let channel_id = match &event {
        CacheEvent::Created { message, .. } => message.channel_id,
        CacheEvent::Updated { channel_id, .. } => *channel_id,
        CacheEvent::Deleted { channel_id, .. } => *channel_id,
        CacheEvent::BulkDeleted { channel_id, .. } => *channel_id,
        CacheEvent::Other => {
            return CacheEffect::Ignored;
        },
    };
    if !is_channel_caching_enabled(archive, channel_id) {
        return CacheEffect::Ignored;
    }
    match event {
        CacheEvent::Created { message, in_guild, from_bot } => {
            if from_bot {
                return CacheEffect::Ignored;
            }
            let message_id = message.message_id;
            if in_guild {
                insert_message(archive, message);
            }
            let live = tracker.widen_live(channel_id, message_id);
            let sync = add_sync_range(archive, channel_id, live.start, live.end);
            CacheEffect::Archived { sync }
        },
        CacheEvent::Updated { message_id, content, .. } => {
            update_message(archive, message_id, content);
            CacheEffect::Edited
        },
        CacheEvent::Deleted { message_id, .. } => {
            delete_message(archive, message_id);
            CacheEffect::Removed
        },
        CacheEvent::BulkDeleted { message_ids, .. } => {
            delete_messages(archive, &message_ids);
            CacheEffect::Removed
        },
        CacheEvent::Other => CacheEffect::Ignored,
    }
}

/// Turns archiving of `channel_id` on or off. Turning it off removes the
/// channel's messages, its sync range and its live range.
pub fn configure_caching(
    archive: &mut Archive,
    tracker: &mut RangeTracker,
    channel_id: i64,
    enabled: bool,
)
    requires
        old(archive).wf(),
    ensures
        final(archive).wf(),
        enabled ==> final(archive).caching() == old(archive).caching().insert(channel_id),
        enabled ==> final(archive).rows() == old(archive).rows(),
        enabled ==> final(archive).sync_ranges() == old(archive).sync_ranges(),
        enabled ==> *final(tracker) == *old(tracker),
        !enabled ==> final(archive).caching() == old(archive).caching().remove(channel_id),
        !enabled ==> final(archive).messages() == old(archive).messages().filter(
            |r: SearchResult| r.channel_id != channel_id,
        ),
        !enabled ==> final(archive).sync_ranges() == old(archive).sync_ranges().remove(channel_id),
        !enabled ==> final(tracker).entries() == old(tracker).entries().remove(channel_id),
{
    set_channel_caching(archive, channel_id, enabled);
    if !enabled {
        tracker.forget(channel_id);
    }
}

} // verus!
