//! Rendering of search results for delivery: a title line and a body line
//! per result.
use vstd::prelude::*;
use crate::database::{link_text, SearchResult};
use crate::text::{prefix_chars, substr};

verus! {

/// Most characters of a message's content shown in a result.
pub const PREVIEW_CHARS: usize = 50;

/// The UTC calendar date and time of a Unix timestamp in seconds, written
/// `YYYY-MM-DD HH:MM:SS` (the epoch for a timestamp out of range).
pub uninterp spec fn utc_text(secs: i64) -> Seq<char>;

/// Relies on chrono's `DateTime::from_timestamp` (out of range gives none,
/// replaced by the epoch) and `format` with `%Y-%m-%d %H:%M:%S`: the text
/// depends on the timestamp alone.
#[verifier::external_body]
fn format_utc(secs: i64) -> (r: String)
    ensures
        r@ == utc_text(secs),
{
    chrono::DateTime::from_timestamp(secs, 0).unwrap_or_default().format("%Y-%m-%d %H:%M:%S").to_string()
}

/// A Unix timestamp in seconds as UTC date and time.
pub fn timestamp_to_readable(secs: i64) -> (r: String)
    ensures
        r@ == utc_text(secs),
{
    format_utc(secs)
}

/// The title line of a result: author, a tab, then the time.
pub open spec fn title_text(author: Seq<char>, time: Seq<char>) -> Seq<char> {
    author + seq!['\t'] + time
}

/// The body line of a result: the content preview as a link to the message.
pub open spec fn body_text(row: SearchResult) -> Seq<char> {
    "["@ + prefix_chars(row.content@, PREVIEW_CHARS as nat) + "]("@ + link_text(
        row.guild_id,
        row.channel_id,
        row.message_id,
    ) + ")\n"@
}

/// The title line of `row`, given the rendered time of the message.
pub fn result_title(row: &SearchResult, time: &str) -> (r: String)
    ensures
        r@ == title_text(row.author_name@, time@),
{
    let mut out = row.author_name.clone();
    out.append("\t");
    out.append(time);
    proof {
        reveal_strlit("\t");
    }
    assert(out@ =~= title_text(row.author_name@, time@));
    out
}

/// The body line of `row`.
pub fn result_body(row: &SearchResult) -> (r: String)
    ensures
        r@ == body_text(*row),
{
    let mut out = String::from_str("[");
    out.append(substr(row.content.as_str(), PREVIEW_CHARS));
    out.append("](");
    let link = row.link();
    out.append(link.as_str());
    out.append(")\n");
    assert(out@ =~= body_text(*row));
    out
}

/// The title and body lines of `row`.
pub fn result_field(row: &SearchResult) -> (r: (String, String))
    ensures
        r.0@ == title_text(row.author_name@, utc_text(row.created_at)),
        r.1@ == body_text(*row),
{
    let time = timestamp_to_readable(row.created_at);
    (result_title(row, time.as_str()), result_body(row))
}

} // verus!
