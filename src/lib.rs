//! Searching a chat channel's history: an archive of messages with
//! known-complete id ranges, live ingestion of message events, and a
//! paged search session that backfills older history on demand.
pub mod database;
pub mod engine;
pub mod ingest;
pub mod laws;
pub mod range;
pub mod render;
pub mod text;
pub mod tracker;
pub mod version;
