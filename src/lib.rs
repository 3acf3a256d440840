//! Incremental retrieval of new feed items: feed parsing, identifier
//! extraction, the download ledger and the per-item download protocol.

pub mod feed;
pub mod ledger;
pub mod orchestrator;
pub mod string_set;
pub mod sweep;
pub mod text;
pub mod video_id;
