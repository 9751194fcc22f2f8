//! An in-memory index of per-title download statistics, built from files
//! named `<TID>_downloads.json`.

pub mod counts;
pub mod index;
pub mod json;
pub mod laws;
pub mod orchestrator;
pub mod stats;
pub mod tid;

pub use tid::{Classification, classify, base_tid, tid_from_file_name};
pub use index::{GameIndex, IndexedGame};
pub use json::Json;
pub use stats::{DecodeError, StatsRecord, decode, decode_stats};
