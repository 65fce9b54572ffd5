//! Media import library.
//!
//! Classifies candidate files by extension against a case-insensitive
//! allow-list, resolves a capture timestamp for each file (embedded metadata
//! first, filesystem timestamp as fallback), maps the timestamp to a dated
//! destination path of the form `root/YYYY/YYYY-MM-DD/name`, and keeps
//! deduplicated bookkeeping of created directories and per-file outcomes.

pub mod calendar;
pub mod classify;
pub mod coordinate;
pub mod parse;
pub mod registry;
pub mod pathmap;
pub mod resolve;
