//! Restore of a chunked, cryptographically authenticated transaction backup:
//! manifest discovery and contiguity checking, per-chunk record framing and
//! authentication, strictly ordered delivery under concurrent loading, the
//! split between raw persistence and replay, and batched replay accounting.

pub mod errors;
pub mod manifest;
pub mod records;
pub mod chunk;
pub mod discovery;
pub mod splitter;
pub mod replay;
pub mod reorder;
pub mod controller;
