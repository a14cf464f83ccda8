//! Session transcript indexing and search.
//!
//! The crate normalizes heterogeneous agent-transcript files (line-delimited
//! JSON, single JSON documents, or lightweight Markdown) into one canonical
//! message model, keeps a SQLite full-text index in step with a directory
//! tree of transcripts, and answers ranked search queries over sessions and
//! individual messages.

pub mod doctor;
pub mod index;
pub mod json;
pub mod model;
pub mod parse;
pub mod query;
pub mod scan;
pub mod session;
pub mod stats;
pub mod text;
pub mod util;
