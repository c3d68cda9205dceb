//! Single-line version-control status summaries for shell prompts.
//!
//! The crate turns a structural snapshot of the working copy (change
//! identifier, bookmarks with their ancestor distance, status flags) into an
//! exact, deterministic prompt string, and provides the bounded ancestor
//! search and classification logic that builds such a snapshot.

pub mod color;
pub mod config;
pub mod git;
pub mod heads;
pub mod jj;
pub mod laws;
pub mod output;
pub mod search;
pub mod strutil;
