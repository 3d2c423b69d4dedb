//! Removes templating tags (default shape `{{...}}`) from the content
//! streams of a PDF document while preserving the page layout: every match
//! is replaced by a run of spaces of exactly the same byte length, and the
//! owning stream's metadata is updated to stay consistent with the new
//! payload.

pub mod counts;
pub mod doc;
pub mod pattern;
pub mod rewrite;
pub mod text;
