//! Verified parsing of unified-diff text into structured change blocks.
//!
//! The core of this crate turns raw `git diff` output into per-file lists of
//! contiguous change blocks, with old-file/new-file line-number bookkeeping,
//! deletion grouping and anchor placement, as used by an editor front-end to
//! render inline diff widgets and anchor review comments.

pub mod diff;
pub mod github;
pub mod localdiff;
pub mod text;
