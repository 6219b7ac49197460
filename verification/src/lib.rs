//! A verified core for a plain-text task ledger kept in markdown.
//!
//! A current document is scanned section by section; lines marked as worked-on
//! or completed are extracted into journal and archive line sequences, and the
//! side documents are merged with a regenerated front-matter header. All of
//! the line-level logic is specified and proved here; reading the clock and
//! touching the file system are left to the surrounding program.

pub mod classifier;
pub mod filenames;
pub mod merger;
pub mod notes_utils;
pub mod stamp;
pub mod text;
