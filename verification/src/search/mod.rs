//! Searching file contents.

pub mod content;
