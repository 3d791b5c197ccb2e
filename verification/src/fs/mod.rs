//! File system browsing: entries, their display and their order.

pub mod browser;
pub mod calendar;
pub mod operations;
