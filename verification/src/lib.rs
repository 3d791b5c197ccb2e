//! felix: the verified core of a lightweight file manager.

pub mod text;
pub mod path;
pub mod fs;
pub mod ui;
pub mod tools;
pub mod config;
pub mod archive;
pub mod viewers;
pub mod search;
