//! The decisions behind the main window.

pub mod window;
