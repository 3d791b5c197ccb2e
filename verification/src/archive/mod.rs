//! Archives browsed like folders.

pub mod virtual_fs;
