//! Document tools: which ones are enabled and which files each handles.

pub mod manager;
pub mod markdown;
pub mod pdf;
pub mod docx;
pub mod pptx;
