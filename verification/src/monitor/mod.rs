//! Watching the device for things to report.

pub mod file;
pub mod instruction;
pub mod kws;
pub mod playing;
