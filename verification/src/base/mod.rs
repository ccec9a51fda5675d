//! What everything else rests on.

pub mod debug;
