//! Playing and recording sound.

pub mod config;
pub mod player;
pub mod recorder;
