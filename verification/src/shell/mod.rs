//! What is asked of the device's shell, and what its answers mean.

pub mod command;
pub mod device;
pub mod lx06_audio;
pub mod speaker;
