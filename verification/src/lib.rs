pub mod app;
pub mod audio;
pub mod base;
pub mod config;
pub mod monitor;
pub mod protocol;
pub mod shell;
pub mod text;
pub mod transport;
