//! The orchestration of the process: peers, sessions, commands, supervision.

pub mod capabilities;
pub mod commands;
pub mod fanout;
pub mod peer_context;
pub mod peer_media;
pub mod peer_table;
pub mod session;
pub mod supervisor;
pub mod ws_ingress;
pub mod ws_peer_hub;
