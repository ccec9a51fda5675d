//! What travels over a WebSocket, and what is done with it.

pub mod data;
pub mod json;
pub mod registry;
pub mod router;
pub mod settled;
