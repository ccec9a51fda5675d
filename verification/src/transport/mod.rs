//! Everything between the session and one WebSocket: bounded queues, the
//! message vocabulary, the frame codec and the per-peer writer.

pub mod codec;
pub mod control;
pub mod handshake;
pub mod outbox;
pub mod queue;
pub mod ws_pump;
