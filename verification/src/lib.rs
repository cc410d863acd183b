//! Server-side engine of a room-based text relay.
//!
//! The crate holds the verified core: the wire protocol shapes exchanged with
//! clients, the bounded lossy broadcast log of a chat room, the name-keyed
//! room registry, the per-connection session actor that turns client commands
//! into registry updates and replies, and the client-side command parser.
//! Transport, framing and terminal handling live outside this crate and hand
//! it plain values.

pub mod backend;
pub mod commands;
pub mod communication;
pub mod handler;
