//! Wire formats and packet logic of a small Minecraft server: VarInt framing,
//! binary readers and writers, packet parsing and the status and login replies.

pub mod error;
pub mod util;
pub mod types;
pub mod protocol;
pub mod chat;
pub mod server;
