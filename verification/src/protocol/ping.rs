use vstd::prelude::*;
use crate::protocol::response::PacketSerializable;
use crate::util::binary::le_bytes;
use crate::util::writer::{frame, PacketWriter};

verus! {

/// A player shown in the server list.
pub struct PlayerSample {
    name: String,
    id: String,
}

/// The player counts of the server list entry.
pub struct ServerListPingPlayers {
    max: i32,
    online: i32,
    sample: Vec<PlayerSample>,
}

/// The version of the server list entry.
pub struct ServerListPingVersion {
    name: String,
    protocol: i32,
}

/// The server list entry.
pub struct ServerListPing {
    version: ServerListPingVersion,
    players: ServerListPingPlayers,
    description: String,
    favicon: String,
}

/// Answers to a status request.
pub enum ResponsePacket {
    Pong { payload: i64 },
}

/// The body of a pong: id 1, then the payload's eight little-endian bytes.
pub open spec fn pong_body(payload: i64) -> Seq<u8> {
    le_bytes(1u8 as u128, 1) + le_bytes(payload as u128, 8)
}

impl PacketSerializable for ResponsePacket {
    open spec fn spec_serialize(&self) -> Seq<u8> {
        match self {
            ResponsePacket::Pong { payload } => frame(pong_body(*payload)),
        }
    }

    /// The framed answer, framed by `util::writer`'s `PacketWriter`.
    fn serialize(&self) -> (r: Vec<u8>) {
        let mut writer = PacketWriter::new();

        match self {
            ResponsePacket::Pong { payload } => {
                writer.write(0x01 as u8);
                writer.write(*payload);
            },
        }

        writer.bytes()
    }
}

} // verus!
