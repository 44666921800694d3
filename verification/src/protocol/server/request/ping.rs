use vstd::prelude::*;
use crate::error::{Error, ErrorKind, Result};
use crate::protocol::server::packet::{DedeserializePacket, Packet};
use crate::util::binary::{be_bytes, is_error, lemma_be_bytes_i64, number_at, BinaryReader, Read};

verus! {

broadcast use vstd::layout::layout_of_primitives;

/// What a client sends while asking for the server's status.
pub enum PingPacket {
    Ping { payload: i64 },
    ServerListPing(),
}

/// Reading a status request from a packet's id and data: id 0 asks for the
/// server list entry; id 1 is a ping carrying a big-endian `i64`.
pub open spec fn ping_at(id: i32, data: Seq<u8>) -> Read<PingPacket> {
    if id == 0 {
        Read::Done(PingPacket::ServerListPing(), 0)
    } else if id == 1 {
        match number_at::<i64>(data, 0) {
            Read::Done(v, p) => Read::Done(PingPacket::Ping { payload: v }, p),
            Read::Fail(k, m, p) => Read::Fail(k, m, p),
        }
    } else {
        Read::Fail(ErrorKind::BrokenPacket, "Broken Packet"@, 0)
    }
}

/// A ping reads back its payload: for any `i64` `p`, data that starts with the
/// eight big-endian bytes of `p` reads as the number `p`, and a packet with id
/// 1 and that data is a ping carrying `p`, whatever follows; a packet with id
/// 0 asks for the server list entry, whatever its data.
pub proof fn lemma_ping_payload(p: i64, rest: Seq<u8>)
    ensures
        ping_at(0, rest) == Read::Done(PingPacket::ServerListPing(), 0),
        number_at::<i64>(be_bytes(p as u128, 8) + rest, 0) == Read::Done(p, 8),
        ping_at(1, be_bytes(p as u128, 8) + rest) == Read::Done(PingPacket::Ping { payload: p }, 8),
{
    let b = be_bytes(p as u128, 8);
    assert((b + rest).subrange(0, 8) =~= b);
    lemma_be_bytes_i64(p);
}

impl DedeserializePacket for PingPacket {
    open spec fn accepts(packet: &Packet) -> bool {
        true
    }

    /// Reads a status request, as `ping_at` says.
    fn deserialize(packet: Packet) -> (res: Result<Self>)
        ensures
            match ping_at(packet.id, packet.data@) {
                Read::Done(p, _) => res == Ok::<PingPacket, Error>(p),
                Read::Fail(k, m, _) => res matches Err(e) && is_error(e, k, m),
            },
    {
        match packet.id {
            0x00 => Ok(Self::ServerListPing()),
            0x01 => {
                match BinaryReader::new(packet.data).read::<i64>() {
                    Ok(v) => Ok(Self::Ping { payload: v }),
                    Err(err) => Err(err),
                }
            },
            _ => Err(Error::new(ErrorKind::BrokenPacket, "Broken Packet")),
        }
    }
}

} // verus!
