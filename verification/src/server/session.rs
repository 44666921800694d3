use vstd::prelude::*;
use crate::error::{Error, ErrorKind, Result};
use crate::protocol::server::packet::{DedeserializePacket, Packet};
use crate::protocol::server::request::handshake::{handshake_at, HandshakePacket, HandshakeStatus};
use crate::protocol::server::request::ping::{ping_at, PingPacket};
use crate::types::PlayerProfile;
use crate::util::binary::{
    is_error, lemma_varint_at_done, string_at, string_at_fits, string_fits_at, BinaryReader, Read, ReadVarInt,
};

verus! {

/// Where a client's session stands: which packet it waits for next.
pub enum Stage {
    /// The handshake.
    Handshake,
    /// A status request; the number of answers still to give.
    Status(u32),
    /// The login start.
    Login,
}

/// What the session does with a packet it read.
pub enum Action {
    /// Read the next packet, in the given stage.
    Read(Stage),
    /// Send a pong with this payload; then read the next packet in the given
    /// stage, or, with none, end the session with `Other` ("No error").
    SendPong(i64, Option<Stage>),
    /// Send the server list entry; then as for `SendPong`.
    SendServerList(Option<Stage>),
    /// The player has joined.
    Join(PlayerProfile),
}

/// The stage after an answer, with `left` answers still to give before it.
pub open spec fn after_answer(left: u32) -> Option<Stage> {
    if left > 1 {
        Some(Stage::Status((left - 1) as u32))
    } else {
        None
    }
}

/// A packet that a stage reads is within what the reading handles without
/// failing outright.
pub open spec fn stage_accepts(stage: Stage, packet: Packet) -> bool {
    match stage {
        Stage::Handshake => HandshakePacket::accepts(&packet),
        Stage::Status(left) => left >= 1,
        Stage::Login => packet.data@.len() <= isize::MAX && string_at_fits(packet.data@, 0),
    }
}

/// Whether `stage` can read `packet`, for callers that must check it first
/// (reading the packets it leaves out would overflow).
pub fn stage_accepts_packet(stage: &Stage, packet: &Packet) -> (b: bool)
    ensures
        b == stage_accepts(*stage, *packet),
{
    match stage {
        Stage::Handshake => {
            if packet.data.len() > isize::MAX as usize {
                return false;
            }
            let mut r = BinaryReader::new(packet.clone().data);
            match r.read_varint() {
                Err(_) => true,
                Ok(_) => {
                    proof {
                        lemma_varint_at_done(packet.data@, 0);
                    }
                    string_fits_at(&packet.data, r.current())
                },
            }
        },
        Stage::Status(left) => *left >= 1,
        Stage::Login => packet.data.len() <= isize::MAX as usize && string_fits_at(&packet.data, 0),
    }
}

/// The session's decision on `packet` in `stage`: a handshake leads to two
/// status answers or to the login; each status request is answered; a login
/// start with id 0 and a name lets the player join unless the server is in
/// online mode, which is not done yet and ends the session (`Other`, "No
/// error"); a login packet with another id is `BrokenPacket` with an empty
/// message; reading errors end the session with that error.
pub fn advance(stage: Stage, packet: Packet, online_mode: bool) -> (res: Result<Action>)
    requires
        stage_accepts(stage, packet),
    ensures
        match stage {
            Stage::Handshake => match handshake_at(packet.id, packet.data@) {
                Read::Done((v, a, p, status), _) => match status {
                    HandshakeStatus::Status => res matches Ok(Action::Read(Stage::Status(n))) && n == 2,
                    HandshakeStatus::Login => res matches Ok(Action::Read(Stage::Login)),
                },
                Read::Fail(k, m, _) => res matches Err(e) && is_error(e, k, m),
            },
            Stage::Status(left) => match ping_at(packet.id, packet.data@) {
                Read::Done(PingPacket::Ping { payload }, _) => res matches Ok(Action::SendPong(p, next)) && p
                    == payload && next == after_answer(left),
                Read::Done(PingPacket::ServerListPing(), _) => res matches Ok(Action::SendServerList(next))
                    && next == after_answer(left),
                Read::Fail(k, m, _) => res matches Err(e) && is_error(e, k, m),
            },
            Stage::Login => if packet.id != 0 {
                res matches Err(e) && is_error(e, ErrorKind::BrokenPacket, ""@)
            } else {
                match string_at(packet.data@, 0) {
                    Read::Done(name, _) => if online_mode {
                        res matches Err(e) && is_error(e, ErrorKind::Other, "No error"@)
                    } else {
                        res matches Ok(Action::Join(profile)) && profile.name@ == name
                    },
                    Read::Fail(k, m, _) => res matches Err(e) && is_error(e, k, m),
                }
            },
        },
{
    match stage {
        Stage::Handshake => {
            let handshake = HandshakePacket::deserialize(packet)?;
            match handshake.status {
                HandshakeStatus::Status => Ok(Action::Read(Stage::Status(2))),
                HandshakeStatus::Login => Ok(Action::Read(Stage::Login)),
            }
        },
        Stage::Status(left) => {
            let next = if left > 1 {
                Some(Stage::Status(left - 1))
            } else {
                None
            };
            match PingPacket::deserialize(packet)? {
                PingPacket::Ping { payload } => Ok(Action::SendPong(payload, next)),
                PingPacket::ServerListPing() => Ok(Action::SendServerList(next)),
            }
        },
        Stage::Login => {
            if packet.id != 0x00 {
                return Err(Error::new(ErrorKind::BrokenPacket, ""));
            }
            let mut reader = BinaryReader::new(packet.data);
            let name = reader.read_string()?;
            if online_mode {
                Err(Error::new(ErrorKind::Other, "No error"))
            } else {
                Ok(Action::Join(PlayerProfile { name }))
            }
        },
    }
}

} // verus!
