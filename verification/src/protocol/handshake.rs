use vstd::prelude::*;
use crate::error::{Error, ErrorKind, Result};
use crate::util::text::{decimal, decimal_text};
use crate::protocol::packet::Packet;
use crate::util::binary::{
    is_error, lemma_number_at_done, lemma_string_at_done, lemma_varint_at_done, number_at, string_at,
    string_at_fits, varint_at, BinaryReader, Read, ReadVarInt,
};

verus! {

broadcast use vstd::layout::layout_of_primitives;

/// The first packet a client sends: its protocol version, the address and
/// port it connected to, and what it wants next.
pub struct Handshake {
    pub version: i32,
    pub address: String,
    pub port: u16,
    pub status: HandshakeStatus,
}

/// What a client wants after the handshake.
pub enum HandshakeStatus {
    Status,
    Login,
}

/// Reading a handshake from a packet's id and data: the id must be 0 (else
/// `Other`, "Not a handshake packet"); then a VarInt version, a text address,
/// a big-endian `i16` port kept as its `u16` bits, and a status byte, 1 for
/// `Status` and 2 for `Login` (else `Other`, "Seems a broken handshake packet").
pub open spec fn handshake_at(id: i32, data: Seq<u8>) -> Read<(i32, Seq<char>, u16, HandshakeStatus)> {
    if id != 0 {
        Read::Fail(ErrorKind::Other, "Not a handshake packet"@, 0)
    } else {
        match varint_at(data, 0) {
            Read::Fail(k, m, p) => Read::Fail(k, m, p),
            Read::Done(version, p) => match string_at(data, p) {
                Read::Fail(k, m, q) => Read::Fail(k, m, q),
                Read::Done(address, q) => match number_at::<i16>(data, q) {
                    Read::Fail(k, m, r) => Read::Fail(k, m, r),
                    Read::Done(port, r) => match number_at::<i8>(data, r) {
                        Read::Fail(k, m, t) => Read::Fail(k, m, t),
                        Read::Done(b, t) => if b == 1 {
                            Read::Done((version, address, port as u16, HandshakeStatus::Status), t)
                        } else if b == 2 {
                            Read::Done((version, address, port as u16, HandshakeStatus::Login), t)
                        } else {
                            Read::Fail(ErrorKind::Other, "Seems a broken handshake packet"@, t)
                        },
                    },
                },
            },
        }
    }
}

/// The text that `debug_text` gives for a handshake.
pub open spec fn handshake_text(version: i32, address: Seq<char>, port: u16, status: HandshakeStatus) -> Seq<char> {
    "Handshake(Version: "@ + decimal(version as int) + ", Address: "@ + address + ", Port: "@ + decimal(
        port as int,
    ) + ", Status: "@ + (if status is Status {
        "Status"@
    } else {
        "Login"@
    }) + ")"@
}

impl Handshake {
    /// A text for debugging: version, address, port and
    /// status, as in `Handshake(Version: 340, Address: localhost, Port: 25565, Status: Status)`.
    pub fn debug_text(&self) -> (s: String)
        ensures
            s@ == handshake_text(self.version, self.address@, self.port, self.status),
    {
        let mut s = "Handshake(Version: ".to_owned();
        s.append(decimal_text(self.version as i64).as_str());
        s.append(", Address: ");
        s.append(self.address.as_str());
        s.append(", Port: ");
        s.append(decimal_text(self.port as i64).as_str());
        s.append(", Status: ");
        s.append(if let HandshakeStatus::Status = self.status {
            "Status"
        } else {
            "Login"
        });
        s.append(")");
        s
    }
}

impl Handshake {
    /// Reads a handshake from a packet, as `handshake_at` says.
    pub fn parse(packet: &Packet) -> (res: Result<Self>)
        requires
            packet.data@.len() <= isize::MAX,
            varint_at(packet.data@, 0) matches Read::Done(v, p) ==> string_at_fits(packet.data@, p),
        ensures
            match handshake_at(packet.id, packet.data@) {
                Read::Done((version, address, port, status), _) => res matches Ok(h) && h.version == version
                    && h.address@ == address && h.port == port && h.status == status,
                Read::Fail(k, m, _) => res matches Err(e) && is_error(e, k, m),
            },
    {
        if packet.id != 0x00 {
            return Err(Error::new(ErrorKind::Other, "Not a handshake packet"));
        }
        let ghost data = packet.data@;
        let mut reader = BinaryReader::new(packet.clone().data);
        let version;
        let address;
        let port;
        let status;

        match reader.read_varint() {
            Err(e) => return Err(e),
            Ok(v) => version = v,
        }
        proof {
            lemma_varint_at_done(data, 0);
        }

        let ghost p1 = reader.pos();
        match reader.read_string() {
            Err(e) => return Err(e),
            Ok(v) => address = v,
        }
        proof {
            lemma_string_at_done(data, p1);
        }

        let ghost p2 = reader.pos();
        match reader.read::<i16>() {
            Err(e) => return Err(e),
            Ok(v) => port = v as u16,
        }
        proof {
            lemma_number_at_done::<i16>(data, p2);
        }

        match reader.read::<i8>() {
            Err(e) => return Err(e),
            Ok(v) => {
                match v {
                    0x01 => status = HandshakeStatus::Status,
                    0x02 => status = HandshakeStatus::Login,
                    _ => return Err(Error::new(ErrorKind::Other, "Seems a broken handshake packet")),
                }
            },
        }

        Ok(Self { version, address, port, status })
    }
}

} // verus!
