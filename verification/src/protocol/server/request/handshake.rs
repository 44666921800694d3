use vstd::prelude::*;
use crate::error::{Error, ErrorKind, Result};
use crate::util::text::{decimal, decimal_text};
use crate::protocol::server::packet::{DedeserializePacket, Packet};
use crate::util::binary::{
    be_value, bytes_at, is_error, lemma_number_after, lemma_number_at_done, lemma_reads_after, lemma_string_at_done,
    lemma_string_write_read, lemma_varint_at_done, lemma_varint_write_read, number_at, string_at, string_at_fits,
    string_bytes, varint_at, varint_bytes, BinaryReader, BytesToNumber, Read, ReadVarInt,
};
use vstd::utf8::encode_utf8;

verus! {

broadcast use vstd::layout::layout_of_primitives;

/// The first packet a client sends: its protocol version, the address and
/// port it connected to, and what it wants next.
pub struct HandshakePacket {
    pub version: i32,
    pub address: String,
    pub port: u16,
    pub status: HandshakeStatus,
}

/// What a client wants after the handshake.
pub enum HandshakeStatus {
    Status,
    Login,
}

/// Reading a handshake from a packet's id and data: the id must be 0; then a
/// VarInt version, a text address, a big-endian `u16` port and a status byte,
/// 1 for `Status` and 2 for `Login`.
pub open spec fn handshake_at(id: i32, data: Seq<u8>) -> Read<(i32, Seq<char>, u16, HandshakeStatus)> {
    if id != 0 {
        Read::Fail(ErrorKind::BrokenPacket, "Broken Packet"@, 0)
    } else {
        match varint_at(data, 0) {
            Read::Fail(k, m, p) => Read::Fail(k, m, p),
            Read::Done(version, p) => match string_at(data, p) {
                Read::Fail(k, m, q) => Read::Fail(k, m, q),
                Read::Done(address, q) => match number_at::<u16>(data, q) {
                    Read::Fail(k, m, r) => Read::Fail(k, m, r),
                    Read::Done(port, r) => match number_at::<u8>(data, r) {
                        Read::Fail(k, m, t) => Read::Fail(k, m, t),
                        Read::Done(b, t) => if b == 1 {
                            Read::Done((version, address, port, HandshakeStatus::Status), t)
                        } else if b == 2 {
                            Read::Done((version, address, port, HandshakeStatus::Login), t)
                        } else {
                            Read::Fail(ErrorKind::BrokenPacket, "Broken Handshake Packet"@, t)
                        },
                    },
                },
            },
        }
    }
}

/// What a client writes, a handshake reads back: for a version `version` (not
/// negative), an address, any `u16` port and a status byte of 1 or 2, the data
/// made of the version as a VarInt, the address as a text, the port's two
/// big-endian bytes and the status byte reads as exactly that version, address,
/// port and status (1 for `Status`, 2 for `Login`), whatever follows.
pub proof fn lemma_handshake_write_read(version: i32, address: Seq<char>, port: u16, status: u8, rest: Seq<u8>)
    requires
        version >= 0,
        encode_utf8(address).len() <= i32::MAX,
        status == 1 || status == 2,
    ensures
        ({
            let v = varint_bytes(version);
            let a = string_bytes(encode_utf8(address));
            let data = v + a + seq![(port / 256) as u8, (port % 256) as u8] + seq![status] + rest;
            handshake_at(0, data) == Read::Done(
                (version, address, port, if status == 1 {
                    HandshakeStatus::Status
                } else {
                    HandshakeStatus::Login
                }),
                v.len() + a.len() + 3,
            )
        }),
{
    let v = varint_bytes(version);
    let a = string_bytes(encode_utf8(address));
    let pb = seq![(port / 256) as u8, (port % 256) as u8];
    let sb = seq![status];
    let data = v + a + pb + sb + rest;
    lemma_varint_write_read(version, a + pb + sb + rest);
    assert(data =~= v + (a + pb + sb + rest));
    lemma_string_write_read(address, pb + sb + rest);
    assert(a + pb + sb + rest =~= a + (pb + sb + rest));
    lemma_reads_after(v, a + (pb + sb + rest), 0);
    assert(data =~= (v + a) + (pb + (sb + rest)));
    assert(bytes_at(pb + (sb + rest), 0, 2) == Read::Done(pb, 2)) by {
        assert((pb + (sb + rest)).subrange(0, 2) =~= pb);
    }
    assert(be_value(pb) == port as nat) by {
        reveal_with_fuel(be_value, 3);
        assert(pb.drop_last() =~= seq![(port / 256) as u8]);
        assert(pb.last() == (port % 256) as u8);
        assert(((port / 256) as u8) as nat == port / 256);
        assert(((port % 256) as u8) as nat == port % 256);
        assert(pb.drop_last().drop_last() =~= Seq::<u8>::empty());
    }
    assert(number_at::<u16>(pb + (sb + rest), 0) == Read::Done(port, 2));
    lemma_number_after::<u16>(v + a, pb + (sb + rest));
    assert(data =~= (v + a + pb) + (sb + rest));
    assert(bytes_at(sb + rest, 0, 1) == Read::Done(sb, 1)) by {
        assert((sb + rest).subrange(0, 1) =~= sb);
    }
    assert(be_value(sb) == status as nat) by {
        reveal_with_fuel(be_value, 2);
        assert(sb.drop_last() =~= Seq::<u8>::empty());
    }
    assert(number_at::<u8>(sb + rest, 0) == Read::Done(status, 1));
    lemma_number_after::<u8>(v + a + pb, sb + rest);
}

/// The text that `debug_text` gives for a handshake.
pub open spec fn handshake_text(version: i32, address: Seq<char>, port: u16, status: HandshakeStatus) -> Seq<char> {
    "Handshake(Version: "@ + decimal(version as int) + ", Address: "@ + address + ", Port: "@ + decimal(
        port as int,
    ) + ", Status: "@ + (if status is Status {
        "Status"@
    } else {
        "Login"@
    }) + ")"@
}

impl HandshakePacket {
    /// A text for debugging: version, address, port and
    /// status, as in `Handshake(Version: 340, Address: localhost, Port: 25565, Status: Status)`.
    pub fn debug_text(&self) -> (s: String)
        ensures
            s@ == handshake_text(self.version, self.address@, self.port, self.status),
    {
        let mut s = "Handshake(Version: ".to_owned();
        s.append(decimal_text(self.version as i64).as_str());
        s.append(", Address: ");
        s.append(self.address.as_str());
        s.append(", Port: ");
        s.append(decimal_text(self.port as i64).as_str());
        s.append(", Status: ");
        s.append(if let HandshakeStatus::Status = self.status {
            "Status"
        } else {
            "Login"
        });
        s.append(")");
        s
    }
}

impl DedeserializePacket for HandshakePacket {
    /// The data fits in memory, and the address's length stays within `usize`
    /// offsets.
    open spec fn accepts(packet: &Packet) -> bool {
        &&& packet.data@.len() <= isize::MAX
        &&& (varint_at(packet.data@, 0) matches Read::Done(v, p) ==> string_at_fits(packet.data@, p))
    }

    /// Reads a handshake, as `handshake_at` says.
    fn deserialize(packet: Packet) -> (res: Result<Self>)
        ensures
            match handshake_at(packet.id, packet.data@) {
                Read::Done((version, address, port, status), _) => res matches Ok(h) && h.version == version
                    && h.address@ == address && h.port == port && h.status == status,
                Read::Fail(k, m, _) => res matches Err(e) && is_error(e, k, m),
            },
    {
        if packet.id != 0x00 {
            return Err(Error::new(ErrorKind::BrokenPacket, "Broken Packet"))
        }
        let ghost data = packet.data@;
        let mut reader = BinaryReader::new(packet.data);
        let version;
        let address;
        let port;
        let status;

        match reader.read_varint() {
            Err(e) => return Err(e),
            Ok(v) => version = v,
        }
        proof {
            lemma_varint_at_done(data, 0);
        }

        let ghost p1 = reader.pos();
        match reader.read_string() {
            Err(e) => return Err(e),
            Ok(v) => address = v,
        }
        proof {
            lemma_string_at_done(data, p1);
        }

        let ghost p2 = reader.pos();
        match reader.read::<u16>() {
            Err(e) => return Err(e),
            Ok(v) => port = v,
        }
        proof {
            lemma_number_at_done::<u16>(data, p2);
        }

        match reader.read::<u8>() {
            Err(e) => return Err(e),
            Ok(v) => {
                match v {
                    0x01 => status = HandshakeStatus::Status,
                    0x02 => status = HandshakeStatus::Login,
                    _ => return Err(Error::new(ErrorKind::BrokenPacket, "Broken Handshake Packet")),
                }
            },
        }

        Ok(Self { version, address, port, status })
    }
}

} // verus!
