use vstd::prelude::*;
use crate::error::{Error, ErrorKind, Result};
use crate::protocol::server::packet::{DedeserializePacket, Packet};
use crate::util::binary::{is_error, string_at, string_at_fits, BinaryReader, Read};

verus! {

/// The signature data a client may send when it starts to log in.
pub struct SigData {
    timestamp: u64,
    pub_key: Vec<u8>,
    signature: Vec<u8>,
}

/// A client's request to log in: its name, and signature data and UUID, which
/// are not read.
pub struct LoginStartPacket {
    pub name: String,
    pub sid_data: Option<SigData>,
    /// The UUID, as its 128-bit value.
    pub uuid: Option<u128>,
}

/// Reading a login start from a packet's id and data: the id must be 0, then a
/// text name.
pub open spec fn login_start_at(id: i32, data: Seq<u8>) -> Read<Seq<char>> {
    if id != 0 {
        Read::Fail(ErrorKind::BrokenPacket, "Broken Packet"@, 0)
    } else {
        string_at(data, 0)
    }
}

impl DedeserializePacket for LoginStartPacket {
    /// The data fits in memory, and the name's length stays within `usize`
    /// offsets.
    open spec fn accepts(packet: &Packet) -> bool {
        &&& packet.data@.len() <= isize::MAX
        &&& string_at_fits(packet.data@, 0)
    }

    /// Reads the name; the signature data and UUID are left empty.
    fn deserialize(packet: Packet) -> (res: Result<Self>)
        ensures
            match login_start_at(packet.id, packet.data@) {
                Read::Done(name, _) => res matches Ok(l) && l.name@ == name && l.sid_data is None
                    && l.uuid is None,
                Read::Fail(k, m, _) => res matches Err(e) && is_error(e, k, m),
            },
    {
        if packet.id != 0x00 {
            return Err(Error::new(ErrorKind::BrokenPacket, "Broken Packet"));
        }

        let mut reader = BinaryReader::new(packet.data);

        let name;
        match reader.read_string() {
            Ok(n) => name = n,
            Err(e) => return Err(e),
        }

        Ok(LoginStartPacket { name: name, sid_data: None, uuid: None })
    }
}

} // verus!
