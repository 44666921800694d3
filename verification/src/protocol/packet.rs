use vstd::prelude::*;
use crate::error::{Error, ErrorKind, Result};
use crate::util::binary::{
    bytes_at, copy_bytes, is_error, lemma_varint_at_done, lemma_varint_len, lemma_varint_roundtrip,
    lemma_varint_write_read, rest_at, varint_at, varint_bytes, BinaryReader, Read, ReadVarInt,
};

verus! {

/// A packet as read from the wire: its declared length, its id and the rest
/// of its bytes.
#[derive(Clone)]
pub struct Packet {
    pub length: usize,
    pub id: i32,
    pub data: Vec<u8>,
}

/// Parsing a packet from `buf`: a VarInt length, refused with `Other`
/// ("Legacy ping, not supported") when it is 254, then taken as a `usize`; a
/// VarInt id; then length − 1 bytes of data.
pub open spec fn legacy_packet_at(buf: Seq<u8>) -> Read<(usize, i32, Seq<u8>)> {
    match varint_at(buf, 0) {
        Read::Fail(k, m, p) => Read::Fail(k, m, p),
        Read::Done(len, p) => if len == 254 {
            Read::Fail(ErrorKind::Other, "Legacy ping, not supported"@, p)
        } else {
            match varint_at(buf, p) {
                Read::Fail(k, m, q) => Read::Fail(k, m, q),
                Read::Done(id, q) => match bytes_at(buf, q, ((len as usize) - 1) as nat) {
                    Read::Fail(k, m, r) => Read::Fail(k, m, r),
                    Read::Done(d, r) => Read::Done((len as usize, id, d), r),
                },
            }
        },
    }
}

/// Parsing is defined where the declared length is at least 1 and the data's
/// end offset fits in `usize`.
pub open spec fn legacy_packet_fits(buf: Seq<u8>) -> bool {
    varint_at(buf, 0) matches Read::Done(len, p) ==> (len != 254 ==> (varint_at(buf, p) matches Read::Done(
        id,
        q,
    ) ==> ((len as usize) >= 1 && ((len as usize) - 1 == 0 || q + (len as usize) - 1 <= usize::MAX))))
}

/// What parsing gives for a frame: with a declared length `len` of 1 or more,
/// a one-byte id (0 to 127) and `len` − 1 bytes of data, the packet has that
/// length, id and data, whatever follows; only a declared length of 254 is
/// refused, as a legacy ping, right after the length. Parsing is defined there
/// whenever the frame fits in `usize` offsets.
pub proof fn lemma_legacy_frame_parse(len: i32, id: i32, data: Seq<u8>, rest: Seq<u8>)
    requires
        1 <= len,
        0 <= id < 128,
        data.len() == len - 1,
    ensures
        ({
            let buf = varint_bytes(len) + varint_bytes(id) + data + rest;
            &&& len != 254 ==> legacy_packet_at(buf) == Read::Done(
                (len as usize, id, data),
                varint_bytes(len).len() + 1 + data.len(),
            )
            &&& len == 254 ==> legacy_packet_at(buf) == Read::<(usize, i32, Seq<u8>)>::Fail(
                ErrorKind::Other,
                "Legacy ping, not supported"@,
                varint_bytes(len).len(),
            )
            &&& varint_bytes(len).len() + 1 + data.len() <= usize::MAX ==> legacy_packet_fits(buf)
        }),
{
    let buf = varint_bytes(len) + varint_bytes(id) + data + rest;
    let tail = varint_bytes(id) + (data + rest);
    assert(buf =~= varint_bytes(len) + tail);
    lemma_varint_write_read(len, tail);
    lemma_varint_len(len);
    lemma_varint_len(id);
    let n1 = varint_bytes(len).len();
    assert(rest_at(buf, n1) =~= tail);
    lemma_varint_roundtrip(id, data + rest);
    assert(varint_at(buf, n1) == Read::Done(id, n1 + 1));
    assert((len as usize) as int == len);
    if data.len() > 0 {
        assert(buf.subrange((n1 + 1) as int, (n1 + 1 + data.len()) as int) =~= data);
    } else {
        assert(data =~= Seq::<u8>::empty());
    }
    assert(bytes_at(buf, n1 + 1, ((len as usize) - 1) as nat) == Read::Done(data, n1 + 1 + data.len()));
}

impl Packet {
    /// Parses a packet, as `legacy_packet_at` says.
    pub fn parse(bytes: Vec<u8>) -> (res: Result<Self>)
        requires
            bytes@.len() <= isize::MAX,
            legacy_packet_fits(bytes@),
        ensures
            match legacy_packet_at(bytes@) {
                Read::Done((l, id, d), _) => res matches Ok(pk) && pk.length == l && pk.id == id && pk.data@ == d,
                Read::Fail(k, m, _) => res matches Err(e) && is_error(e, k, m),
            },
    {
        let ghost buf = bytes@;
        let mut reader = BinaryReader::new(bytes);
        let length;
        let id;
        let data;

        match reader.read_varint() {
            Err(e) => return Err(e),
            Ok(v) => {
                if v == 254 {
                    return Err(Error::new(ErrorKind::Other, "Legacy ping, not supported"));
                }
                length = v as usize;
            },
        }
        proof {
            lemma_varint_at_done(buf, 0);
        }

        match reader.read_varint() {
            Err(e) => return Err(e),
            Ok(v) => id = v,
        }
        proof {
            lemma_varint_at_done(buf, reader.pos());
        }

        match reader.read_bytes(length - 1) {
            Err(e) => return Err(e),
            Ok(v) => data = v,
        }

        Ok(Self { length, id, data })
    }

    /// A copy of the packet.
    pub fn clone(&self) -> (r: Self)
        ensures
            r.length == self.length,
            r.id == self.id,
            r.data@ == self.data@,
    {
        Self { length: self.length, id: self.id, data: copy_bytes(&self.data) }
    }
}

} // verus!
