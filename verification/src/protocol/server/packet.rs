use vstd::prelude::*;
use crate::error::{Error, ErrorKind, Result};
use crate::util::binary::{
    bytes_at, copy_bytes, decode_varint, frame, is_error, lemma_varint_at_done, lemma_varint_len, lemma_varint_roundtrip,
    lemma_varint_write_read, rest_at, varint_at, varint_bytes, BinaryReader, Decoded, Read, ReadN, ReadVarInt,
    VarInt,
};

verus! {

/// A packet as read from the wire: its declared length, its id and the rest
/// of its bytes.
#[derive(Clone)]
pub struct Packet {
    pub length: usize,
    pub id: i32,
    pub data: Vec<u8>,
}

/// Parsing a packet from `buf`: a VarInt length (taken as a `usize`), a
/// VarInt id, then length − 1 bytes of data.
pub open spec fn packet_at(buf: Seq<u8>) -> Read<(usize, i32, Seq<u8>)> {
    match varint_at(buf, 0) {
        Read::Fail(k, m, p) => Read::Fail(k, m, p),
        Read::Done(len, p) => match varint_at(buf, p) {
            Read::Fail(k, m, q) => Read::Fail(k, m, q),
            Read::Done(id, q) => match bytes_at(buf, q, ((len as usize) - 1) as nat) {
                Read::Fail(k, m, r) => Read::Fail(k, m, r),
                Read::Done(d, r) => Read::Done((len as usize, id, d), r),
            },
        },
    }
}

/// Parsing is defined where the declared length is at least 1 (1 is
/// subtracted from it) and the data's end offset fits in `usize`.
pub open spec fn packet_fits(buf: Seq<u8>) -> bool {
    varint_at(buf, 0) matches Read::Done(len, p) ==> (varint_at(buf, p) matches Read::Done(id, q) ==> (
        (len as usize) >= 1 && ((len as usize) - 1 == 0 || q + (len as usize) - 1 <= usize::MAX)))
}

/// `res` against a parse outcome: the packet with those fields, or an error of
/// that kind and message.
pub open spec fn packet_result(res: Result<Packet>, r: Read<(usize, i32, Seq<u8>)>) -> bool {
    match r {
        Read::Done((l, id, d), _) => res matches Ok(pk) && pk.length == l && pk.id == id && pk.data@ == d,
        Read::Fail(k, m, _) => res matches Err(e) && is_error(e, k, m),
    }
}

/// What a `PacketWriter` frames, `Packet::parse` reads back: for a body made of
/// a one-byte id (0 to 127) and data, with a length that fits in an `i32`, the
/// packet has that length, id and data, whatever follows the frame; and parsing
/// is defined there whenever the whole fits in `usize` offsets. (Parsing
/// takes the declared length minus one as the data's length, which holds only
/// for one-byte ids: with a longer id it reads past the data.)
pub proof fn lemma_frame_parse(id: i32, data: Seq<u8>, rest: Seq<u8>)
    requires
        0 <= id < 128,
        1 + data.len() <= i32::MAX,
    ensures
        frame(varint_bytes(id) + data).len() + rest.len() <= usize::MAX ==> packet_fits(
            frame(varint_bytes(id) + data) + rest,
        ),
        packet_at(frame(varint_bytes(id) + data) + rest) == Read::Done(
            ((1 + data.len()) as usize, id, data),
            frame(varint_bytes(id) + data).len(),
        ),
{
    let body = varint_bytes(id) + data;
    let l = (body.len() as usize) as i32;
    assert(varint_bytes(id).len() == 1);
    assert(l == body.len());
    let buf = frame(body) + rest;
    assert(buf =~= varint_bytes(l) + (body + rest));
    lemma_varint_write_read(l, body + rest);
    let n1 = varint_bytes(l).len();
    assert(rest_at(buf, n1) =~= varint_bytes(id) + (data + rest));
    lemma_varint_roundtrip(id, data + rest);
    assert(varint_at(buf, n1) == Read::Done(id, n1 + 1));
    assert(varint_at(buf, 0) == Read::Done(l, n1));
    assert((l as usize) as int == 1 + data.len());
    if data.len() > 0 {
        assert(buf.subrange((n1 + 1) as int, (n1 + 1 + data.len()) as int) =~= data);
    } else {
        assert(data =~= Seq::<u8>::empty());
    }
    assert(bytes_at(buf, n1 + 1, ((l as usize) - 1) as nat) == Read::Done(data, n1 + 1 + data.len()));
}

impl Packet {
    /// Parses a packet: its length, its id, then length − 1 bytes of data.
    pub fn parse(bytes: Vec<u8>) -> (res: Result<Self>)
        requires
            bytes@.len() <= isize::MAX,
            packet_fits(bytes@),
        ensures
            packet_result(res, packet_at(bytes@)),
    {
        let ghost buf = bytes@;
        let mut reader = BinaryReader::new(bytes);
        let length;
        let id;
        let data;

        match reader.read_varint() {
            Err(e) => return Err(e),
            Ok(v) => length = v as usize,
        }
        proof {
            lemma_varint_at_done(buf, 0);
        }

        match reader.read_varint() {
            Err(e) => return Err(e),
            Ok(v) => id = v,
        }
        proof {
            lemma_varint_at_done(buf, reader.pos());
        }

        match reader.read_bytes(length - 1) {
            Err(e) => return Err(e),
            Ok(v) => data = v,
        }

        Ok(Self { length, id, data })
    }

    /// A copy of the packet.
    pub fn clone(&self) -> (r: Self)
        ensures
            r.length == self.length,
            r.id == self.id,
            r.data@ == self.data@,
    {
        Self { length: self.length, id: self.id, data: copy_bytes(&self.data) }
    }

    /// What reading a packet from a stream does with the length it read
    /// first: "EOF" for -1 and 0, the legacy ping's 254 is refused as
    /// `Deprecated`, 10240 and more are `OutOfRange` ("Out of limit"); any other
    /// length is how many bytes to read next. A length below -1 is not
    /// accepted: it would ask to read an impossible number of bytes.
    pub fn frame_length(len: i32) -> (res: Result<usize>)
        requires
            len >= -1,
        ensures
            (len == -1 || len == 0) ==> (res matches Err(e) && is_error(e, ErrorKind::EOF, "EOF"@)),
            len == 254 ==> (res matches Err(e) && is_error(e, ErrorKind::Deprecated, "LegacyPing"@)),
            len >= 10240 ==> (res matches Err(e) && is_error(e, ErrorKind::OutOfRange, "Out of limit"@)),
            0 < len < 10240 && len != 254 ==> res == Ok::<usize, Error>(len as usize),
    {
        match len {
            -1 | 0 => return Err(Error::new(ErrorKind::EOF, "EOF")),
            254 => return Err(Error::new(ErrorKind::Deprecated, "LegacyPing")),
            x => {
                if x >= 10240 {
                    return Err(Error::new(ErrorKind::OutOfRange, "Out of limit"));
                }
            },
        }
        Ok(len as usize)
    }

    /// What reading a packet from a stream does with the bytes it read after
    /// the length: it puts the length back in front, as a VarInt, and parses
    /// the whole.
    pub fn from_frame(len: i32, body: Vec<u8>) -> (res: Result<Packet>)
        requires
            len >= 0,
            varint_bytes(len).len() + body@.len() <= isize::MAX,
            packet_fits(varint_bytes(len) + body@),
        ensures
            packet_result(res, packet_at(varint_bytes(len) + body@)),
    {
        let mut body = body;
        let mut buf = Vec::new();
        buf.append(&mut VarInt::as_varint(len));
        buf.append(&mut body);
        Packet::parse(buf)
    }
}

/// Packets that can be written to the wire.
pub trait SerializePacket {
    /// The bytes of the packet.
    spec fn spec_serialize(&self) -> Seq<u8>;

    /// Whether the packet can be written without failing.
    spec fn serializable(&self) -> bool;

    /// The bytes of the packet, framed with its length.
    fn serialize(&self) -> (r: Vec<u8>)
        requires
            self.serializable(),
        ensures
            r@ == self.spec_serialize(),
    ;
}

/// Packets that can be read from a parsed `Packet`.
pub trait DedeserializePacket {
    /// Whether the packet is within what deserializing handles without failing
    /// outright.
    spec fn accepts(packet: &Packet) -> bool;

    /// Reads the packet's content.
    fn deserialize(packet: Packet) -> (res: Result<Self>) where Self: Sized
        requires
            Self::accepts(&packet),
    ;
}

/// Sources that packets can be read from.
pub trait ReadPacket: ReadVarInt + ReadN {
    /// Reads a packet: its length as a VarInt, checked as `Packet::frame_length`
    /// does ("EOF" for -1 and 0, the legacy ping's 254 `Deprecated`, 10240 and
    /// more "Out of limit", with no further read); then exactly that many
    /// bytes, parsed with the length put back in front. A length below -1 is
    /// not accepted: it would ask for an impossible number of bytes.
    fn read_packet(&mut self) -> (res: Result<Packet>)
        requires
            old(self).can_read(1),
            decode_varint(old(self).pending()) matches Decoded::Value(len, k) ==> len >= -1 && (0 < len < 10240
                && len != 254 ==> k + len <= usize::MAX && old(self).can_read((k + len) as usize)),
        ensures
            match decode_varint(old(self).pending()) {
                Decoded::Value(len, k) => {
                    &&& (len == -1 || len == 0) ==> (res matches Err(e) && is_error(e, ErrorKind::EOF, "EOF"@))
                    &&& len == 254 ==> (res matches Err(e) && is_error(e, ErrorKind::Deprecated, "LegacyPing"@))
                    &&& len >= 10240 ==> (res matches Err(e) && is_error(e, ErrorKind::OutOfRange, "Out of limit"@))
                    &&& (len <= 0 || len == 254 || len >= 10240) ==> final(self).pending() == old(self).pending().skip(
                        k as int,
                    )
                    &&& (0 < len < 10240 && len != 254 && old(self).pending().len() >= k + len) ==> {
                        &&& packet_result(
                            res,
                            packet_at(varint_bytes(len) + old(self).pending().subrange(k as int, k + len)),
                        )
                        &&& final(self).pending() == old(self).pending().skip(k + len)
                    }
                    &&& (0 < len < 10240 && len != 254 && old(self).pending().len() < k + len) ==> res is Err
                },
                Decoded::TooBig => res matches Err(e) && is_error(e, ErrorKind::OutOfRange, "VarInt too big"@),
                Decoded::Truncated => res is Err,
            },
    {
        let ghost start = self.pending();
        let len = match self.read_varint() {
            Ok(v) => v,
            Err(e) => return Err(e),
        };
        let ghost mid = self.pending();
        let n = match Packet::frame_length(len) {
            Ok(n) => n,
            Err(e) => return Err(e),
        };
        let buf = match self._read(n) {
            Ok(v) => v,
            Err(e) => return Err(e),
        };
        proof {
            assert(decode_varint(start) is Value);
            let k = decode_varint(start)->Value_1;
            assert(rest_at(start, 0) =~= start);
            lemma_varint_at_done(start, 0);
            assert(k <= start.len());
            assert(mid =~= start.skip(k as int));
            assert(buf@ =~= start.subrange(k as int, k + len));
            assert(self.pending() =~= start.skip(k + len));
            lemma_varint_write_read(len, buf@);
            lemma_varint_len(len);
            lemma_varint_at_done(varint_bytes(len) + buf@, varint_bytes(len).len());
        }
        Packet::from_frame(len, buf)
    }
}

} // verus!
