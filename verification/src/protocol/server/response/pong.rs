use vstd::prelude::*;
use vstd::utf8::encode_utf8;
use crate::protocol::server::packet::SerializePacket;
use crate::util::binary::{
    be_bytes, be_value, frame, lemma_reads_after, lemma_string_write_read, string_at, lemma_be_bytes_i64, lemma_le_bytes_u8, lemma_varint_len, lemma_varint_write_read, le_bytes,
    string_bytes, string_len_ok, varint_at, varint_bytes, PacketWriter, Read, ToBytes,
};

verus! {

/// The server's answers while a client asks for its status.
pub enum PongPacket {
    /// The answer to a ping: the payload sent back.
    Pong { payload: i64 },
    /// The server list entry. `data` is its JSON text, as serde_json renders
    /// the `ServerListPing` status.
    ServerListPing { data: String },
}

/// The body of a pong: id 1, then the payload's eight little-endian bytes.
pub open spec fn pong_body(payload: i64) -> Seq<u8> {
    seq![1u8] + le_bytes(payload as u128, 8)
}

/// The body of a server list entry: id 0, then the JSON text.
pub open spec fn server_list_body(json: Seq<char>) -> Seq<u8> {
    seq![0u8] + string_bytes(encode_utf8(json))
}

/// A pong echoes its payload: for any `i64` `p`, the answer is the frame of id 1
/// followed by the bytes `p` itself writes (its eight little-endian bytes): a
/// length of 9, the id, then those bytes, which read back least significant
/// first give `p`.
pub proof fn lemma_pong_echoes_payload(p: i64)
    ensures
        ({
            let s = (PongPacket::Pong { payload: p }).spec_serialize();
            &&& s == frame(seq![1u8] + p.spec_to_bytes())
            &&& s.len() == 10
            &&& varint_at(s, 0) == Read::Done(9i32, 1)
            &&& s[1] == 1
            &&& s.subrange(2, 10) == p.spec_to_bytes()
            &&& (be_value(s.subrange(2, 10).reverse()) as i64) == p
        }),
{
    let s = (PongPacket::Pong { payload: p }).spec_serialize();
    let body = seq![1u8] + le_bytes(p as u128, 8);
    assert(body.len() == 9);
    assert((body.len() as usize) as i32 == 9);
    lemma_varint_len(9);
    lemma_varint_write_read(9, body);
    assert(s =~= varint_bytes(9) + body);
    assert(s.subrange(2, 10) =~= le_bytes(p as u128, 8));
    assert(s.subrange(2, 10).reverse() =~= be_bytes(p as u128, 8));
    lemma_be_bytes_i64(p);
}

/// The server list answer carries its JSON text: after the frame's length
/// comes id 0, then a text that reads back as the JSON text, ending the frame.
pub proof fn lemma_server_list_carries_json(data: String)
    requires
        encode_utf8(data@).len() < i32::MAX,
    ensures
        ({
            let s = (PongPacket::ServerListPing { data }).spec_serialize();
            let n = varint_bytes((server_list_body(data@).len() as usize) as i32).len();
            &&& s[n as int] == 0
            &&& string_at(s, n + 1) == Read::Done(data@, s.len())
        }),
{
    let body = server_list_body(data@);
    let text = string_bytes(encode_utf8(data@));
    let head = varint_bytes((body.len() as usize) as i32) + seq![0u8];
    let s = (PongPacket::ServerListPing { data }).spec_serialize();
    assert(s =~= head + (text + Seq::<u8>::empty()));
    lemma_string_write_read(data@, Seq::<u8>::empty());
    lemma_reads_after(head, text + Seq::<u8>::empty(), 0);
}

impl SerializePacket for PongPacket {
    open spec fn spec_serialize(&self) -> Seq<u8> {
        match self {
            PongPacket::Pong { payload } => frame(pong_body(*payload)),
            PongPacket::ServerListPing { data } => frame(server_list_body(data@)),
        }
    }

    /// A server list entry's text and the whole body must have lengths that do
    /// not come out negative as an `i32`.
    open spec fn serializable(&self) -> bool {
        match self {
            PongPacket::Pong { payload } => true,
            PongPacket::ServerListPing { data } => string_len_ok(encode_utf8(data@)) && string_len_ok(
                server_list_body(data@),
            ),
        }
    }

    /// The framed answer.
    fn serialize(&self) -> (r: Vec<u8>) {
        let mut writer = PacketWriter::new();
        match self {
            Self::Pong { payload } => {
                writer.write(0x01 as u8);
                writer.write(*payload);
                proof {
                    lemma_le_bytes_u8(1);
                    assert(writer@ =~= pong_body(*payload));
                }
            },
            Self::ServerListPing { data } => {
                writer.write(0x00 as u8);
                writer.write(data.clone());
                proof {
                    lemma_le_bytes_u8(0);
                    assert(writer@ =~= server_list_body(data@));
                }
            },
        }
        writer.bytes()
    }
}

} // verus!
