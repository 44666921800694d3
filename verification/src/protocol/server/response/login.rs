use vstd::prelude::*;
use vstd::utf8::{encode_utf8, is_ascii_chars, is_ascii_chars_encode_utf8};
use crate::protocol::server::packet::SerializePacket;
use crate::util::binary::{
    frame, lemma_le_bytes_u8, lemma_reads_after, lemma_string_write_read, lemma_varint_len, lemma_varint_write_read,
    string_at, string_bytes, string_len_ok, varint_at, varint_bytes, PacketWriter, Read,
};

verus! {

/// The encryption request of the login sequence (not sent yet).
pub struct EncryptionPacket {}

/// The server's answers to a login.
pub enum LoginPacket {
    /// Login accepted: the player's UUID, as its 128-bit value, and name.
    Success(u128, String),
    /// Login refused: the reason, as the JSON text that serde_json renders for
    /// the chat `Message`.
    Block(String),
}

/// The lowercase hex digit of a nibble.
pub open spec fn hex_digit(d: u128) -> char {
    if d < 10 {
        (48 + d) as char
    } else {
        (87 + d) as char
    }
}

/// The index, among the 32 hex digits, of position `i` of the hyphenated text.
pub open spec fn uuid_digit_index(i: int) -> int {
    if i < 8 {
        i
    } else if i < 13 {
        i - 1
    } else if i < 18 {
        i - 2
    } else if i < 23 {
        i - 3
    } else {
        i - 4
    }
}

/// The hyphenated lowercase text of the UUID whose value is `v`: its 32 hex
/// digits, most significant first, in groups of 8, 4, 4, 4 and 12 joined by `-`.
pub open spec fn uuid_hyphenated(v: u128) -> Seq<char> {
    Seq::new(
        36,
        |i: int|
            if i == 8 || i == 13 || i == 18 || i == 23 {
                '-'
            } else {
                hex_digit((v >> ((4 * (31 - uuid_digit_index(i))) as u32)) & 0xf)
            },
    )
}

/// Calls `uuid::Uuid::from_u128(v).to_string()`. The contract claims what the
/// crate's `Display` writes: the hyphenated lowercase hex text of the UUID whose
/// big-endian value is `v`.
#[verifier::external_body]
fn uuid_text(v: u128) -> (s: String)
    ensures
        s@ == uuid_hyphenated(v),
{
    uuid::Uuid::from_u128(v).to_string()
}

proof fn lemma_uuid_text_len(v: u128)
    ensures
        encode_utf8(uuid_hyphenated(v)).len() == 36,
{
    let t = uuid_hyphenated(v);
    assert forall|i: int| 0 <= i < t.len() implies '\0' <= #[trigger] t[i] <= '\u{7f}' by {
        if !(i == 8 || i == 13 || i == 18 || i == 23) {
            let sh: u128 = v >> ((4 * (31 - uuid_digit_index(i))) as u32);
            assert(sh & 0xf <= 0xf) by (bit_vector);
        }
    }
    assert(is_ascii_chars(t));
    is_ascii_chars_encode_utf8(t);
}

/// The value of a lowercase hex digit.
pub open spec fn hex_value(c: char) -> int {
    if '0' <= c <= '9' {
        c as int - 48
    } else {
        c as int - 87
    }
}

/// The position, in a hyphenated UUID text, of its hex digit number `k`
/// (counting from 0): past one more hyphen after each of digits 8, 12, 16
/// and 20.
pub open spec fn uuid_digit_pos(k: int) -> int {
    k + (if k >= 8 { 1int } else { 0 }) + (if k >= 12 { 1int } else { 0 }) + (if k >= 16 { 1int } else { 0 }) + (if k
        >= 20 { 1int } else { 0 })
}

/// The number that the first `n` hex digits of a hyphenated UUID text
/// spell, most significant first.
pub open spec fn uuid_text_value(t: Seq<char>, n: nat) -> int
    decreases n,
{
    if n == 0 {
        0
    } else {
        uuid_text_value(t, (n - 1) as nat) * 16 + hex_value(t[uuid_digit_pos(n - 1)])
    }
}

proof fn lemma_hex_value(d: u128)
    requires
        d < 16,
    ensures
        hex_value(hex_digit(d)) == d,
{
}

proof fn lemma_uuid_text_prefix(u: u128, n: nat)
    requires
        1 <= n <= 32,
    ensures
        uuid_text_value(uuid_hyphenated(u), n) == (u >> ((4 * (32 - n)) as u32)) as int,
    decreases n,
{
    let t = uuid_hyphenated(u);
    let k = n - 1;
    let sh = (4 * (31 - k)) as u32;
    assert(uuid_digit_index(uuid_digit_pos(k)) == k);
    assert(t[uuid_digit_pos(k)] == hex_digit((u >> sh) & 0xf));
    assert((u >> sh) & 0xf < 16) by (bit_vector);
    lemma_hex_value((u >> sh) & 0xf);
    assert(uuid_text_value(t, n) == uuid_text_value(t, k as nat) * 16 + ((u >> sh) & 0xf));
    if n == 1 {
        assert(sh == 124);
        assert((u >> 124u32) & 0xf == u >> 124u32) by (bit_vector);
    } else {
        lemma_uuid_text_prefix(u, (n - 1) as nat);
        let hi = (4 * (32 - (n - 1))) as u32;
        assert(hi == sh + 4);
        assert((u >> (sh + 4) as u32) * 16 + ((u >> sh) & 0xf) == u >> sh) by (bit_vector)
            requires
                sh <= 120,
        ;
        assert(uuid_text_value(t, k as nat) == (u >> hi) as int);
    }
}

/// The UUID text reads back as the UUID: it has 36 characters, hyphens at
/// positions 8, 13, 18 and 23, and its 32 hex digits spell `u`.
pub proof fn lemma_uuid_text_value(u: u128)
    ensures
        uuid_hyphenated(u).len() == 36,
        uuid_hyphenated(u)[8] == '-' && uuid_hyphenated(u)[13] == '-' && uuid_hyphenated(u)[18] == '-'
            && uuid_hyphenated(u)[23] == '-',
        uuid_text_value(uuid_hyphenated(u), 32) == u,
{
    lemma_uuid_text_prefix(u, 32);
    assert(u >> 0u32 == u) by (bit_vector);
}

/// A login success carries the player's UUID: for any `u` (and any name,
/// which is not sent), the answer is a frame of 39 bytes: id 2, then a text
/// that reads back as the hyphenated UUID text whose digits spell `u`, then an
/// empty list of properties (a VarInt 0).
pub proof fn lemma_login_success_carries_uuid(u: u128, name: String)
    ensures
        ({
            let s = LoginPacket::Success(u, name).spec_serialize();
            &&& s.len() == 40
            &&& varint_at(s, 0) == Read::Done(39i32, 1)
            &&& s[1] == 2
            &&& string_at(s, 2) matches Read::Done(t, q) && q == 39 && t.len() == 36 && uuid_text_value(t, 32)
                == u
            &&& varint_at(s, 39) == Read::Done(0i32, 40)
        }),
{
    let t = uuid_hyphenated(u);
    let text = string_bytes(encode_utf8(t));
    let body = seq![2u8] + text + varint_bytes(0);
    let s = LoginPacket::Success(u, name).spec_serialize();
    lemma_uuid_text_len(u);
    lemma_uuid_text_value(u);
    lemma_varint_len(36);
    lemma_varint_len(0);
    lemma_varint_len(39);
    assert(text.len() == 37);
    assert(body.len() == 39);
    assert((body.len() as usize) as i32 == 39);
    assert(s =~= varint_bytes(39) + body);
    lemma_varint_write_read(39, body);
    lemma_string_write_read(t, varint_bytes(0));
    assert(s =~= (varint_bytes(39) + seq![2u8]) + (text + varint_bytes(0)));
    lemma_reads_after(varint_bytes(39) + seq![2u8], text + varint_bytes(0), 0);
    lemma_varint_write_read(0, Seq::<u8>::empty());
    assert(varint_bytes(0) + Seq::<u8>::empty() =~= varint_bytes(0));
    assert(s =~= (varint_bytes(39) + seq![2u8] + text) + varint_bytes(0));
    lemma_reads_after(varint_bytes(39) + seq![2u8] + text, varint_bytes(0), 0);
}

/// A login refusal carries its reason: after the frame's length comes id 0,
/// then a text that reads back as the reason's JSON text, ending the frame.
pub proof fn lemma_login_block_carries_reason(json: String)
    requires
        encode_utf8(json@).len() < i32::MAX,
    ensures
        ({
            let s = LoginPacket::Block(json).spec_serialize();
            let n = varint_bytes((block_body(json@).len() as usize) as i32).len();
            &&& s[n as int] == 0
            &&& string_at(s, n + 1) == Read::Done(json@, s.len())
        }),
{
    let body = block_body(json@);
    let text = string_bytes(encode_utf8(json@));
    let head = varint_bytes((body.len() as usize) as i32) + seq![0u8];
    let s = LoginPacket::Block(json).spec_serialize();
    assert(s =~= head + (text + Seq::<u8>::empty()));
    lemma_string_write_read(json@, Seq::<u8>::empty());
    lemma_reads_after(head, text + Seq::<u8>::empty(), 0);
}

/// The body of a login success: id 2, the UUID's text, then an empty list of
/// properties (a zero VarInt). The name is not sent.
pub open spec fn success_body(uuid: u128) -> Seq<u8> {
    seq![2u8] + string_bytes(encode_utf8(uuid_hyphenated(uuid))) + varint_bytes(0)
}

/// The body of a login refusal: id 0, then the reason's JSON text.
pub open spec fn block_body(json: Seq<char>) -> Seq<u8> {
    seq![0u8] + string_bytes(encode_utf8(json))
}

impl SerializePacket for LoginPacket {
    open spec fn spec_serialize(&self) -> Seq<u8> {
        match self {
            LoginPacket::Success(uuid, name) => frame(success_body(*uuid)),
            LoginPacket::Block(json) => frame(block_body(json@)),
        }
    }

    /// A refusal's text and the whole body must have lengths that do not come
    /// out negative as an `i32`.
    open spec fn serializable(&self) -> bool {
        match self {
            LoginPacket::Success(uuid, name) => true,
            LoginPacket::Block(json) => string_len_ok(encode_utf8(json@)) && string_len_ok(block_body(json@)),
        }
    }

    /// The framed answer.
    fn serialize(&self) -> (r: Vec<u8>) {
        let mut writer = PacketWriter::new();
        match self {
            Self::Success(uuid, name) => {
                writer.write(0x02 as u8);
                proof {
                    lemma_le_bytes_u8(2);
                }
                proof {
                    lemma_uuid_text_len(*uuid);
                }
                writer.write(uuid_text(*uuid));
                writer.write_varint(0);
                proof {
                    assert(writer@ =~= success_body(*uuid));
                }
            },
            Self::Block(reason) => {
                writer.write(0x00 as u8);
                proof {
                    lemma_le_bytes_u8(0);
                }
                writer.write(reason.clone());
                proof {
                    assert(writer@ =~= block_body(reason@));
                }
            },
        }
        proof {
            if let LoginPacket::Success(uuid, name) = self {
                assert(success_body(*uuid).len() == 1 + 1 + 36 + 1) by {
                    lemma_uuid_text_len(*uuid);
                }
            }
        }
        writer.bytes()
    }
}

} // verus!
