use vstd::prelude::*;
use crate::util::binary::{Decoded, VarIntStep};

verus! {

/// The kind of a packet, told by its first bytes.
pub enum Packet {
    LegacyPing(),
    Handshake(),
    SLP(),
    Ping(),
    Unknown(),
}

impl Packet {
    /// Tells a packet's kind from its bytes: id 0 alone is a server list
    /// request, id 0 with more bytes a handshake, any other id unknown. The
    /// bytes must not be empty.
    pub fn parse(bytes: Vec<u8>) -> (p: Self)
        requires
            bytes@.len() > 0,
        ensures
            bytes@[0] == 0 && bytes@.len() == 1 ==> p is SLP,
            bytes@[0] == 0 && bytes@.len() > 1 ==> p is Handshake,
            bytes@[0] != 0 ==> p is Unknown,
    {
        let id = bytes[0];

        match id {
            0x00 => {
                if bytes.len() == 1 {
                    Packet::SLP()
                } else {
                    Packet::Handshake()
                }
            },
            _ => Packet::Unknown(),
        }
    }
}

/// What reading a packet from a stream does after the length.
pub enum FrameStart {
    /// Length 0: the stream has ended (the stream reader answers with an
    /// `Other` I/O error, "EOF").
    End,
    /// Length 254: a legacy ping.
    Legacy,
    /// Any other length: read that many bytes and tell the packet's kind.
    Body(usize),
}

/// What reading a packet from a stream does with the length it read first.
/// A negative length is not accepted: no buffer of that size can be had.
pub fn frame_start(len: i32) -> (r: FrameStart)
    requires
        len >= 0,
    ensures
        len == 0 ==> r is End,
        len == 254 ==> r is Legacy,
        len != 0 && len != 254 ==> r == FrameStart::Body(len as usize),
{
    match len {
        0 => FrameStart::End,
        254 => FrameStart::Legacy,
        i => FrameStart::Body(i as usize),
    }
}

/// Folds a byte as the stream reader does: the low seven bits of the byte are
/// shifted as a byte (by seven times the byte's index, modulo eight, dropping
/// what leaves the byte), then widened and or-ed in.
pub open spec fn stream_acc(value: i32, shift: u32, byte: u8) -> i32 {
    value | ((byte & 127).wrapping_shl((shift * 7) as u32) as i32)
}

/// Decoding of a VarInt read from a stream, `shift` bytes having been folded
/// into `value`: each byte is folded with `stream_acc`; a byte without its high
/// bit ends the value, and a sixth byte is read and then rejected.
pub open spec fn decode_stream_varint_from(s: Seq<u8>, value: i32, shift: u32) -> Decoded<i32>
    decreases s.len(),
{
    if s.len() == 0 {
        Decoded::Truncated
    } else {
        let v = stream_acc(value, shift, s[0]);
        if shift + 1 > 5 {
            Decoded::TooBig
        } else if s[0] & 128 != 128 {
            Decoded::Value(v, (shift + 1) as nat)
        } else {
            decode_stream_varint_from(s.drop_first(), v, (shift + 1) as u32)
        }
    }
}

/// Decoding of a VarInt read from a stream, from the start of `s`: the value
/// and the number of bytes it took, or how the decoding ends without one.
pub open spec fn decode_stream_varint(s: Seq<u8>) -> Decoded<i32> {
    decode_stream_varint_from(s, 0, 0)
}

/// Folding a stream's bytes one at a time with `read_varint32_step`, from
/// value 0 and no byte read, decodes as `decode_stream_varint` does: a step
/// that continues leaves the rest of the decoding to the bytes after it, a step
/// that stops gives the decoding's value, and a sixth byte is too big.
pub proof fn lemma_read_varint32_step(value: i32, shift: u32, byte: u8, rest: Seq<u8>)
    requires
        shift <= 5,
    ensures
        ({
            let s = seq![byte] + rest;
            &&& shift + 1 > 5 ==> decode_stream_varint_from(s, value, shift) is TooBig
            &&& shift + 1 <= 5 && byte & 128 != 128 ==> decode_stream_varint_from(s, value, shift)
                == Decoded::Value(stream_acc(value, shift, byte), (shift + 1) as nat)
            &&& shift + 1 <= 5 && byte & 128 == 128 ==> decode_stream_varint_from(s, value, shift)
                == decode_stream_varint_from(rest, stream_acc(value, shift, byte), (shift + 1) as u32)
        }),
{
    let s = seq![byte] + rest;
    assert(s[0] == byte);
    assert(s.drop_first() =~= rest);
}

/// Folds the next byte of a VarInt read from a stream, `shift` bytes having
/// been folded into `value`.
pub fn read_varint32_step(value: i32, shift: u32, byte: u8) -> (r: VarIntStep)
    requires
        shift <= 5,
    ensures
        shift + 1 > 5 ==> r is TooBig,
        shift + 1 <= 5 && byte & 128 != 128 ==> r == VarIntStep::Done(stream_acc(value, shift, byte)),
        shift + 1 <= 5 && byte & 128 == 128 ==> r == VarIntStep::More(stream_acc(value, shift, byte), (shift + 1) as u32),
{
    let value = value | (byte & 127).wrapping_shl(shift * 7) as i32;
    let shift = shift + 1;
    if shift > 5 {
        return VarIntStep::TooBig;
    }
    if (byte & 128) != 128 {
        VarIntStep::Done(value)
    } else {
        VarIntStep::More(value, shift)
    }
}

} // verus!
