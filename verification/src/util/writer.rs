use vstd::prelude::*;
use crate::util::binary::{copy_bytes, le_bytes, le_bytes_exec, lemma_varint_step, varint_len, VarInt};

verus! {

/// Numbers that can be written as bytes.
pub trait ToBytes {
    /// The bytes of the value.
    spec fn spec_to_bytes(&self) -> Seq<u8>;

    /// The bytes of the value.
    fn to_bytes(&self) -> (r: Vec<u8>)
        ensures
            r@ == self.spec_to_bytes(),
    ;
}

/// The value `write_varint` ends with and writes: `v` shifted right by seven
/// bits once for every byte of its VarInt encoding but the last.
pub open spec fn varint_last_group(v: i32) -> i32 {
    v >> (7 * ((varint_len(v as int) - 1) as u32))
}

/// What `write_varint` appends for a non-negative `v`: the four little-endian
/// bytes of its last seven-bit group.
pub open spec fn varint_written(v: i32) -> Seq<u8> {
    le_bytes(varint_last_group(v) as u128, 4)
}

/// Builds a byte buffer by appending to it.
pub struct BinaryWriter {
    buffer: Vec<u8>,
}

impl View for BinaryWriter {
    type V = Seq<u8>;

    closed spec fn view(&self) -> Seq<u8> {
        self.buffer@
    }
}

impl BinaryWriter {
    /// An empty writer.
    pub fn new() -> (w: Self)
        ensures
            w@ == Seq::<u8>::empty(),
    {
        BinaryWriter { buffer: Vec::new() }
    }

    /// Appends the bytes of `data`.
    pub fn write<T: ToBytes>(&mut self, data: T)
        ensures
            final(self)@ == old(self)@ + data.spec_to_bytes(),
    {
        self.write_bytes(&mut data.to_bytes());
    }

    /// Moves all of `bytes` to the end of the buffer, leaving `bytes` empty.
    pub fn write_bytes(&mut self, bytes: &mut Vec<u8>)
        ensures
            final(self)@ == old(self)@ + old(bytes)@,
            final(bytes)@ == Seq::<u8>::empty(),
    {
        self.buffer.append(bytes)
    }

    /// Computes the VarInt encoding of a non-negative `v` into a scratch buffer,
    /// then appends not that buffer but the four little-endian bytes of the last
    /// seven-bit group it reached. A negative value is not accepted: the loop
    /// would index past the scratch buffer.
    pub fn write_varint(&mut self, v: i32)
        requires
            v >= 0,
        ensures
            final(self)@ == old(self)@ + varint_written(v),
    {
        let len = Self::varint_len(v);
        let mut buf = vec![0u8; len];
        let mut value = v;
        let mut i: usize = 0;
        assert(v >> (7 * 0u32) == v) by (bit_vector);
        while i <= len
            invariant
                0 <= v,
                len == varint_len(v as int),
                buf@.len() == len,
                i < len,
                value == v >> (7 * (i as u32)),
            ensures
                value == varint_last_group(v),
            decreases len - i,
        {
            proof { lemma_varint_step(v, i as u32); }
            if (value & !0x7f) == 0 {
                buf.set(i, (value & 0x7f) as u8);
                break;
            } else {
                buf.set(i, ((value & 0x7f) | 0x80) as u8);
                value >>= 7;
                i = i + 1;
            }
        }
        self.write(value)
    }

    /// The number of bytes written.
    pub fn length(&self) -> (n: usize)
        ensures
            n == self@.len(),
    {
        self.buffer.len()
    }

    /// A copy of the bytes written.
    pub fn buffer_cloned(&self) -> (r: Vec<u8>)
        ensures
            r@ == self@,
    {
        copy_bytes(&self.buffer)
    }

    /// A copy of the bytes written.
    pub fn buffer(&self) -> (r: Vec<u8>)
        ensures
            r@ == self@,
    {
        copy_bytes(&self.buffer)
    }

    /// Number of bytes of the VarInt encoding of `v`; 5 for a negative `v`.
    pub fn varint_len(v: i32) -> (n: usize)
        ensures
            n == if v < 0 { 5 } else { varint_len(v as int) },
    {
        VarInt::varint_byte_count(v)
    }
}

/// Builds the body of a packet; `bytes` frames it with its length.
pub struct PacketWriter {
    writer: BinaryWriter,
}

impl View for PacketWriter {
    type V = Seq<u8>;

    closed spec fn view(&self) -> Seq<u8> {
        self.writer@
    }
}

/// A packet framed by this module's `write_varint`: what it writes for the
/// body's length (taken as an `i32`), then the body.
pub open spec fn frame(body: Seq<u8>) -> Seq<u8> {
    varint_written((body.len() as usize) as i32) + body
}

impl PacketWriter {
    /// An empty packet body.
    pub fn new() -> (w: Self)
        ensures
            w@ == Seq::<u8>::empty(),
    {
        PacketWriter { writer: BinaryWriter::new() }
    }

    /// Appends the bytes of `data` to the body.
    pub fn write<T: ToBytes>(&mut self, data: T)
        ensures
            final(self)@ == old(self)@ + data.spec_to_bytes(),
    {
        self.writer.write_bytes(&mut data.to_bytes());
    }

    /// Moves all of `bytes` to the end of the body, leaving `bytes` empty.
    pub fn write_bytes(&mut self, bytes: &mut Vec<u8>)
        ensures
            final(self)@ == old(self)@ + old(bytes)@,
            final(bytes)@ == Seq::<u8>::empty(),
    {
        self.writer.write_bytes(bytes)
    }

    /// Appends what `BinaryWriter::write_varint` appends for a non-negative `v`.
    pub fn write_varint(&mut self, v: i32)
        requires
            v >= 0,
        ensures
            final(self)@ == old(self)@ + varint_written(v),
    {
        self.writer.write_varint(v)
    }

    /// The framed packet. The body's length is taken as an `i32`; it must not
    /// come out negative.
    pub fn bytes(&self) -> (r: Vec<u8>)
        requires
            (self@.len() as usize) as i32 >= 0,
        ensures
            r@ == frame(self@),
    {
        let mut writer = BinaryWriter::new();
        writer.write_varint(self.writer.length() as i32);
        writer.write_bytes(&mut self.writer.buffer());
        writer.buffer()
    }
}

impl ToBytes for u8 {
    open spec fn spec_to_bytes(&self) -> Seq<u8> {
        le_bytes(*self as u128, 1)
    }

    /// The 1 little-endian bytes of the value.
    fn to_bytes(&self) -> (r: Vec<u8>) {
        le_bytes_exec(*self as u128, 1)
    }
}

impl ToBytes for i8 {
    open spec fn spec_to_bytes(&self) -> Seq<u8> {
        le_bytes(*self as u128, 1)
    }

    /// The 1 little-endian bytes of the value.
    fn to_bytes(&self) -> (r: Vec<u8>) {
        le_bytes_exec(*self as u128, 1)
    }
}

impl ToBytes for u16 {
    open spec fn spec_to_bytes(&self) -> Seq<u8> {
        le_bytes(*self as u128, 2)
    }

    /// The 2 little-endian bytes of the value.
    fn to_bytes(&self) -> (r: Vec<u8>) {
        le_bytes_exec(*self as u128, 2)
    }
}

impl ToBytes for i16 {
    open spec fn spec_to_bytes(&self) -> Seq<u8> {
        le_bytes(*self as u128, 2)
    }

    /// The 2 little-endian bytes of the value.
    fn to_bytes(&self) -> (r: Vec<u8>) {
        le_bytes_exec(*self as u128, 2)
    }
}

impl ToBytes for u32 {
    open spec fn spec_to_bytes(&self) -> Seq<u8> {
        le_bytes(*self as u128, 4)
    }

    /// The 4 little-endian bytes of the value.
    fn to_bytes(&self) -> (r: Vec<u8>) {
        le_bytes_exec(*self as u128, 4)
    }
}

impl ToBytes for i32 {
    open spec fn spec_to_bytes(&self) -> Seq<u8> {
        le_bytes(*self as u128, 4)
    }

    /// The 4 little-endian bytes of the value.
    fn to_bytes(&self) -> (r: Vec<u8>) {
        le_bytes_exec(*self as u128, 4)
    }
}

impl ToBytes for u64 {
    open spec fn spec_to_bytes(&self) -> Seq<u8> {
        le_bytes(*self as u128, 8)
    }

    /// The 8 little-endian bytes of the value.
    fn to_bytes(&self) -> (r: Vec<u8>) {
        le_bytes_exec(*self as u128, 8)
    }
}

impl ToBytes for i64 {
    open spec fn spec_to_bytes(&self) -> Seq<u8> {
        le_bytes(*self as u128, 8)
    }

    /// The 8 little-endian bytes of the value.
    fn to_bytes(&self) -> (r: Vec<u8>) {
        le_bytes_exec(*self as u128, 8)
    }
}

impl ToBytes for u128 {
    open spec fn spec_to_bytes(&self) -> Seq<u8> {
        le_bytes(*self as u128, 16)
    }

    /// The 16 little-endian bytes of the value.
    fn to_bytes(&self) -> (r: Vec<u8>) {
        le_bytes_exec(*self as u128, 16)
    }
}

impl ToBytes for i128 {
    open spec fn spec_to_bytes(&self) -> Seq<u8> {
        le_bytes(*self as u128, 16)
    }

    /// The 16 little-endian bytes of the value.
    fn to_bytes(&self) -> (r: Vec<u8>) {
        le_bytes_exec(*self as u128, 16)
    }
}

} // verus!
