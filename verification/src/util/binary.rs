use vstd::prelude::*;
use crate::error::{Error, ErrorKind, Result};
use vstd::utf8::*;
use vstd::string::*;

verus! {

broadcast use vstd::layout::layout_of_primitives;

/// Byte `i` of the little-endian encoding of `x`.
pub open spec fn le_byte(x: u128, i: int) -> u8 {
    ((x >> ((8 * i) as u32)) & 0xff) as u8
}

/// The first `n` bytes of the little-endian encoding of `x` (its two's complement
/// encoding, for a value of a signed type widened to `u128`).
pub open spec fn le_bytes(x: u128, n: nat) -> Seq<u8> {
    Seq::new(n, |i: int| le_byte(x, i))
}

/// The one little-endian byte of a `u8` is the byte itself.
pub proof fn lemma_le_bytes_u8(x: u8)
    ensures
        le_bytes(x as u128, 1) == seq![x],
{
    let w = x as u128;
    assert(((w >> 0u32) & 0xff) as u8 == x) by (bit_vector)
        requires w == x as u128;
    assert(le_bytes(x as u128, 1) =~= seq![x]);
}

/// The value of `s` read as a big-endian unsigned number.
pub open spec fn be_value(s: Seq<u8>) -> nat
    decreases s.len(),
{
    if s.len() == 0 {
        0
    } else {
        be_value(s.drop_last()) * 256 + s.last() as nat
    }
}

/// `256` to the power `n`.
pub open spec fn byte_pow(n: nat) -> nat
    decreases n,
{
    if n == 0 {
        1
    } else {
        256 * byte_pow((n - 1) as nat)
    }
}

proof fn lemma_be_value_bound(s: Seq<u8>)
    ensures
        be_value(s) < byte_pow(s.len()),
    decreases s.len(),
{
    if s.len() > 0 {
        lemma_be_value_bound(s.drop_last());
        let a = be_value(s.drop_last());
        let p = byte_pow(s.drop_last().len());
        let b = s.last() as nat;
        assert(a * 256 + b < 256 * p) by (nonlinear_arith)
            requires a < p, b < 256;
    }
}

pub(crate) fn le_bytes_exec(x: u128, n: usize) -> (r: Vec<u8>)
    requires
        n <= 16,
    ensures
        r@ == le_bytes(x, n as nat),
{
    let mut out: Vec<u8> = Vec::new();
    let mut i: usize = 0;
    while i < n
        invariant
            i <= n <= 16,
            out@ =~= le_bytes(x, i as nat),
        decreases n - i,
    {
        out.push(((x >> ((8 * i) as u32)) & 0xff) as u8);
        i = i + 1;
    }
    out
}

fn be_value_exec(b: &Vec<u8>) -> (r: u128)
    requires
        b@.len() <= 16,
    ensures
        r as nat == be_value(b@),
{
    let mut acc: u128 = 0;
    let mut i: usize = 0;
    proof {
        reveal_with_fuel(byte_pow, 17);
        assert(b@.take(0) =~= Seq::<u8>::empty());
    }
    while i < b.len()
        invariant
            i <= b@.len() <= 16,
            acc as nat == be_value(b@.take(i as int)),
            byte_pow(16) == 0x1_0000_0000_0000_0000_0000_0000_0000_0000,
        decreases b@.len() - i,
    {
        proof {
            lemma_be_value_bound(b@.take(i as int + 1));
            let t = b@.take(i as int + 1);
            assert(t.drop_last() =~= b@.take(i as int));
            lemma_byte_pow_mono((i + 1) as nat, 16);
        }
        acc = acc * 256 + b[i] as u128;
        i = i + 1;
    }
    proof {
        assert(b@.take(b@.len() as int) =~= b@);
    }
    acc
}

proof fn lemma_byte_pow_mono(a: nat, b: nat)
    requires
        a <= b,
    ensures
        byte_pow(a) <= byte_pow(b),
    decreases b,
{
    if a < b {
        lemma_byte_pow_mono(a, (b - 1) as nat);
    }
}

/// How decoding a variable-length integer from a byte sequence ends.
pub enum Decoded<T> {
    /// The value, and the number of bytes it took.
    Value(T, nat),
    /// Too many continuation bytes: the decoder gave up after reading one byte
    /// past the longest allowed encoding.
    TooBig,
    /// The bytes ran out before a final byte.
    Truncated,
}

/// Folds one VarInt byte into the accumulated value: its low seven bits,
/// shifted left (wrapping) by seven times the number of bytes before it.
pub open spec fn varint_acc(value: i32, shift: u32, byte: u8) -> i32 {
    value | ((byte as i32) & 127).wrapping_shl((shift * 7) as u32)
}

/// Decoding of a VarInt from `s`, with `shift` bytes already folded into `value`.
/// At most five bytes are read; a sixth byte is read and then rejected.
pub open spec fn decode_varint_from(s: Seq<u8>, value: i32, shift: u32) -> Decoded<i32>
    decreases s.len(),
{
    if s.len() == 0 {
        Decoded::Truncated
    } else {
        let v = varint_acc(value, shift, s[0]);
        if shift + 1 > 5 {
            Decoded::TooBig
        } else if s[0] & 128 != 128 {
            Decoded::Value(v, (shift + 1) as nat)
        } else {
            decode_varint_from(s.drop_first(), v, (shift + 1) as u32)
        }
    }
}

/// A VarInt decoding that ends in a value depends only on the bytes it used.
proof fn lemma_decode_varint_take(s: Seq<u8>, value: i32, shift: u32)
    ensures
        decode_varint_from(s, value, shift) matches Decoded::Value(v, n) ==> (n >= shift + 1
            && n <= 5 && n - shift <= s.len()
            && decode_varint_from(s.take(n - shift), value, shift) == Decoded::Value(v, n)),
    decreases s.len(),
{
    if s.len() > 0 {
        let v = varint_acc(value, shift, s[0]);
        if shift + 1 <= 5 && s[0] & 128 == 128 {
            lemma_decode_varint_take(s.drop_first(), v, (shift + 1) as u32);
            if let Decoded::Value(w, n) = decode_varint_from(s, value, shift) {
                let t = s.take(n - shift);
                assert(t.drop_first() =~= s.drop_first().take(n - (shift + 1)));
            }
        } else if shift + 1 <= 5 {
            let t = s.take(1);
            assert(t.drop_first() =~= Seq::<u8>::empty());
        }
    }
}

/// A VarInt decoding that ends in a value is not changed by bytes that follow.
pub proof fn lemma_decode_varint_append(s: Seq<u8>, rest: Seq<u8>, value: i32, shift: u32)
    ensures
        decode_varint_from(s, value, shift) is Value ==> decode_varint_from(s + rest, value, shift)
            == decode_varint_from(s, value, shift),
    decreases s.len(),
{
    if s.len() > 0 {
        let v = varint_acc(value, shift, s[0]);
        assert((s + rest)[0] == s[0]);
        if shift + 1 <= 5 && s[0] & 128 == 128 {
            assert((s + rest).drop_first() =~= s.drop_first() + rest);
            lemma_decode_varint_append(s.drop_first(), rest, v, (shift + 1) as u32);
        }
    }
}

/// Decoding of a VarInt from the start of `s`.
pub open spec fn decode_varint(s: Seq<u8>) -> Decoded<i32> {
    decode_varint_from(s, 0, 0)
}

/// Folds one VarLong byte: the low seven bits of the byte are shifted as a byte
/// (by seven times the byte's index, modulo eight, dropping what leaves the byte)
/// and then widened.
pub open spec fn varlong_acc(value: i64, shift: u32, byte: u8) -> i64 {
    value | ((byte & 127).wrapping_shl((shift * 7) as u32) as i64)
}

/// Decoding of a VarLong from `s` with `shift` bytes already folded into `value`;
/// at most ten bytes, an eleventh is read and rejected.
pub open spec fn decode_varlong_from(s: Seq<u8>, value: i64, shift: u32) -> Decoded<i64>
    decreases s.len(),
{
    if s.len() == 0 {
        Decoded::Truncated
    } else {
        let v = varlong_acc(value, shift, s[0]);
        if shift + 1 > 10 {
            Decoded::TooBig
        } else if s[0] & 128 != 128 {
            Decoded::Value(v, (shift + 1) as nat)
        } else {
            decode_varlong_from(s.drop_first(), v, (shift + 1) as u32)
        }
    }
}

/// A VarLong decoding that ends in a value depends only on the bytes it used.
proof fn lemma_decode_varlong_take(s: Seq<u8>, value: i64, shift: u32)
    ensures
        decode_varlong_from(s, value, shift) matches Decoded::Value(v, n) ==> (n >= shift
            && n - shift <= s.len()
            && decode_varlong_from(s.take(n - shift), value, shift) == Decoded::Value(v, n)),
    decreases s.len(),
{
    if s.len() > 0 {
        let v = varlong_acc(value, shift, s[0]);
        if shift + 1 <= 10 && s[0] & 128 == 128 {
            lemma_decode_varlong_take(s.drop_first(), v, (shift + 1) as u32);
            if let Decoded::Value(w, n) = decode_varlong_from(s, value, shift) {
                let t = s.take(n - shift);
                assert(t.drop_first() =~= s.drop_first().take(n - (shift + 1)));
            }
        } else if shift + 1 <= 10 {
            let t = s.take(1);
            assert(t.drop_first() =~= Seq::<u8>::empty());
        }
    }
}

/// What comes of folding in the next byte of a VarInt read one byte at a time.
pub enum VarIntStep {
    /// More bytes follow: the value so far and the number of bytes read.
    More(i32, u32),
    /// The last byte: the value.
    Done(i32),
    /// A sixth byte: "VarInt too big".
    TooBig,
}

/// Folds the next byte of a VarInt as `read_varint` does, `shift` bytes
/// having been folded into `value`; for readers that fetch the bytes
/// themselves.
pub fn read_varint_step(value: i32, shift: u32, byte: u8) -> (r: VarIntStep)
    requires
        shift <= 5,
    ensures
        shift + 1 > 5 ==> r is TooBig,
        shift + 1 <= 5 && byte & 128 != 128 ==> r == VarIntStep::Done(varint_acc(value, shift, byte)),
        shift + 1 <= 5 && byte & 128 == 128 ==> r == VarIntStep::More(varint_acc(value, shift, byte), (shift + 1) as u32),
{
    let value = value | ((byte as i32) & 127).wrapping_shl(shift * 7);
    let shift = shift + 1;
    if shift > 5 {
        return VarIntStep::TooBig;
    }
    if (byte & 128) != 128 {
        VarIntStep::Done(value)
    } else {
        VarIntStep::More(value, shift)
    }
}

/// Folding bytes one at a time with `read_varint_step` decodes as
/// `decode_varint` does: a step that continues leaves the rest of the decoding
/// to the bytes after it, and a step that stops gives the decoding's result.
pub proof fn lemma_read_varint_step(value: i32, shift: u32, byte: u8, rest: Seq<u8>)
    requires
        shift <= 5,
    ensures
        ({
            let s = seq![byte] + rest;
            &&& shift + 1 > 5 ==> decode_varint_from(s, value, shift) is TooBig
            &&& shift + 1 <= 5 && byte & 128 != 128 ==> decode_varint_from(s, value, shift) == Decoded::Value(
                varint_acc(value, shift, byte),
                (shift + 1) as nat,
            )
            &&& shift + 1 <= 5 && byte & 128 == 128 ==> decode_varint_from(s, value, shift) == decode_varint_from(
                rest,
                varint_acc(value, shift, byte),
                (shift + 1) as u32,
            )
        }),
{
    let s = seq![byte] + rest;
    assert(s[0] == byte);
    assert(s.drop_first() =~= rest);
}

/// Decoding of a VarLong from the start of `s`.
pub open spec fn decode_varlong(s: Seq<u8>) -> Decoded<i64> {
    decode_varlong_from(s, 0, 0)
}

/// `e` has kind `kind` and message `msg`.
pub open spec fn is_error(e: Error, kind: ErrorKind, msg: Seq<char>) -> bool {
    e.kind == kind && e.message@ == msg
}

/// How a read from a buffer at some offset ends: a value and the offset after
/// it, or an error's kind and message and the offset the reader is left at.
pub enum Read<T> {
    Done(T, nat),
    Fail(ErrorKind, Seq<char>, nat),
}

/// `res`, left at offset `pos`, as a `Read`.
pub open spec fn read_of<T>(res: Result<T>, pos: nat) -> Read<T> {
    match res {
        Ok(v) => Read::Done(v, pos),
        Err(e) => Read::Fail(e.kind, e.message@, pos),
    }
}

/// `res`, left at offset `pos`, as a `Read` of its text.
pub open spec fn string_read_of(res: Result<String>, pos: nat) -> Read<Seq<char>> {
    match res {
        Ok(v) => Read::Done(v@, pos),
        Err(e) => Read::Fail(e.kind, e.message@, pos),
    }
}

/// The bytes of `buf` from `pos` on (none where `pos` is past the end).
pub open spec fn rest_at(buf: Seq<u8>, pos: nat) -> Seq<u8> {
    if pos <= buf.len() {
        buf.subrange(pos as int, buf.len() as int)
    } else {
        Seq::empty()
    }
}

/// Reading a VarInt at `pos`: fails with "VarInt too big" after six bytes, or
/// with "Out of range" having consumed the rest of the buffer.
pub open spec fn varint_at(buf: Seq<u8>, pos: nat) -> Read<i32> {
    match decode_varint(rest_at(buf, pos)) {
        Decoded::Value(v, n) => Read::Done(v, pos + n),
        Decoded::TooBig => Read::Fail(ErrorKind::OutOfRange, "VarInt too big"@, pos + 6),
        Decoded::Truncated => Read::Fail(ErrorKind::OutOfRange, "Out of range"@, pos + rest_at(buf, pos).len()),
    }
}

/// Reading a VarLong at `pos`: fails with "VarLong too big" after eleven bytes,
/// or with "Out of range" having consumed the rest of the buffer.
pub open spec fn varlong_at(buf: Seq<u8>, pos: nat) -> Read<i64> {
    match decode_varlong(rest_at(buf, pos)) {
        Decoded::Value(v, n) => Read::Done(v, pos + n),
        Decoded::TooBig => Read::Fail(ErrorKind::OutOfRange, "VarLong too big"@, pos + 11),
        Decoded::Truncated => Read::Fail(ErrorKind::OutOfRange, "Out of range"@, pos + rest_at(buf, pos).len()),
    }
}

/// Reading `count` bytes at `pos`: none always succeeds; otherwise "Out of
/// range", moving nothing, when fewer remain.
pub open spec fn bytes_at(buf: Seq<u8>, pos: nat, count: nat) -> Read<Seq<u8>> {
    if count == 0 {
        Read::Done(Seq::empty(), pos)
    } else if pos + count <= buf.len() {
        Read::Done(buf.subrange(pos as int, (pos + count) as int), pos + count)
    } else {
        Read::Fail(ErrorKind::OutOfRange, "Out of range"@, pos)
    }
}

/// Reading a number of type `T` at `pos`: its bytes read big-endian.
pub open spec fn number_at<T: BytesToNumber>(buf: Seq<u8>, pos: nat) -> Read<T> {
    match bytes_at(buf, pos, vstd::layout::size_of::<T>()) {
        Read::Done(b, q) => Read::Done(T::spec_from_bytes(b), q),
        Read::Fail(k, m, q) => Read::Fail(k, m, q),
    }
}

/// Reading a text at `pos`: a VarInt length, taken as a `usize` (a negative
/// length becomes a huge one), then that many bytes, which must be UTF-8; else
/// "Out of range" with the UTF-8 error's message, past the bytes.
pub open spec fn string_at(buf: Seq<u8>, pos: nat) -> Read<Seq<char>> {
    match varint_at(buf, pos) {
        Read::Fail(k, m, p) => Read::Fail(k, m, p),
        Read::Done(len, p) => match bytes_at(buf, p, (len as usize) as nat) {
            Read::Fail(k, m, q) => Read::Fail(k, m, q),
            Read::Done(text, q) => if valid_utf8(text) {
                Read::Done(decode_utf8(text), q)
            } else {
                Read::Fail(ErrorKind::OutOfRange, utf8_error_text(text), q)
            },
        },
    }
}

/// A VarInt read that succeeds moves forward by one to five bytes, within the buffer.
pub proof fn lemma_varint_at_done(buf: Seq<u8>, pos: nat)
    ensures
        varint_at(buf, pos) matches Read::Done(v, p) ==> pos < p <= buf.len() && p <= pos + 5,
{
    lemma_decode_varint_take(rest_at(buf, pos), 0, 0);
}

/// A byte read that succeeds from within the buffer ends within it.
pub proof fn lemma_bytes_at_done(buf: Seq<u8>, pos: nat, count: nat)
    requires
        pos <= buf.len(),
    ensures
        bytes_at(buf, pos, count) matches Read::Done(b, q) ==> pos <= q <= buf.len() && q == pos + b.len(),
{
}

/// A text read that succeeds ends within the buffer.
pub proof fn lemma_string_at_done(buf: Seq<u8>, pos: nat)
    ensures
        string_at(buf, pos) matches Read::Done(t, q) ==> pos < q <= buf.len(),
{
    lemma_varint_at_done(buf, pos);
    if let Read::Done(len, p) = varint_at(buf, pos) {
        lemma_bytes_at_done(buf, p, (len as usize) as nat);
    }
}

/// A number read that succeeds from within the buffer ends within it.
pub proof fn lemma_number_at_done<T: BytesToNumber>(buf: Seq<u8>, pos: nat)
    requires
        pos <= buf.len(),
    ensures
        number_at::<T>(buf, pos) matches Read::Done(t, q) ==> q == pos + vstd::layout::size_of::<T>() <= buf.len(),
{
}

/// Reading a VarInt back from the start of what `write_varint` wrote gives the
/// value, just past its encoding, whatever follows.
pub proof fn lemma_varint_write_read(v: i32, rest: Seq<u8>)
    requires
        v >= 0,
    ensures
        varint_at(varint_bytes(v) + rest, 0) == Read::Done(v, varint_bytes(v).len()),
{
    let buf = varint_bytes(v) + rest;
    assert(rest_at(buf, 0) =~= buf);
    lemma_varint_roundtrip(v, rest);
}

/// Reading a text back from the start of what writing the text `t` gives (its
/// length as a VarInt, then its UTF-8 bytes) gives `t`, just past those bytes,
/// whatever follows, when its length fits in an `i32`.
pub proof fn lemma_string_write_read(t: Seq<char>, rest: Seq<u8>)
    requires
        encode_utf8(t).len() <= i32::MAX,
    ensures
        string_at(string_bytes(encode_utf8(t)) + rest, 0) == Read::Done(t, string_bytes(encode_utf8(t)).len()),
        string_at_fits(string_bytes(encode_utf8(t)) + rest, 0),
{
    broadcast use vstd::utf8::encode_utf8_valid_utf8, vstd::utf8::encode_utf8_decode_utf8;

    let text = encode_utf8(t);
    let n = (text.len() as usize) as i32;
    assert(n == text.len());
    let buf = string_bytes(text) + rest;
    assert(buf =~= varint_bytes(n) + (text + rest));
    lemma_varint_write_read(n, text + rest);
    let p = varint_bytes(n).len();
    if text.len() > 0 {
        assert(buf.subrange(p as int, (p + text.len()) as int) =~= text);
    }
}

/// Reading a byte back from what writing it gave gives the byte. This holds for
/// one-byte values only: numbers are written little-endian and read
/// big-endian, so a wider number reads back with its bytes reversed (`0x0102u16`
/// reads back as `0x0201`).
pub proof fn lemma_byte_write_read(x: u8, rest: Seq<u8>)
    ensures
        number_at::<u8>(x.spec_to_bytes() + rest, 0) == Read::Done(x, 1),
{
    lemma_le_bytes_u8(x);
    let buf = x.spec_to_bytes() + rest;
    assert(buf.subrange(0, 1) =~= seq![x]);
    let one = seq![x];
    assert(one.drop_last() =~= Seq::<u8>::empty());
    assert(be_value(one.drop_last()) == 0);
    assert(one.last() == x);
    assert(be_value(one) == x as nat);
    assert(vstd::layout::size_of::<u8>() == 1);
}

/// Reads do not depend on what comes before: a VarInt, bytes, a text or a
/// number read at the start of `s` reads the same after any prefix, ending as
/// far past the prefix as it ended past the start of `s`.
pub proof fn lemma_reads_after(pre: Seq<u8>, s: Seq<u8>, count: nat)
    ensures
        varint_at(s, 0) matches Read::Done(v, p) ==> varint_at(pre + s, pre.len()) == Read::Done(v, pre.len() + p),
        bytes_at(s, 0, count) matches Read::Done(b, q) ==> bytes_at(pre + s, pre.len(), count) == Read::Done(
            b,
            pre.len() + q,
        ),
        string_at(s, 0) matches Read::Done(t, q) ==> string_at(pre + s, pre.len()) == Read::Done(t, pre.len() + q),
{
    let buf = pre + s;
    assert(rest_at(buf, pre.len()) =~= s);
    assert(rest_at(s, 0) =~= s);
    lemma_bytes_after(pre, s, 0, count);
    lemma_varint_at_done(s, 0);
    if let Read::Done(len, p) = varint_at(s, 0) {
        lemma_bytes_after(pre, s, p, (len as usize) as nat);
    }
}

proof fn lemma_bytes_after(pre: Seq<u8>, s: Seq<u8>, pos: nat, count: nat)
    ensures
        bytes_at(s, pos, count) matches Read::Done(b, q) ==> bytes_at(pre + s, pre.len() + pos, count) == Read::Done(
            b,
            pre.len() + q,
        ),
{
    if count > 0 && pos + count <= s.len() {
        assert((pre + s).subrange((pre.len() + pos) as int, (pre.len() + pos + count) as int) =~= s.subrange(
            pos as int,
            (pos + count) as int,
        ));
    }
}

/// A number read at the start of `s` reads the same after any prefix.
pub proof fn lemma_number_after<T: BytesToNumber>(pre: Seq<u8>, s: Seq<u8>)
    ensures
        number_at::<T>(s, 0) matches Read::Done(v, q) ==> number_at::<T>(pre + s, pre.len()) == Read::Done(
            v,
            pre.len() + q,
        ),
{
    lemma_bytes_after(pre, s, 0, vstd::layout::size_of::<T>());
}

/// The `n`-byte big-endian encoding of `x`: its little-endian bytes, most
/// significant first.
pub open spec fn be_bytes(x: u128, n: nat) -> Seq<u8> {
    Seq::new(n, |i: int| le_byte(x, n - 1 - i))
}

proof fn lemma_be_value_take(s: Seq<u8>, k: int)
    requires
        0 <= k < s.len(),
    ensures
        be_value(s.take(k + 1)) == be_value(s.take(k)) * 256 + s[k],
{
    assert(s.take(k + 1).drop_last() =~= s.take(k));
}

/// Reading eight big-endian bytes as a number gives back the value they encode:
/// the `i64` whose big-endian bytes they are reads as itself.
pub proof fn lemma_be_bytes_i64(x: i64)
    ensures
        be_value(be_bytes(x as u128, 8)) == (x as u64) as int,
        (be_value(be_bytes(x as u128, 8)) as i64) == x,
{
    let s = be_bytes(x as u128, 8);
    let w = x as u64;
    assert(s.take(0) =~= Seq::<u8>::empty());
    lemma_be_value_take(s, 0);
    lemma_be_value_take(s, 1);
    lemma_be_value_take(s, 2);
    lemma_be_value_take(s, 3);
    lemma_be_value_take(s, 4);
    lemma_be_value_take(s, 5);
    lemma_be_value_take(s, 6);
    lemma_be_value_take(s, 7);
    assert(s.take(8) =~= s);
    let y = x as u128;
    assert(((y & 0xffff_ffff_ffff_ffff) as u64) == w) by (bit_vector)
        requires
            y == x as u128,
            w == x as u64,
    ;
    assert(s[0] == le_byte(y, 7));
    assert(((((y >> 56u32) & 0xff) as u8) as u64) == (w >> 56u64) & 0xff) by (bit_vector)
        requires
            ((y & 0xffff_ffff_ffff_ffff) as u64) == w,
    ;
    assert(s[1] == le_byte(y, 6));
    assert(((((y >> 48u32) & 0xff) as u8) as u64) == (w >> 48u64) & 0xff) by (bit_vector)
        requires
            ((y & 0xffff_ffff_ffff_ffff) as u64) == w,
    ;
    assert(s[2] == le_byte(y, 5));
    assert(((((y >> 40u32) & 0xff) as u8) as u64) == (w >> 40u64) & 0xff) by (bit_vector)
        requires
            ((y & 0xffff_ffff_ffff_ffff) as u64) == w,
    ;
    assert(s[3] == le_byte(y, 4));
    assert(((((y >> 32u32) & 0xff) as u8) as u64) == (w >> 32u64) & 0xff) by (bit_vector)
        requires
            ((y & 0xffff_ffff_ffff_ffff) as u64) == w,
    ;
    assert(s[4] == le_byte(y, 3));
    assert(((((y >> 24u32) & 0xff) as u8) as u64) == (w >> 24u64) & 0xff) by (bit_vector)
        requires
            ((y & 0xffff_ffff_ffff_ffff) as u64) == w,
    ;
    assert(s[5] == le_byte(y, 2));
    assert(((((y >> 16u32) & 0xff) as u8) as u64) == (w >> 16u64) & 0xff) by (bit_vector)
        requires
            ((y & 0xffff_ffff_ffff_ffff) as u64) == w,
    ;
    assert(s[6] == le_byte(y, 1));
    assert(((((y >> 8u32) & 0xff) as u8) as u64) == (w >> 8u64) & 0xff) by (bit_vector)
        requires
            ((y & 0xffff_ffff_ffff_ffff) as u64) == w,
    ;
    assert(s[7] == le_byte(y, 0));
    assert(((((y >> 0u32) & 0xff) as u8) as u64) == (w >> 0u64) & 0xff) by (bit_vector)
        requires
            ((y & 0xffff_ffff_ffff_ffff) as u64) == w,
    ;
    let b0 = (w >> 56) & 0xff;
    let b1 = (w >> 48) & 0xff;
    let b2 = (w >> 40) & 0xff;
    let b3 = (w >> 32) & 0xff;
    let b4 = (w >> 24) & 0xff;
    let b5 = (w >> 16) & 0xff;
    let b6 = (w >> 8) & 0xff;
    let b7 = (w >> 0) & 0xff;
    assert(((((((b0 * 256 + b1) * 256 + b2) * 256 + b3) * 256 + b4) * 256 + b5) * 256 + b6) * 256 + b7 == w)
        by (bit_vector)
        requires
            b0 == (w >> 56) & 0xff,
            b1 == (w >> 48) & 0xff,
            b2 == (w >> 40) & 0xff,
            b3 == (w >> 32) & 0xff,
            b4 == (w >> 24) & 0xff,
            b5 == (w >> 16) & 0xff,
            b6 == (w >> 8) & 0xff,
            b7 == (w >> 0) & 0xff,
    ;
    assert((w as i64) == x) by (bit_vector)
        requires
            w == x as u64,
    ;
}

/// Reading a `bool` back from what writing it gave gives the `bool`.
pub proof fn lemma_bool_write_read(b: bool, rest: Seq<u8>)
    ensures
        number_at::<bool>(b.spec_to_bytes() + rest, 0) == Read::Done(b, 1),
{
    let buf = b.spec_to_bytes() + rest;
    assert(buf.subrange(0, 1) =~= b.spec_to_bytes());
    assert(vstd::layout::size_of::<bool>() == 1);
}

/// A text read at `pos` stays within `usize` offsets: the length it reads,
/// taken as a `usize`, added to the offset after it, fits (the addition would
/// overflow otherwise).
pub open spec fn string_at_fits(buf: Seq<u8>, pos: nat) -> bool {
    varint_at(buf, pos) matches Read::Done(len, p) ==> ((len as usize) == 0 || p + (len as usize) <= usize::MAX)
}

/// The message of the error that `std::str::from_utf8` gives for `bytes`.
pub uninterp spec fn utf8_error_text(bytes: Seq<u8>) -> Seq<char>;

/// Calls `std::str::from_utf8`. The contract claims that it accepts exactly the
/// byte sequences that vstd's `valid_utf8` accepts, that the text it gives is
/// their decoding, and that on failure the error's `Display` text depends only on
/// the bytes.
#[verifier::external_body]
fn utf8_text(bytes: &[u8]) -> (res: core::result::Result<String, String>)
    ensures
        res is Ok <==> valid_utf8(bytes@),
        res matches Ok(s) ==> s@ == decode_utf8(bytes@),
        res matches Err(m) ==> m@ == utf8_error_text(bytes@),
{
    match std::str::from_utf8(bytes) {
        Ok(s) => Ok(s.to_string()),
        Err(e) => Err(e.to_string()),
    }
}

/// Values that can be written as bytes.
pub trait ToBytes {
    /// The bytes of the value.
    spec fn spec_to_bytes(&self) -> Seq<u8>;

    /// Whether the value can be written without failing.
    spec fn to_bytes_ok(&self) -> bool;

    /// The bytes of the value.
    fn to_bytes(&self) -> (r: Vec<u8>)
        requires
            self.to_bytes_ok(),
        ensures
            r@ == self.spec_to_bytes(),
    ;
}

/// Values that can be read from bytes.
pub trait BytesToNumber: Sized {
    /// The value that `b` encodes.
    spec fn spec_from_bytes(b: Seq<u8>) -> Self;

    /// The value that `b` encodes; `b` has as many bytes as the type.
    fn from_bytes(b: Vec<u8>) -> (r: Self)
        requires
            b@.len() == vstd::layout::size_of::<Self>(),
        ensures
            r == Self::spec_from_bytes(b@),
    ;
}

/// A source of bytes read `n` at a time.
pub trait ReadN {
    /// Whether a read of `n` bytes stays within what the source can do without
    /// failing outright (for the in-memory reader: positions fit in `usize`).
    /// A source that does not say promises nothing.
    open spec fn can_read(&self, n: usize) -> bool {
        false
    }

    /// The bytes the source has yet to hand out, in order, up to where it would
    /// fail (for the in-memory reader: the bytes from its offset on). A source
    /// that does not say has none.
    open spec fn pending(&self) -> Seq<u8> {
        Seq::empty()
    }

    /// Reads exactly `n` bytes, the next `n` pending ones, or fails; it
    /// succeeds whenever that many are pending.
    fn _read(&mut self, n: usize) -> (res: Result<Vec<u8>>)
        requires
            old(self).can_read(n),
        ensures
            res matches Ok(v) ==> v@.len() == n,
            res matches Ok(v) ==> v@ == old(self).pending().take(n as int) && final(self).pending()
                == old(self).pending().skip(n as int),
            res is Ok <==> old(self).pending().len() >= n,
            res is Ok && n > 0 ==> final(self).can_read(1),
            res is Ok ==> forall|m: usize|
                n + m <= usize::MAX && old(self).can_read((n + m) as usize) ==> #[trigger] final(self).can_read(m),
    ;
}

/// VarInt and VarLong decoding on top of a byte source.
pub trait ReadVarInt: ReadN {
    /// Reads a VarInt one byte at a time: the decoding of the pending bytes,
    /// moving past the bytes it used. Fails with `OutOfRange` ("VarInt too big")
    /// after reading a sixth byte, or with the source's error when the bytes run
    /// out before a final byte.
    fn read_varint(&mut self) -> (res: Result<i32>)
        requires
            old(self).can_read(1),
        ensures
            match decode_varint(old(self).pending()) {
                Decoded::Value(v, k) => res matches Ok(x) && x == v && final(self).pending()
                    == old(self).pending().skip(k as int) && forall|m: usize|
                    k + m <= usize::MAX && old(self).can_read((k + m) as usize) ==> #[trigger] final(self).can_read(m),
                Decoded::TooBig => res matches Err(e) && is_error(e, ErrorKind::OutOfRange, "VarInt too big"@)
                    && final(self).pending() == old(self).pending().skip(6),
                Decoded::Truncated => res is Err,
            },
    {
        let mut value = 0i32;
        let mut shift = 0u32;
        let ghost mut seen: Seq<u8> = Seq::empty();
        loop
            invariant_except_break
                self.can_read(1),
                shift <= 5,
                seen.len() == shift,
                old(self).pending() == seen + self.pending(),
                forall|m: usize|
                    shift + m <= usize::MAX && old(self).can_read((shift + m) as usize) ==> #[trigger] self.can_read(m),
                forall|t: Seq<u8>| #[trigger] decode_varint(seen + t) == decode_varint_from(t, value, shift),
            ensures
                decode_varint(old(self).pending()) == Decoded::Value(value, shift as nat),
                self.pending() == old(self).pending().skip(shift as int),
                forall|m: usize|
                    shift + m <= usize::MAX && old(self).can_read((shift + m) as usize) ==> #[trigger] self.can_read(m),
            decreases 6 - shift,
        {
            let ghost before = self.pending();
            let byte = match self._read(1) {
                Ok(v) => v,
                Err(e) => {
                    proof {
                        assert(before.len() == 0);
                        assert(seen + before =~= seen + Seq::<u8>::empty());
                    }
                    return Err(e);
                },
            };
            let b = byte[0];
            let ghost old_value = value;
            let ghost old_seen = seen;
            let ghost bs = seq![b];
            proof {
                assert(byte@ == before.take(1));
                assert(before[0] == byte@[0]);
                assert(before =~= bs + self.pending());
                assert(bs.drop_first() =~= Seq::<u8>::empty());
                assert(decode_varint(old_seen + bs) == decode_varint_from(bs, old_value, shift));
                assert(decode_varint(old_seen + before) == decode_varint_from(before, old_value, shift));
                assert(before[0] == b);
            }
            value = value | ((b as i32) & 127).wrapping_shl(shift * 7);
            shift = shift + 1;
            proof {
                seen = old_seen + bs;
                assert(old(self).pending() =~= seen + self.pending());
                assert(seen =~= old(self).pending().take(shift as int));
                assert(self.pending() =~= old(self).pending().skip(shift as int));
            }
            if shift > 5 {
                return Err(Error::new(ErrorKind::OutOfRange, "VarInt too big"));
            }
            if (b & 128) != 128 {
                break;
            }
            proof {
                assert forall|t: Seq<u8>| #[trigger] decode_varint(seen + t) == decode_varint_from(t, value, shift) by {
                    let bt = bs + t;
                    assert(seen + t =~= old_seen + bt);
                    assert(bt.drop_first() =~= t);
                    assert(decode_varint(old_seen + bt) == decode_varint_from(bt, old_value, (shift - 1) as u32));
                }
            }
        }
        Ok(value)
    }

    /// Reads a VarLong one byte at a time: the decoding of the pending bytes,
    /// moving past the bytes it used. Fails with `OutOfRange` ("VarLong too
    /// big") after reading an eleventh byte, or with the source's error when the
    /// bytes run out before a final byte.
    fn read_varlong(&mut self) -> (res: Result<i64>)
        requires
            old(self).can_read(1),
        ensures
            match decode_varlong(old(self).pending()) {
                Decoded::Value(v, k) => res matches Ok(x) && x == v && final(self).pending()
                    == old(self).pending().skip(k as int) && forall|m: usize|
                    k + m <= usize::MAX && old(self).can_read((k + m) as usize) ==> #[trigger] final(self).can_read(m),
                Decoded::TooBig => res matches Err(e) && is_error(e, ErrorKind::OutOfRange, "VarLong too big"@)
                    && final(self).pending() == old(self).pending().skip(11),
                Decoded::Truncated => res is Err,
            },
    {
        let mut value = 0i64;
        let mut shift = 0u32;
        let ghost mut seen: Seq<u8> = Seq::empty();
        loop
            invariant_except_break
                self.can_read(1),
                shift <= 10,
                seen.len() == shift,
                old(self).pending() == seen + self.pending(),
                forall|m: usize|
                    shift + m <= usize::MAX && old(self).can_read((shift + m) as usize) ==> #[trigger] self.can_read(m),
                forall|t: Seq<u8>| #[trigger] decode_varlong(seen + t) == decode_varlong_from(t, value, shift),
            ensures
                decode_varlong(old(self).pending()) == Decoded::Value(value, shift as nat),
                self.pending() == old(self).pending().skip(shift as int),
                forall|m: usize|
                    shift + m <= usize::MAX && old(self).can_read((shift + m) as usize) ==> #[trigger] self.can_read(m),
            decreases 11 - shift,
        {
            let ghost before = self.pending();
            let byte = match self._read(1) {
                Ok(v) => v,
                Err(e) => {
                    proof {
                        assert(before.len() == 0);
                        assert(seen + before =~= seen + Seq::<u8>::empty());
                    }
                    return Err(e);
                },
            };
            let b = byte[0];
            let ghost old_value = value;
            let ghost old_seen = seen;
            let ghost bs = seq![b];
            proof {
                assert(byte@ == before.take(1));
                assert(before[0] == byte@[0]);
                assert(before =~= bs + self.pending());
                assert(bs.drop_first() =~= Seq::<u8>::empty());
                assert(decode_varlong(old_seen + bs) == decode_varlong_from(bs, old_value, shift));
                assert(decode_varlong(old_seen + before) == decode_varlong_from(before, old_value, shift));
                assert(before[0] == b);
            }
            value = value | ((b & 127).wrapping_shl(shift * 7) as i64);
            shift = shift + 1;
            proof {
                seen = old_seen + bs;
                assert(old(self).pending() =~= seen + self.pending());
                assert(seen =~= old(self).pending().take(shift as int));
                assert(self.pending() =~= old(self).pending().skip(shift as int));
            }
            if shift > 10 {
                return Err(Error::new(ErrorKind::OutOfRange, "VarLong too big"));
            }
            if (b & 128) != 128 {
                break;
            }
            proof {
                assert forall|t: Seq<u8>| #[trigger] decode_varlong(seen + t) == decode_varlong_from(t, value, shift) by {
                    let bt = bs + t;
                    assert(seen + t =~= old_seen + bt);
                    assert(bt.drop_first() =~= t);
                    assert(decode_varlong(old_seen + bt) == decode_varlong_from(bt, old_value, (shift - 1) as u32));
                }
            }
        }
        Ok(value)
    }
}


/// Number of bytes of the VarInt encoding of a non-negative `v`.
pub open spec fn varint_len(v: int) -> nat {
    if v < 0x80 {
        1
    } else if v < 0x4000 {
        2
    } else if v < 0x20_0000 {
        3
    } else if v < 0x1000_0000 {
        4
    } else {
        5
    }
}

/// Byte `j` of the VarInt encoding of a non-negative `v`: seven bits of `v`,
/// lowest group first, with the high bit set on every byte but the last.
pub open spec fn varint_byte(v: i32, j: u32) -> u8 {
    if j + 1 < varint_len(v as int) {
        (((v >> (7 * j)) & 0x7f) | 0x80) as u8
    } else {
        ((v >> (7 * j)) & 0x7f) as u8
    }
}

/// The VarInt encoding of a non-negative `v`.
pub open spec fn varint_bytes(v: i32) -> Seq<u8> {
    Seq::new(varint_len(v as int), |j: int| varint_byte(v, j as u32))
}

proof fn lemma_varint_len_bits(v: i32, i: u32)
    requires
        0 <= v,
        1 <= i <= 4,
    ensures
        (v & (-1i32 << (i * 7))) == 0 <==> varint_len(v as int) <= i,
{
    assert(0 <= v && 1 <= i <= 4 ==> ((v & (-1i32 << (i * 7))) == 0 <==> (
    if v < 0x80 { 1u32 } else if v < 0x4000 { 2u32 } else if v < 0x20_0000 { 3u32 } else if v < 0x1000_0000 { 4u32 } else { 5u32 }) <= i)) by (bit_vector);
}

proof fn lemma_varint_byte_bits(v: i32, k: u32, n: u32)
    requires
        0 <= v,
        k < n,
        n == (if v < 0x80 { 1u32 } else if v < 0x4000 { 2u32 } else if v < 0x20_0000 { 3u32 } else if v < 0x1000_0000 { 4u32 } else { 5u32 }),
    ensures
        ({
            let b: u8 = if k + 1 < n { (((v >> (7 * k)) & 0x7f) | 0x80) as u8 } else { ((v >> (7 * k)) & 0x7f) as u8 };
            &&& ((b as i32) & 127) == ((v >> (7 * k)) & 127)
            &&& ((b & 128) == 128 <==> k + 1 < n)
            &&& ((v & !(-1i32 << (7 * k))) | (((v >> (7 * k)) & 127) << ((7 * k) % 32)))
                == (if k + 1 < n { v & !(-1i32 << (7 * (k + 1))) } else { v })
        }),
{
    assert(0 <= v && k < n && n == (if v < 0x80 { 1u32 } else if v < 0x4000 { 2u32 } else if v < 0x20_0000 { 3u32 } else if v < 0x1000_0000 { 4u32 } else { 5u32 }) ==> ({
            let b: u8 = if k + 1 < n { (((v >> (7 * k)) & 0x7f) | 0x80) as u8 } else { ((v >> (7 * k)) & 0x7f) as u8 };
            &&& ((b as i32) & 127) == ((v >> (7 * k)) & 127)
            &&& ((b & 128) == 128 <==> k + 1 < n)
            &&& ((v & !(-1i32 << (7 * k))) | (((v >> (7 * k)) & 127) << ((7 * k) % 32)))
                == (if k + 1 < n { v & !(-1i32 << (7 * (k + 1))) } else { v })
        })) by (bit_vector);
}

proof fn lemma_varint_roundtrip_from(v: i32, k: u32, rest: Seq<u8>)
    requires
        0 <= v,
        k < varint_len(v as int),
    ensures
        decode_varint_from(varint_bytes(v).skip(k as int) + rest, v & !(-1i32 << (7 * k)), k)
            == Decoded::Value(v, varint_len(v as int)),
    decreases varint_len(v as int) - k,
{
    let n = varint_len(v as int);
    let s = varint_bytes(v).skip(k as int) + rest;
    lemma_varint_byte_bits(v, k, n as u32);
    assert(s[0] == varint_byte(v, k));
    if k + 1 < n {
        assert(s.drop_first() =~= varint_bytes(v).skip(k + 1) + rest);
        lemma_varint_roundtrip_from(v, (k + 1) as u32, rest);
    }
}

/// The count `varint_byte_count` gives for a non-negative value is the length of
/// the encoding `as_varint` writes, between one and five bytes.
pub proof fn lemma_varint_len(v: i32)
    requires
        v >= 0,
    ensures
        varint_bytes(v).len() == varint_len(v as int),
        1 <= varint_len(v as int) <= 5,
{
}

/// Decoding the VarInt encoding of a non-negative value gives the value back,
/// having used exactly the encoding, whatever bytes follow it.
pub proof fn lemma_varint_roundtrip(v: i32, rest: Seq<u8>)
    requires
        v >= 0,
    ensures
        decode_varint(varint_bytes(v) + rest) == Decoded::Value(v, varint_bytes(v).len()),
{
    lemma_varint_roundtrip_from(v, 0, rest);
    assert(varint_bytes(v).skip(0) =~= varint_bytes(v));
    assert(v & !(-1i32 << (7 * 0u32)) == 0) by (bit_vector);
}

/// Helper for the VarInt format.
pub struct VarInt {}

impl VarInt {
    /// Encodes a non-negative `v` as a VarInt. A negative value is not
    /// accepted: its encoding loop would index past the buffer.
    pub fn as_varint(v: i32) -> (r: Vec<u8>)
        requires
            v >= 0,
        ensures
            r@ == varint_bytes(v),
    {
        let len = Self::varint_byte_count(v);
        let mut buf = vec![0u8; len];
        let mut value = v;
        let mut i: usize = 0;
        assert(v >> (7 * 0u32) == v) by (bit_vector);
        while i <= len
            invariant
                0 <= v,
                len == varint_len(v as int),
                buf@.len() == len,
                i < len,
                value == v >> (7 * (i as u32)),
                forall|j: int| 0 <= j < i ==> buf@[j] == varint_byte(v, j as u32),
            ensures
                buf@ =~= varint_bytes(v),
            decreases len - i,
        {
            proof { lemma_varint_step(v, i as u32); }
            if (value & !0x7f) == 0 {
                buf.set(i, (value & 0x7f) as u8);
                assert(buf@ =~= varint_bytes(v));
                break;
            } else {
                buf.set(i, ((value & 0x7f) | 0x80) as u8);
                value >>= 7;
                i = i + 1;
            }
        }
        buf
    }

    /// Number of bytes of the VarInt encoding of `v`; 5 for a negative `v`.
    pub fn varint_byte_count(v: i32) -> (n: usize)
        ensures
            n == if v < 0 { 5 } else { varint_len(v as int) },
    {
        let mut i: u32 = 1;
        while i <= 4
            invariant
                1 <= i <= 5,
                v >= 0 ==> varint_len(v as int) >= i,
            decreases 5 - i,
        {
            if (v & (-1i32 << (i * 7))) == 0 {
                proof {
                    if v < 0 {
                        assert(v < 0 && 1 <= i <= 4 ==> (v & (-1i32 << (i * 7))) != 0) by (bit_vector);
                    }
                    lemma_varint_len_bits(v, i);
                }
                return i as usize;
            }
            proof {
                if v >= 0 { lemma_varint_len_bits(v, i); }
            }
            i = i + 1;
        }
        5
    }
}

pub(crate) proof fn lemma_varint_step(v: i32, i: u32)
    requires
        0 <= v,
        i < varint_len(v as int),
    ensures
        ((v >> (7 * i)) & !0x7f) == 0 <==> i + 1 == varint_len(v as int),
        (v >> (7 * i)) >> 7 == v >> (7 * (i + 1)),
        ((v >> (7 * i)) & 0x7f) as u8 == ((v >> (7 * i)) & 0x7f),
        (((v >> (7 * i)) & 0x7f) | 0x80) as u8 == (((v >> (7 * i)) & 0x7f) | 0x80),
{
    let n: u32 = varint_len(v as int) as u32;
    assert(0 <= v && i < n && n == (if v < 0x80 { 1u32 } else if v < 0x4000 { 2u32 } else if v < 0x20_0000 { 3u32 } else if v < 0x1000_0000 { 4u32 } else { 5u32 }) ==> {
        &&& (((v >> (7 * i)) & !0x7f) == 0 <==> i + 1 == n)
        &&& (v >> (7 * i)) >> 7 == v >> (7 * (i + 1))
        &&& 0 <= ((v >> (7 * i)) & 0x7f) < 256
        &&& 0 <= (((v >> (7 * i)) & 0x7f) | 0x80) < 256
    }) by (bit_vector);
}


/// Reads values from an in-memory byte buffer, from a current offset on.
pub struct BinaryReader {
    buffer: Vec<u8>,
    offset: usize,
}

impl BinaryReader {
    /// The bytes the reader holds.
    pub closed spec fn bytes(&self) -> Seq<u8> {
        self.buffer@
    }

    /// The current offset.
    pub closed spec fn pos(&self) -> nat {
        self.offset as nat
    }

    /// The bytes from the offset on (none where the offset is past the end).
    pub open spec fn remaining(&self) -> Seq<u8> {
        rest_at(self.bytes(), self.pos())
    }

    /// A reader over `source`, at offset 0.
    pub fn new(source: Vec<u8>) -> (r: BinaryReader)
        ensures
            r.bytes() == source@,
            r.pos() == 0,
    {
        BinaryReader { buffer: source, offset: 0 }
    }

    /// Reads `count` bytes from the offset on and moves past them; reading none
    /// always succeeds. Fails with `OutOfRange` ("Out of range"), moving nothing,
    /// when fewer than `count` bytes remain.
    pub fn read_bytes(&mut self, count: usize) -> (res: Result<Vec<u8>>)
        requires
            count == 0 || old(self).pos() + count <= usize::MAX,
        ensures
            final(self).bytes() == old(self).bytes(),
            (match res { Ok(v) => Read::Done(v@, final(self).pos()), Err(e) => Read::Fail(e.kind, e.message@, final(self).pos()) })
                == bytes_at(old(self).bytes(), old(self).pos(), count as nat),
    {
        if count == 0 {
            return Ok(Vec::new());
        }
        if self.buffer.len() >= self.offset + count {
            let end = self.offset + count;
            let mut data: Vec<u8> = Vec::new();
            let mut k = self.offset;
            while k < end
                invariant
                    self.offset <= k <= end <= self.buffer@.len(),
                    data@ =~= self.buffer@.subrange(self.offset as int, k as int),
                decreases end - k,
            {
                data.push(self.buffer[k]);
                k = k + 1;
            }
            self.offset = end;
            Ok(data)
        } else {
            Err(Error::new(ErrorKind::OutOfRange, "Out of range"))
        }
    }

    /// Reads a number of type `T`: as many bytes as the type has, read
    /// big-endian. Fails as `read_bytes` does when too few bytes remain.
    pub fn read<T>(&mut self) -> (res: Result<T>) where T: BytesToNumber
        requires
            vstd::layout::size_of::<T>() == 0 || old(self).pos() + vstd::layout::size_of::<T>() <= usize::MAX,
        ensures
            final(self).bytes() == old(self).bytes(),
            read_of(res, final(self).pos()) == number_at::<T>(old(self).bytes(), old(self).pos()),
    {
        let len = core::mem::size_of::<T>();
        match self.read_bytes(len) {
            Err(e) => Err(e),
            Ok(v) => {
                Ok(T::from_bytes(v))
            },
        }
    }

    /// Reads a text: its length as a VarInt, then that many bytes of UTF-8.
    /// The length is taken as a `usize` (a negative length becomes a huge
    /// one). Fails as `read_varint` does, then as `read_bytes`
    /// does, then with `OutOfRange` and the UTF-8 error's message when the bytes
    /// are not UTF-8.
    pub fn read_string(&mut self) -> (res: Result<String>)
        requires
            old(self).can_read(1),
            string_at_fits(old(self).bytes(), old(self).pos()),
        ensures
            final(self).bytes() == old(self).bytes(),
            string_read_of(res, final(self).pos()) == string_at(old(self).bytes(), old(self).pos()),
    {
        match self.read_varint() {
            Err(e) => return Err(e),
            Ok(len) => {
                match self.read_bytes(len as usize) {
                    Err(e) => return Err(e),
                    Ok(s) => {
                        return match utf8_text(s.as_slice()) {
                            Err(m) => Err(Error::new(ErrorKind::OutOfRange, m.as_str())),
                            Ok(t) => Ok(t),
                        };
                    },
                }
            },
        }
    }

    /// The byte at `i`; a negative `i` counts back from the end, wrapping round
    /// as often as needed, so that it gives the byte at `i` modulo the length.
    /// Fails with `OutOfRange` ("Out of range") for an `i` at or past the end.
    /// A negative `i` on an empty buffer would recurse without end, and
    /// `isize::MIN` has no absolute value; both are left out.
    pub fn at(&self, i: isize) -> (res: Result<u8>)
        requires
            i != isize::MIN,
            self.bytes().len() <= isize::MAX,
            i < 0 ==> self.bytes().len() > 0,
        ensures
            0 <= i < self.bytes().len() ==> res == Ok::<u8, Error>(self.bytes()[i as int]),
            i >= self.bytes().len() ==> (res matches Err(e) && is_error(e, ErrorKind::OutOfRange, "Out of range"@)),
            i < 0 ==> res == Ok::<u8, Error>(self.bytes()[(i as int) % (self.bytes().len() as int)]),
        decreases (if i < 0 { -i } else { 0 }),
    {
        if i >= 0 {
            if self.buffer.len() > i as usize {
                Ok(self.buffer[i as usize])
            } else {
                Err(Error::new(ErrorKind::OutOfRange, "Out of range"))
            }
        } else {
            let pos = self.length() as isize - (-i);
            proof {
                let l = self.bytes().len() as int;
                vstd::arithmetic::div_mod::lemma_mod_add_multiples_vanish(i as int, l);
                if pos >= 0 {
                    vstd::arithmetic::div_mod::lemma_small_mod(pos as nat, l as nat);
                }
            }
            self.at(pos)
        }
    }

    /// The number of bytes the reader holds.
    pub fn length(&self) -> (n: usize)
        ensures
            n == self.bytes().len(),
    {
        self.buffer.len()
    }

    /// The current offset.
    pub fn current(&self) -> (n: usize)
        ensures
            n == self.pos(),
    {
        self.offset
    }

    /// Moves the offset to `pos`, which may lie past the end.
    pub fn set_pos(&mut self, pos: usize)
        ensures
            final(self).bytes() == old(self).bytes(),
            final(self).pos() == pos,
    {
        self.offset = pos
    }

    /// A copy of the bytes the reader holds.
    pub fn buffer_cloned(&self) -> (r: Vec<u8>)
        ensures
            r@ == self.bytes(),
    {
        copy_bytes(&self.buffer)
    }
}

/// Whether a text read at `pos` in `buf` stays within `usize` offsets, for
/// callers that must check it before reading.
pub fn string_fits_at(buf: &Vec<u8>, pos: usize) -> (b: bool)
    requires
        buf@.len() < usize::MAX,
        pos < usize::MAX,
    ensures
        b == string_at_fits(buf@, pos as nat),
{
    let mut r = BinaryReader::new(copy_bytes(buf));
    r.set_pos(pos);
    match r.read_varint() {
        Err(_) => true,
        Ok(len) => {
            let count = len as usize;
            count == 0 || r.current() <= usize::MAX - count
        },
    }
}

/// No reader operation changes the buffer. Each one (`read`, `read_bytes`,
/// `read_string`, `read_varint`, `read_varlong`, `_read`, `set_pos`; the others
/// take the reader by reference) keeps `bytes()`, as its contract states; so
/// along any sequence of readers, each got from the one before by such an
/// operation, successful or not, the last holds the bytes the first held.
pub proof fn lemma_operations_keep_buffer(trace: Seq<BinaryReader>)
    requires
        trace.len() > 0,
        forall|i: int| 0 < i < trace.len() ==> (#[trigger] trace[i]).bytes() == trace[i - 1].bytes(),
    ensures
        trace.last().bytes() == trace[0].bytes(),
    decreases trace.len(),
{
    if trace.len() > 1 {
        let t = trace.drop_last();
        assert forall|i: int| 0 < i < t.len() implies (#[trigger] t[i]).bytes() == t[i - 1].bytes() by {
            assert(trace[i].bytes() == trace[i - 1].bytes());
        }
        lemma_operations_keep_buffer(t);
        assert(trace[trace.len() - 1].bytes() == trace[trace.len() - 2].bytes());
    }
}

impl ReadN for BinaryReader {
    open spec fn can_read(&self, n: usize) -> bool {
        &&& self.bytes().len() < usize::MAX
        &&& (n == 0 || self.pos() + n <= usize::MAX)
    }

    open spec fn pending(&self) -> Seq<u8> {
        self.remaining()
    }

    /// Reads `n` bytes as `read_bytes` does.
    fn _read(&mut self, n: usize) -> (res: Result<Vec<u8>>)
        ensures
            final(self).bytes() == old(self).bytes(),
            (match res { Ok(v) => Read::Done(v@, final(self).pos()), Err(e) => Read::Fail(e.kind, e.message@, final(self).pos()) })
                == bytes_at(old(self).bytes(), old(self).pos(), n as nat),
    {
        let ghost rem = self.remaining();
        let res = self.read_bytes(n);
        proof {
            if res is Ok {
                let v = res->Ok_0;
                assert(v@ =~= rem.take(n as int));
                assert(self.remaining() =~= rem.skip(n as int));
            }
        }
        res
    }
}

impl ReadVarInt for BinaryReader {
    /// Reads a VarInt from the offset on: the decoding of the remaining bytes,
    /// moving past the bytes it used. Fails with `OutOfRange` ("VarInt too big")
    /// after reading a sixth byte, or ("Out of range") once the bytes run out,
    /// having moved past all of them.
    fn read_varint(&mut self) -> (res: Result<i32>)
        ensures
            final(self).bytes() == old(self).bytes(),
            read_of(res, final(self).pos()) == varint_at(old(self).bytes(), old(self).pos()),
    {
        let mut value = 0i32;
        let mut shift = 0u32;
        loop
            invariant_except_break
                self.buffer@ == old(self).buffer@,
                self.buffer@.len() < usize::MAX,
                old(self).offset < usize::MAX,
                shift <= 5,
                self.offset == old(self).offset + shift,
                shift > 0 ==> self.offset <= self.buffer@.len(),
                decode_varint(old(self).remaining()) == decode_varint_from(self.remaining(), value, shift),
                shift > 0 ==> old(self).remaining().len() == shift + self.remaining().len(),
            ensures
                self.buffer@ == old(self).buffer@,
                decode_varint(old(self).remaining()) == Decoded::Value(value, (self.offset - old(self).offset) as nat),
                self.offset >= old(self).offset,
            decreases 6 - shift,
        {
            let ghost rem = self.remaining();
            let byte = match self.read_bytes(1) {
                Ok(v) => v,
                Err(e) => {
                    proof {
                        assert(rem.len() == 0);
                    }
                    return Err(e);
                },
            };
            let b = byte[0];
            proof {
                assert(rem[0] == b);
                assert(self.remaining() =~= rem.drop_first());
            }
            value = value | ((b as i32) & 127).wrapping_shl(shift * 7);
            shift = shift + 1;
            if shift > 5 {
                return Err(Error::new(ErrorKind::OutOfRange, "VarInt too big"));
            }
            if (b & 128) != 128 {
                break;
            }
        }
        proof {
            let r = old(self).remaining();
            lemma_decode_varint_take(r, 0, 0);
            let n = (self.offset - old(self).offset) as int;
            assert(decode_varint(r.take(n)) == Decoded::Value(value, r.take(n).len()));
        }
        Ok(value)
    }

    /// Reads a VarLong from the offset on: the decoding of the remaining bytes,
    /// moving past the bytes it used. Fails with `OutOfRange` ("VarLong too big")
    /// after reading an eleventh byte, or ("Out of range") once the bytes run out,
    /// having moved past all of them.
    fn read_varlong(&mut self) -> (res: Result<i64>)
        ensures
            final(self).bytes() == old(self).bytes(),
            read_of(res, final(self).pos()) == varlong_at(old(self).bytes(), old(self).pos()),
    {
        let mut value = 0i64;
        let mut shift = 0u32;
        loop
            invariant_except_break
                self.buffer@ == old(self).buffer@,
                self.buffer@.len() < usize::MAX,
                old(self).offset < usize::MAX,
                shift <= 10,
                self.offset == old(self).offset + shift,
                shift > 0 ==> self.offset <= self.buffer@.len(),
                decode_varlong(old(self).remaining()) == decode_varlong_from(self.remaining(), value, shift),
                shift > 0 ==> old(self).remaining().len() == shift + self.remaining().len(),
            ensures
                self.buffer@ == old(self).buffer@,
                decode_varlong(old(self).remaining()) == Decoded::Value(value, (self.offset - old(self).offset) as nat),
                self.offset >= old(self).offset,
            decreases 11 - shift,
        {
            let ghost rem = self.remaining();
            let byte = match self.read_bytes(1) {
                Ok(v) => v,
                Err(e) => {
                    proof {
                        assert(rem.len() == 0);
                    }
                    return Err(e);
                },
            };
            let b = byte[0];
            proof {
                assert(rem[0] == b);
                assert(self.remaining() =~= rem.drop_first());
            }
            value = value | ((b & 127).wrapping_shl(shift * 7) as i64);
            shift = shift + 1;
            if shift > 10 {
                return Err(Error::new(ErrorKind::OutOfRange, "VarLong too big"));
            }
            if (b & 128) != 128 {
                break;
            }
        }
        proof {
            let r = old(self).remaining();
            lemma_decode_varlong_take(r, 0, 0);
            let n = (self.offset - old(self).offset) as int;
            assert(decode_varlong(r.take(n)) == Decoded::Value(value, r.take(n).len()));
        }
        Ok(value)
    }
}

impl ToBytes for u8 {
    open spec fn spec_to_bytes(&self) -> Seq<u8> {
        le_bytes(*self as u128, 1)
    }

    open spec fn to_bytes_ok(&self) -> bool {
        true
    }

    /// The 1 little-endian bytes of the value.
    fn to_bytes(&self) -> (r: Vec<u8>) {
        le_bytes_exec(*self as u128, 1)
    }
}

impl BytesToNumber for u8 {
    open spec fn spec_from_bytes(b: Seq<u8>) -> u8 {
        be_value(b) as u8
    }

    /// The value of the 1 bytes read big-endian.
    fn from_bytes(b: Vec<u8>) -> (r: u8) {
        proof {
            assert(vstd::layout::size_of::<u8>() == 1);
        }
        be_value_exec(&b) as u8
    }
}

impl ToBytes for i8 {
    open spec fn spec_to_bytes(&self) -> Seq<u8> {
        le_bytes(*self as u128, 1)
    }

    open spec fn to_bytes_ok(&self) -> bool {
        true
    }

    /// The 1 little-endian bytes of the value.
    fn to_bytes(&self) -> (r: Vec<u8>) {
        le_bytes_exec(*self as u128, 1)
    }
}

impl BytesToNumber for i8 {
    open spec fn spec_from_bytes(b: Seq<u8>) -> i8 {
        be_value(b) as i8
    }

    /// The value of the 1 bytes read big-endian.
    fn from_bytes(b: Vec<u8>) -> (r: i8) {
        proof {
            assert(vstd::layout::size_of::<u8>() == 1);
        }
        be_value_exec(&b) as i8
    }
}

impl ToBytes for u16 {
    open spec fn spec_to_bytes(&self) -> Seq<u8> {
        le_bytes(*self as u128, 2)
    }

    open spec fn to_bytes_ok(&self) -> bool {
        true
    }

    /// The 2 little-endian bytes of the value.
    fn to_bytes(&self) -> (r: Vec<u8>) {
        le_bytes_exec(*self as u128, 2)
    }
}

impl BytesToNumber for u16 {
    open spec fn spec_from_bytes(b: Seq<u8>) -> u16 {
        be_value(b) as u16
    }

    /// The value of the 2 bytes read big-endian.
    fn from_bytes(b: Vec<u8>) -> (r: u16) {
        proof {
            assert(vstd::layout::size_of::<u8>() == 1);
        }
        be_value_exec(&b) as u16
    }
}

impl ToBytes for i16 {
    open spec fn spec_to_bytes(&self) -> Seq<u8> {
        le_bytes(*self as u128, 2)
    }

    open spec fn to_bytes_ok(&self) -> bool {
        true
    }

    /// The 2 little-endian bytes of the value.
    fn to_bytes(&self) -> (r: Vec<u8>) {
        le_bytes_exec(*self as u128, 2)
    }
}

impl BytesToNumber for i16 {
    open spec fn spec_from_bytes(b: Seq<u8>) -> i16 {
        be_value(b) as i16
    }

    /// The value of the 2 bytes read big-endian.
    fn from_bytes(b: Vec<u8>) -> (r: i16) {
        proof {
            assert(vstd::layout::size_of::<u8>() == 1);
        }
        be_value_exec(&b) as i16
    }
}

impl ToBytes for u32 {
    open spec fn spec_to_bytes(&self) -> Seq<u8> {
        le_bytes(*self as u128, 4)
    }

    open spec fn to_bytes_ok(&self) -> bool {
        true
    }

    /// The 4 little-endian bytes of the value.
    fn to_bytes(&self) -> (r: Vec<u8>) {
        le_bytes_exec(*self as u128, 4)
    }
}

impl BytesToNumber for u32 {
    open spec fn spec_from_bytes(b: Seq<u8>) -> u32 {
        be_value(b) as u32
    }

    /// The value of the 4 bytes read big-endian.
    fn from_bytes(b: Vec<u8>) -> (r: u32) {
        proof {
            assert(vstd::layout::size_of::<u8>() == 1);
        }
        be_value_exec(&b) as u32
    }
}

impl ToBytes for i32 {
    open spec fn spec_to_bytes(&self) -> Seq<u8> {
        le_bytes(*self as u128, 4)
    }

    open spec fn to_bytes_ok(&self) -> bool {
        true
    }

    /// The 4 little-endian bytes of the value.
    fn to_bytes(&self) -> (r: Vec<u8>) {
        le_bytes_exec(*self as u128, 4)
    }
}

impl BytesToNumber for i32 {
    open spec fn spec_from_bytes(b: Seq<u8>) -> i32 {
        be_value(b) as i32
    }

    /// The value of the 4 bytes read big-endian.
    fn from_bytes(b: Vec<u8>) -> (r: i32) {
        proof {
            assert(vstd::layout::size_of::<u8>() == 1);
        }
        be_value_exec(&b) as i32
    }
}

impl ToBytes for u64 {
    open spec fn spec_to_bytes(&self) -> Seq<u8> {
        le_bytes(*self as u128, 8)
    }

    open spec fn to_bytes_ok(&self) -> bool {
        true
    }

    /// The 8 little-endian bytes of the value.
    fn to_bytes(&self) -> (r: Vec<u8>) {
        le_bytes_exec(*self as u128, 8)
    }
}

impl BytesToNumber for u64 {
    open spec fn spec_from_bytes(b: Seq<u8>) -> u64 {
        be_value(b) as u64
    }

    /// The value of the 8 bytes read big-endian.
    fn from_bytes(b: Vec<u8>) -> (r: u64) {
        proof {
            assert(vstd::layout::size_of::<u8>() == 1);
        }
        be_value_exec(&b) as u64
    }
}

impl ToBytes for i64 {
    open spec fn spec_to_bytes(&self) -> Seq<u8> {
        le_bytes(*self as u128, 8)
    }

    open spec fn to_bytes_ok(&self) -> bool {
        true
    }

    /// The 8 little-endian bytes of the value.
    fn to_bytes(&self) -> (r: Vec<u8>) {
        le_bytes_exec(*self as u128, 8)
    }
}

impl BytesToNumber for i64 {
    open spec fn spec_from_bytes(b: Seq<u8>) -> i64 {
        be_value(b) as i64
    }

    /// The value of the 8 bytes read big-endian.
    fn from_bytes(b: Vec<u8>) -> (r: i64) {
        proof {
            assert(vstd::layout::size_of::<u8>() == 1);
        }
        be_value_exec(&b) as i64
    }
}

impl ToBytes for u128 {
    open spec fn spec_to_bytes(&self) -> Seq<u8> {
        le_bytes(*self as u128, 16)
    }

    open spec fn to_bytes_ok(&self) -> bool {
        true
    }

    /// The 16 little-endian bytes of the value.
    fn to_bytes(&self) -> (r: Vec<u8>) {
        le_bytes_exec(*self as u128, 16)
    }
}

impl BytesToNumber for u128 {
    open spec fn spec_from_bytes(b: Seq<u8>) -> u128 {
        be_value(b) as u128
    }

    /// The value of the 16 bytes read big-endian.
    fn from_bytes(b: Vec<u8>) -> (r: u128) {
        proof {
            assert(vstd::layout::size_of::<u8>() == 1);
        }
        be_value_exec(&b) as u128
    }
}

impl ToBytes for i128 {
    open spec fn spec_to_bytes(&self) -> Seq<u8> {
        le_bytes(*self as u128, 16)
    }

    open spec fn to_bytes_ok(&self) -> bool {
        true
    }

    /// The 16 little-endian bytes of the value.
    fn to_bytes(&self) -> (r: Vec<u8>) {
        le_bytes_exec(*self as u128, 16)
    }
}

impl BytesToNumber for i128 {
    open spec fn spec_from_bytes(b: Seq<u8>) -> i128 {
        be_value(b) as i128
    }

    /// The value of the 16 bytes read big-endian.
    fn from_bytes(b: Vec<u8>) -> (r: i128) {
        proof {
            assert(vstd::layout::size_of::<u8>() == 1);
        }
        be_value_exec(&b) as i128
    }
}

impl ToBytes for bool {
    open spec fn spec_to_bytes(&self) -> Seq<u8> {
        seq![if *self { 1u8 } else { 0u8 }]
    }

    open spec fn to_bytes_ok(&self) -> bool {
        true
    }

    /// One byte: 1 for `true`, 0 for `false`.
    fn to_bytes(&self) -> (r: Vec<u8>) {
        let mut v: Vec<u8> = Vec::new();
        v.push(if *self { 0x01 } else { 0x00 });
        v
    }
}

impl BytesToNumber for bool {
    open spec fn spec_from_bytes(b: Seq<u8>) -> bool {
        b[0] != 0
    }

    /// `false` for a zero byte, `true` for any other.
    fn from_bytes(bytes: Vec<u8>) -> (r: bool) {
        if bytes[0] == 0x00 {
            false
        } else {
            true
        }
    }
}

/// The length, as a VarInt, then the UTF-8 bytes of a text.
pub open spec fn string_bytes(text: Seq<u8>) -> Seq<u8> {
    varint_bytes((text.len() as usize) as i32) + text
}

/// A text can be written where its length, taken as an `i32`, is not
/// negative.
pub open spec fn string_len_ok(text: Seq<u8>) -> bool {
    (text.len() as usize) as i32 >= 0
}

impl<'a> ToBytes for &'a str {
    open spec fn spec_to_bytes(&self) -> Seq<u8> {
        string_bytes((**self).spec_bytes())
    }

    open spec fn to_bytes_ok(&self) -> bool {
        string_len_ok((**self).spec_bytes())
    }

    /// The length as a VarInt, then the UTF-8 bytes.
    fn to_bytes(&self) -> (r: Vec<u8>) {
        let mut w = BinaryWriter::new();
        w.write_varint(self.len() as i32);
        w.write_bytes(&mut vstd::slice::slice_to_vec(self.as_bytes()));
        w.buffer()
    }
}

impl ToBytes for String {
    open spec fn spec_to_bytes(&self) -> Seq<u8> {
        string_bytes(encode_utf8(self@))
    }

    open spec fn to_bytes_ok(&self) -> bool {
        string_len_ok(encode_utf8(self@))
    }

    /// The length as a VarInt, then the UTF-8 bytes.
    fn to_bytes(&self) -> (r: Vec<u8>) {
        let s: &str = self.as_str();
        return s.to_bytes();
    }
}

/// Builds a byte buffer by appending to it.
pub struct BinaryWriter {
    buffer: Vec<u8>,
}

impl View for BinaryWriter {
    type V = Seq<u8>;

    closed spec fn view(&self) -> Seq<u8> {
        self.buffer@
    }
}

impl BinaryWriter {
    /// An empty writer.
    pub fn new() -> (w: Self)
        ensures
            w@ == Seq::<u8>::empty(),
    {
        BinaryWriter { buffer: Vec::new() }
    }

    /// Appends the bytes of `data`.
    pub fn write<T: ToBytes>(&mut self, data: T)
        requires
            data.to_bytes_ok(),
        ensures
            final(self)@ == old(self)@ + data.spec_to_bytes(),
    {
        self.write_bytes(&mut data.to_bytes());
    }

    /// Moves all of `bytes` to the end of the buffer, leaving `bytes` empty.
    pub fn write_bytes(&mut self, bytes: &mut Vec<u8>)
        ensures
            final(self)@ == old(self)@ + old(bytes)@,
            final(bytes)@ == Seq::<u8>::empty(),
    {
        self.buffer.append(bytes)
    }

    /// Appends the VarInt encoding of a non-negative `v` (a negative one is not
    /// accepted, as for `VarInt::as_varint`).
    pub fn write_varint(&mut self, v: i32)
        requires
            v >= 0,
        ensures
            final(self)@ == old(self)@ + varint_bytes(v),
    {
        let mut buf = VarInt::as_varint(v);
        self.write_bytes(&mut buf)
    }

    /// The number of bytes written.
    pub fn length(&self) -> (n: usize)
        ensures
            n == self@.len(),
    {
        self.buffer.len()
    }

    /// A copy of the bytes written.
    pub fn buffer_cloned(&self) -> (r: Vec<u8>)
        ensures
            r@ == self@,
    {
        copy_bytes(&self.buffer)
    }

    /// A copy of the bytes written.
    pub fn buffer(&self) -> (r: Vec<u8>)
        ensures
            r@ == self@,
    {
        copy_bytes(&self.buffer)
    }
}

/// A copy of the bytes of `v`.
pub(crate) fn copy_bytes(v: &Vec<u8>) -> (r: Vec<u8>)
    ensures
        r@ == v@,
{
    let mut out: Vec<u8> = Vec::new();
    let mut k: usize = 0;
    while k < v.len()
        invariant
            k <= v@.len(),
            out@ =~= v@.subrange(0, k as int),
        decreases v@.len() - k,
    {
        out.push(v[k]);
        k = k + 1;
    }
    out
}

/// Builds the body of a packet; `bytes` frames it with its length.
pub struct PacketWriter {
    writer: BinaryWriter,
}

impl View for PacketWriter {
    type V = Seq<u8>;

    closed spec fn view(&self) -> Seq<u8> {
        self.writer@
    }
}

/// A packet frame: the length of `body` as a VarInt (taken as an `i32`), then `body`.
pub open spec fn frame(body: Seq<u8>) -> Seq<u8> {
    varint_bytes((body.len() as usize) as i32) + body
}

impl PacketWriter {
    /// An empty packet body.
    pub fn new() -> (w: Self)
        ensures
            w@ == Seq::<u8>::empty(),
    {
        PacketWriter { writer: BinaryWriter::new() }
    }

    /// Appends the bytes of `data` to the body.
    pub fn write<T: ToBytes>(&mut self, data: T)
        requires
            data.to_bytes_ok(),
        ensures
            final(self)@ == old(self)@ + data.spec_to_bytes(),
    {
        self.writer.write_bytes(&mut data.to_bytes());
    }

    /// Moves all of `bytes` to the end of the body, leaving `bytes` empty.
    pub fn write_bytes(&mut self, bytes: &mut Vec<u8>)
        ensures
            final(self)@ == old(self)@ + old(bytes)@,
            final(bytes)@ == Seq::<u8>::empty(),
    {
        self.writer.write_bytes(bytes)
    }

    /// Appends the VarInt encoding of a non-negative `v` to the body.
    pub fn write_varint(&mut self, v: i32)
        requires
            v >= 0,
        ensures
            final(self)@ == old(self)@ + varint_bytes(v),
    {
        self.writer.write_varint(v)
    }

    /// The framed packet: the body's length as a VarInt, then the body. The
    /// length is taken as an `i32`; it must not come out negative.
    pub fn bytes(&self) -> (r: Vec<u8>)
        requires
            string_len_ok(self@),
        ensures
            r@ == frame(self@),
    {
        let mut writer = BinaryWriter::new();
        writer.write_varint(self.writer.length() as i32);
        writer.write_bytes(&mut self.writer.buffer());
        writer.buffer()
    }
}

} // verus!
