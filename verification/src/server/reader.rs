use vstd::prelude::*;
use crate::error::{Error, ErrorKind, Result};
use crate::util::binary::{is_error, BytesToNumber};

verus! {

/// Reads values from an in-memory byte buffer. Its `read_bytes` hands back one
/// byte fewer than asked for while moving past all of them. A fixed-size read
/// cannot turn that short result into a number, so the fixed-size reads, and the
/// VarInt reads built on `read_8`, are defined only where too few bytes remain,
/// and then fail.
pub struct BinaryReader {
    buffer: Vec<u8>,
    offset: usize,
}

/// The error every read gives when too few bytes remain.
pub open spec fn out_of_index(e: Error) -> bool {
    is_error(e, ErrorKind::Other, "Out of index"@)
}

impl BinaryReader {
    /// The bytes the reader holds.
    pub closed spec fn bytes(&self) -> Seq<u8> {
        self.buffer@
    }

    /// The current offset.
    pub closed spec fn pos(&self) -> nat {
        self.offset as nat
    }

    /// A reader over `source`, at offset 0.
    pub fn new(source: Vec<u8>) -> (r: BinaryReader)
        ensures
            r.bytes() == source@,
            r.pos() == 0,
    {
        BinaryReader { buffer: source, offset: 0 }
    }

    /// With `count` bytes left from the offset, hands back the first
    /// `count − 1` of them and moves past all `count`; else fails with `Other`
    /// ("Out of index"), moving nothing. Asking for no bytes is defined only
    /// where it fails (the slice it would take ends before it starts), and the
    /// end offset must fit in `usize`.
    pub fn read_bytes(&mut self, count: usize) -> (res: Result<Vec<u8>>)
        requires
            old(self).pos() + count <= usize::MAX,
            count == 0 ==> old(self).pos() > old(self).bytes().len(),
        ensures
            final(self).bytes() == old(self).bytes(),
            old(self).pos() + count <= old(self).bytes().len() ==> (res matches Ok(v)
                && v@ == old(self).bytes().subrange(old(self).pos() as int, old(self).pos() + count - 1)
                && final(self).pos() == old(self).pos() + count),
            old(self).pos() + count > old(self).bytes().len() ==> (res matches Err(e) && out_of_index(e)
                && final(self).pos() == old(self).pos()),
    {
        if self.buffer.len() >= self.offset + count {
            let end = self.offset + count - 1;
            let mut data: Vec<u8> = Vec::new();
            let mut k = self.offset;
            while k < end
                invariant
                    self.offset <= k <= end <= self.buffer@.len(),
                    data@ =~= self.buffer@.subrange(self.offset as int, k as int),
                decreases end - k,
            {
                data.push(self.buffer[k]);
                k = k + 1;
            }
            self.offset += count;
            Ok(data)
        } else {
            Err(Error::new(ErrorKind::Other, "Out of index"))
        }
    }

    /// Fails with `Other` ("Out of index") when no byte remains; defined only
    /// then (with a byte there, `read_bytes` hands back an empty vector).
    pub fn read_8(&mut self) -> (res: Result<i8>)
        requires
            old(self).pos() + 1 <= usize::MAX,
            old(self).pos() + 1 > old(self).bytes().len(),
        ensures
            final(self).bytes() == old(self).bytes(),
            final(self).pos() == old(self).pos(),
            res matches Err(e) && out_of_index(e),
    {
        match self.read_bytes(1) {
            Err(e) => Err(e),
            Ok(v) => Ok(v[0] as i8),
        }
    }

    /// Fails with `Other` ("Out of index") when fewer than two bytes remain;
    /// defined only then (with the bytes there, `read_bytes` hands back one).
    pub fn read_16(&mut self) -> (res: Result<i16>)
        requires
            old(self).pos() + 2 <= usize::MAX,
            old(self).pos() + 2 > old(self).bytes().len(),
        ensures
            final(self).bytes() == old(self).bytes(),
            final(self).pos() == old(self).pos(),
            res matches Err(e) && out_of_index(e),
    {
        match self.read_bytes(2) {
            Err(e) => Err(e),
            Ok(v) => Ok(i16::from_bytes(v)),
        }
    }

    /// Fails with `Other` ("Out of index") when fewer than four bytes remain;
    /// defined only then.
    pub fn read_32(&mut self) -> (res: Result<i32>)
        requires
            old(self).pos() + 4 <= usize::MAX,
            old(self).pos() + 4 > old(self).bytes().len(),
        ensures
            final(self).bytes() == old(self).bytes(),
            final(self).pos() == old(self).pos(),
            res matches Err(e) && out_of_index(e),
    {
        match self.read_bytes(4) {
            Err(e) => Err(e),
            Ok(v) => Ok(i32::from_bytes(v)),
        }
    }

    /// Fails with `Other` ("Out of index") when fewer than eight bytes remain;
    /// defined only then.
    pub fn read_64(&mut self) -> (res: Result<i64>)
        requires
            old(self).pos() + 8 <= usize::MAX,
            old(self).pos() + 8 > old(self).bytes().len(),
        ensures
            final(self).bytes() == old(self).bytes(),
            final(self).pos() == old(self).pos(),
            res matches Err(e) && out_of_index(e),
    {
        match self.read_bytes(8) {
            Err(e) => Err(e),
            Ok(v) => Ok(i64::from_bytes(v)),
        }
    }

    /// Reads its first byte with `read_8`, so it fails with `Other` ("Out of
    /// index") when no byte remains; defined only then.
    pub fn read_varint(&mut self) -> (res: Result<i32>)
        requires
            old(self).pos() + 1 <= usize::MAX,
            old(self).pos() + 1 > old(self).bytes().len(),
        ensures
            final(self).bytes() == old(self).bytes(),
            final(self).pos() == old(self).pos(),
            res matches Err(e) && out_of_index(e),
    {
        let mut value = 0i32;
        let mut shift = 0u32;

        loop
            invariant_except_break
                self.buffer@ == old(self).buffer@,
                self.offset == old(self).offset,
                self.offset + 1 <= usize::MAX,
                self.offset + 1 > self.buffer@.len(),
                shift == 0,
            ensures
                // the first byte is never there, so the loop only ever returns
                self.offset + 1 <= self.buffer@.len(),
                self.offset == old(self).offset,
                self.buffer@ == old(self).buffer@,
            decreases 1 - shift,
        {
            match self.read_8() {
                Err(e) => return Err(e),
                Ok(byte) => {
                    value |= (byte & 127).wrapping_shl(shift * 7) as i32;
                    shift += 1;
                    if shift > 5 {
                        return Err(Error::new(ErrorKind::Other, "VarInt too big"));
                    }
                    if (byte as u8 & 128) != 128 {
                        break;
                    }
                },
            }
        }
        Ok(value)
    }

    /// Reads its first byte with `read_8`, so it fails with `Other` ("Out of
    /// index") when no byte remains; defined only then.
    pub fn read_varlong(&mut self) -> (res: Result<i64>)
        requires
            old(self).pos() + 1 <= usize::MAX,
            old(self).pos() + 1 > old(self).bytes().len(),
        ensures
            final(self).bytes() == old(self).bytes(),
            final(self).pos() == old(self).pos(),
            res matches Err(e) && out_of_index(e),
    {
        let mut value = 0i64;
        let mut shift = 0u32;

        loop
            invariant_except_break
                self.buffer@ == old(self).buffer@,
                self.offset == old(self).offset,
                self.offset + 1 <= usize::MAX,
                self.offset + 1 > self.buffer@.len(),
                shift == 0,
            ensures
                // the first byte is never there, so the loop only ever returns
                self.offset + 1 <= self.buffer@.len(),
                self.offset == old(self).offset,
                self.buffer@ == old(self).buffer@,
            decreases 1 - shift,
        {
            match self.read_8() {
                Err(e) => return Err(e),
                Ok(byte) => {
                    value |= (byte & 127).wrapping_shl(shift * 7) as i64;
                    shift += 1;
                    if shift > 10 {
                        return Err(Error::new(ErrorKind::Other, "VarInt too big"));
                    }
                    if (byte as u8 & 128) != 128 {
                        break;
                    }
                },
            }
        }
        Ok(value)
    }
}

} // verus!
