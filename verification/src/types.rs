use vstd::prelude::*;

verus! {

/// A player as the server knows it.
pub struct PlayerProfile {
    pub name: String,
}

/// A block position.
pub struct Position {
    pub x: i32,
    pub y: i32,
    pub z: i32,
}

/// `u` read as a two's complement number of `bits` bits.
pub open spec fn signed_bits(u: int, bits: nat) -> int {
    if u >= vstd::arithmetic::power2::pow2((bits - 1) as nat) {
        u - vstd::arithmetic::power2::pow2(bits)
    } else {
        u
    }
}

/// The packed form that `to_long` computes. The `x` field is shifted left as an
/// `i32` by 38, which wraps to a shift by 6, before the widening to `u64`; the
/// `z` field likewise loses what passes bit 31, and both widen with sign.
pub open spec fn spec_to_long(x: i32, y: i32, z: i32) -> u64 {
    ((x & 0x3FFFFFF).wrapping_shl(38) as u64) | ((z & 0x3FFFFFF).wrapping_shl(12) as u64) | ((y & 0xFFF) as u64)
}

impl Position {
    /// Unpacks a position: `x` from the top 26 bits, `z` from the 26 bits
    /// below them, `y` from the low 12 bits, each read as a signed number.
    pub fn parse(v: u64) -> (p: Self)
        ensures
            p.x == signed_bits((v >> 38) as int, 26),
            p.z == signed_bits(((v >> 12) & 0x3FFFFFF) as int, 26),
            p.y == signed_bits((v & 0xFFF) as int, 12),
            -0x200_0000 <= p.x < 0x200_0000,
            -0x200_0000 <= p.z < 0x200_0000,
            -0x800 <= p.y < 0x800,
    {
        proof {
            assert(v >> 38 < 0x400_0000 && (v & 0xFFF) < 0x1000 && (v >> 12 & 0x3FFFFFF) < 0x400_0000) by (bit_vector);
            vstd::arithmetic::power2::lemma2_to64();
            vstd::arithmetic::power2::lemma2_to64_rest();
            assert((1i32 << 25) == 0x200_0000i32 && (1i32 << 26) == 0x400_0000i32 && (1i32 << 11) == 0x800i32
                && (1i32 << 12) == 0x1000i32) by (bit_vector);
        }
        let mut x = (v >> 38) as i32;
        let mut y = (v & 0xFFF) as i32;
        let mut z = (v >> 12 & 0x3FFFFFF) as i32;

        if x >= 1 << 25 {
            x -= 1 << 26
        }
        if y >= 1 << 11 {
            y -= 1 << 12
        }
        if z >= 1 << 25 {
            z -= 1 << 26
        }

        Self { x, y, z }
    }

    /// Packs the position (see `spec_to_long`).
    pub fn to_long(&self) -> (r: u64)
        ensures
            r == spec_to_long(self.x, self.y, self.z),
    {
        (self.x & 0x3FFFFFF).wrapping_shl(38) as u64 | (self.z & 0x3FFFFFF).wrapping_shl(12) as u64
            | (self.y & 0xFFF) as u64
    }
}

/// Packing and then unpacking gives the position back when `x` is 0 and `z`
/// lies in `[0, 2^19)` (`y` anywhere in its 12-bit range). Outside that, the
/// wrapped shifts of `to_long` lose or move bits: a non-zero `x` lands on the
/// bits of `z` and `y`.
pub proof fn lemma_position_roundtrip(y: i32, z: i32)
    requires
        -0x800 <= y < 0x800,
        0 <= z < 0x8_0000,
    ensures
        ({
            let v = spec_to_long(0, y, z);
            &&& signed_bits((v >> 38) as int, 26) == 0
            &&& signed_bits(((v >> 12) & 0x3FFFFFF) as int, 26) == z
            &&& signed_bits((v & 0xFFF) as int, 12) == y
        }),
{
    let v = spec_to_long(0, y, z);
    assert(-0x800 <= y < 0x800 && 0 <= z < 0x8_0000 ==> ({
        let w: u64 = ((0i32 & 0x3FFFFFF) << 6) as u64 | ((z & 0x3FFFFFF) << 12) as u64 | ((y & 0xFFF) as u64);
        &&& w >> 38 == 0
        &&& (w >> 12) & 0x3FFFFFF == z
        &&& (y >= 0 ==> w & 0xFFF == y)
        &&& (y < 0 ==> w & 0xFFF == y + 0x1000)
    })) by (bit_vector);
    vstd::arithmetic::power2::lemma2_to64();
}

} // verus!
