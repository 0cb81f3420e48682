//! Byte-order primitives: integer values reordered between the machine's
//! little-endian layout and big-endian storage. Converting to little-endian
//! keeps the value; converting to big-endian reverses its bytes.

use vstd::prelude::*;

verus! {

/// The bytes of a 16-bit value reversed.
pub open spec fn spec_swap16(x: u16) -> u16 {
    ((x % 0x100) * 0x100 + x / 0x100) as u16
}

/// The bytes of a 32-bit value reversed.
pub open spec fn spec_swap32(x: u32) -> u32 {
    ((x % 0x100) * 0x100_0000 + ((x / 0x100) % 0x100) * 0x1_0000 + ((x / 0x1_0000) % 0x100) * 0x100
        + x / 0x100_0000) as u32
}

/// The bytes of a 64-bit value reversed.
pub open spec fn spec_swap64(x: u64) -> u64 {
    ((x % 0x100) * 0x100_0000_0000_0000 + ((x / 0x100) % 0x100) * 0x1_0000_0000_0000 + ((x
        / 0x1_0000) % 0x100) * 0x100_0000_0000 + ((x / 0x100_0000) % 0x100) * 0x1_0000_0000 + ((x
        / 0x1_0000_0000) % 0x100) * 0x100_0000 + ((x / 0x100_0000_0000) % 0x100) * 0x1_0000 + ((x
        / 0x1_0000_0000_0000) % 0x100) * 0x100 + x / 0x100_0000_0000_0000) as u64
}

/// A value reordered for big- or little-endian storage, on a little-endian
/// machine.
pub trait ByteSwap: Sized {
    /// The value as stored big-endian.
    fn to_big_endian(&self) -> Self;

    /// The value as stored little-endian.
    fn to_little_endian(&self) -> Self;
}

impl ByteSwap for u8 {
    /// A single byte has one order.
    fn to_big_endian(&self) -> (r: u8)
        ensures
            r == *self,
    {
        *self
    }

    /// A single byte has one order.
    fn to_little_endian(&self) -> (r: u8)
        ensures
            r == *self,
    {
        *self
    }
}

impl ByteSwap for u16 {
    /// Reverses the two bytes.
    fn to_big_endian(&self) -> (r: u16)
        ensures
            r == spec_swap16(*self),
    {
        let x = *self;
        proof {
            assert((x << 8) | (x >> 8) == ((x % 0x100) * 0x100 + x / 0x100) as u16) by (bit_vector);
        }
        (x << 8) | (x >> 8)
    }

    /// The machine order: the value unchanged.
    fn to_little_endian(&self) -> (r: u16)
        ensures
            r == *self,
    {
        *self
    }
}

impl ByteSwap for u32 {
    /// Reverses the four bytes.
    fn to_big_endian(&self) -> (r: u32)
        ensures
            r == spec_swap32(*self),
    {
        let x = *self;
        proof {
            assert((x << 24) | ((x & 0xFF00) << 8) | ((x >> 8) & 0xFF00) | (x >> 24) == ((x % 0x100)
                * 0x100_0000 + ((x / 0x100) % 0x100) * 0x1_0000 + ((x / 0x1_0000) % 0x100) * 0x100
                + x / 0x100_0000) as u32) by (bit_vector);
        }
        (x << 24) | ((x & 0xFF00) << 8) | ((x >> 8) & 0xFF00) | (x >> 24)
    }

    /// The machine order: the value unchanged.
    fn to_little_endian(&self) -> (r: u32)
        ensures
            r == *self,
    {
        *self
    }
}

impl ByteSwap for u64 {
    /// Reverses the eight bytes.
    fn to_big_endian(&self) -> (r: u64)
        ensures
            r == spec_swap64(*self),
    {
        let x = *self;
        proof {
            assert((x << 56) | ((x & 0xFF00) << 40) | ((x & 0xFF_0000) << 24) | ((x & 0xFF00_0000)
                << 8) | ((x >> 8) & 0xFF00_0000) | ((x >> 24) & 0xFF_0000) | ((x >> 40) & 0xFF00) | (
            x >> 56) == ((x % 0x100) * 0x100_0000_0000_0000 + ((x / 0x100) % 0x100)
                * 0x1_0000_0000_0000 + ((x / 0x1_0000) % 0x100) * 0x100_0000_0000 + ((x / 0x100_0000)
                % 0x100) * 0x1_0000_0000 + ((x / 0x1_0000_0000) % 0x100) * 0x100_0000 + ((x
                / 0x100_0000_0000) % 0x100) * 0x1_0000 + ((x / 0x1_0000_0000_0000) % 0x100) * 0x100
                + x / 0x100_0000_0000_0000) as u64) by (bit_vector);
        }
        (x << 56) | ((x & 0xFF00) << 40) | ((x & 0xFF_0000) << 24) | ((x & 0xFF00_0000) << 8) | ((x
            >> 8) & 0xFF00_0000) | ((x >> 24) & 0xFF_0000) | ((x >> 40) & 0xFF00) | (x >> 56)
    }

    /// The machine order: the value unchanged.
    fn to_little_endian(&self) -> (r: u64)
        ensures
            r == *self,
    {
        *self
    }
}

impl ByteSwap for i8 {
    /// A single byte has one order.
    fn to_big_endian(&self) -> (r: i8)
        ensures
            r == *self,
    {
        *self
    }

    /// A single byte has one order.
    fn to_little_endian(&self) -> (r: i8)
        ensures
            r == *self,
    {
        *self
    }
}

impl ByteSwap for i16 {
    /// Reverses the two bytes of the value's two's-complement form.
    fn to_big_endian(&self) -> (r: i16)
        ensures
            r as u16 == spec_swap16(*self as u16),
    {
        let x: u16 = #[verifier::truncate] (*self as u16);
        let y = x.to_big_endian();
        proof {
            assert((y as i16) as u16 == y) by (bit_vector);
        }
        #[verifier::truncate] (y as i16)
    }

    /// The machine order: the value unchanged.
    fn to_little_endian(&self) -> (r: i16)
        ensures
            r == *self,
    {
        *self
    }
}

impl ByteSwap for i32 {
    /// Reverses the four bytes of the value's two's-complement form.
    fn to_big_endian(&self) -> (r: i32)
        ensures
            r as u32 == spec_swap32(*self as u32),
    {
        let x: u32 = #[verifier::truncate] (*self as u32);
        let y = x.to_big_endian();
        proof {
            assert((y as i32) as u32 == y) by (bit_vector);
        }
        #[verifier::truncate] (y as i32)
    }

    /// The machine order: the value unchanged.
    fn to_little_endian(&self) -> (r: i32)
        ensures
            r == *self,
    {
        *self
    }
}

impl ByteSwap for i64 {
    /// Reverses the eight bytes of the value's two's-complement form.
    fn to_big_endian(&self) -> (r: i64)
        ensures
            r as u64 == spec_swap64(*self as u64),
    {
        let x: u64 = #[verifier::truncate] (*self as u64);
        let y = x.to_big_endian();
        proof {
            assert((y as i64) as u64 == y) by (bit_vector);
        }
        #[verifier::truncate] (y as i64)
    }

    /// The machine order: the value unchanged.
    fn to_little_endian(&self) -> (r: i64)
        ensures
            r == *self,
    {
        *self
    }
}

} // verus!
