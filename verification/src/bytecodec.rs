//! Typed integer reads and writes over a byte stream, and the spec-level
//! byte-order functions the rest of the library states its contracts with.

use vstd::prelude::*;

use crate::bytestream::{ByteStream, Read, ReadFailure, Write, WriteFailure, splice_at};

verus! {

/// The little-endian 16-bit value at offset `i` of `d`.
pub open spec fn le16_at(d: Seq<u8>, i: int) -> u16 {
    (d[i] + d[i + 1] * 0x100) as u16
}

/// The little-endian 32-bit value at offset `i` of `d`.
pub open spec fn le32_at(d: Seq<u8>, i: int) -> u32 {
    (d[i] + d[i + 1] * 0x100 + d[i + 2] * 0x10000 + d[i + 3] * 0x1000000) as u32
}

/// The big-endian 16-bit value at offset `i` of `d`.
pub open spec fn be16_at(d: Seq<u8>, i: int) -> u16 {
    (d[i] * 0x100 + d[i + 1]) as u16
}

/// The big-endian 32-bit value at offset `i` of `d`.
pub open spec fn be32_at(d: Seq<u8>, i: int) -> u32 {
    (d[i] * 0x1000000 + d[i + 1] * 0x10000 + d[i + 2] * 0x100 + d[i + 3]) as u32
}

/// The two bytes of `v`, least significant first.
pub open spec fn le16_bytes(v: u16) -> Seq<u8> {
    seq![(v % 0x100) as u8, (v / 0x100) as u8]
}

/// The four bytes of `v`, least significant first.
pub open spec fn le32_bytes(v: u32) -> Seq<u8> {
    seq![
        (v % 0x100) as u8,
        ((v / 0x100) % 0x100) as u8,
        ((v / 0x10000) % 0x100) as u8,
        (v / 0x1000000) as u8,
    ]
}

/// The two bytes of `v`, most significant first.
pub open spec fn be16_bytes(v: u16) -> Seq<u8> {
    seq![(v / 0x100) as u8, (v % 0x100) as u8]
}

/// The four bytes of `v`, most significant first.
pub open spec fn be32_bytes(v: u32) -> Seq<u8> {
    seq![
        (v / 0x1000000) as u8,
        ((v / 0x10000) % 0x100) as u8,
        ((v / 0x100) % 0x100) as u8,
        (v % 0x100) as u8,
    ]
}

/// Reading back the bytes of a value gives the value: the round trips that
/// tie the byte builders to the byte readers.
pub proof fn lemma_bytes_roundtrip(v16: u16, v32: u32)
    ensures
        le16_at(le16_bytes(v16), 0) == v16,
        le32_at(le32_bytes(v32), 0) == v32,
        be16_at(be16_bytes(v16), 0) == v16,
        be32_at(be32_bytes(v32), 0) == v32,
{
}


/// The little-endian 64-bit value at offset `i` of `d`.
pub open spec fn le64_at(d: Seq<u8>, i: int) -> u64 {
    (d[i] + d[i + 1] * 0x100 + d[i + 2] * 0x1_0000 + d[i + 3] * 0x100_0000 + d[i + 4]
        * 0x1_0000_0000 + d[i + 5] * 0x100_0000_0000 + d[i + 6] * 0x1_0000_0000_0000 + d[i + 7]
        * 0x100_0000_0000_0000) as u64
}

/// The eight bytes of `v`, least significant first.
pub open spec fn le64_bytes(v: u64) -> Seq<u8> {
    seq![
        (v % 0x100) as u8,
        ((v / 0x100) % 0x100) as u8,
        ((v / 0x1_0000) % 0x100) as u8,
        ((v / 0x100_0000) % 0x100) as u8,
        ((v / 0x1_0000_0000) % 0x100) as u8,
        ((v / 0x100_0000_0000) % 0x100) as u8,
        ((v / 0x1_0000_0000_0000) % 0x100) as u8,
        (v / 0x100_0000_0000_0000) as u8,
    ]
}

/// Reading back the eight bytes of a value gives the value.
#[verifier::rlimit(100)]
pub proof fn lemma_le64_roundtrip(v: u64)
    ensures
        le64_at(le64_bytes(v), 0) == v,
{
    let b = le64_bytes(v);
    assert(b[0] + b[1] * 0x100 + b[2] * 0x1_0000 + b[3] * 0x100_0000 + b[4] * 0x1_0000_0000 + b[5]
        * 0x100_0000_0000 + b[6] * 0x1_0000_0000_0000 + b[7] * 0x100_0000_0000_0000 == v) by {
        vstd::arithmetic::div_mod::lemma_fundamental_div_mod(v as int, 0x100);
        vstd::arithmetic::div_mod::lemma_fundamental_div_mod(v as int / 0x100, 0x100);
        vstd::arithmetic::div_mod::lemma_fundamental_div_mod(v as int / 0x1_0000, 0x100);
        vstd::arithmetic::div_mod::lemma_fundamental_div_mod(v as int / 0x100_0000, 0x100);
        vstd::arithmetic::div_mod::lemma_fundamental_div_mod(v as int / 0x1_0000_0000, 0x100);
        vstd::arithmetic::div_mod::lemma_fundamental_div_mod(v as int / 0x100_0000_0000, 0x100);
        vstd::arithmetic::div_mod::lemma_fundamental_div_mod(v as int / 0x1_0000_0000_0000, 0x100);
    }
}

/// The failure a read that starts at `pos` and runs past the end of `d`
/// reports.
pub open spec fn short_read(d: Seq<u8>, pos: int) -> ReadFailure {
    ReadFailure::EndOfStream(
        if pos <= d.len() {
            (d.len() - pos) as u64
        } else {
            0u64
        },
    )
}

/// Typed big- and little-endian reads built on a byte reader.
pub trait ReadCore {
    /// Reads one byte.
    fn read_u8_be(&mut self) -> Result<u8, ReadFailure>;

    /// Reads a big-endian 16-bit value.
    fn read_u16_be(&mut self) -> Result<u16, ReadFailure>;

    /// Reads a big-endian 32-bit value.
    fn read_u32_be(&mut self) -> Result<u32, ReadFailure>;

    /// Reads a little-endian 16-bit value.
    fn read_u16_le(&mut self) -> Result<u16, ReadFailure>;

    /// Reads a little-endian 32-bit value.
    fn read_u32_le(&mut self) -> Result<u32, ReadFailure>;

    /// Reads a four-byte chunk identifier, kept in big-endian order.
    fn read_fourcc(&mut self) -> Result<u32, ReadFailure>;
}

/// Typed big- and little-endian writes built on a byte writer.
pub trait WriteCore {
    /// Writes a big-endian 16-bit value.
    fn write_u16_be(&mut self, value: u16) -> Result<(), WriteFailure>;

    /// Writes a big-endian 32-bit value.
    fn write_u32_be(&mut self, value: u32) -> Result<(), WriteFailure>;

    /// Writes a little-endian 16-bit value.
    fn write_u16_le(&mut self, value: u16) -> Result<(), WriteFailure>;

    /// Writes a little-endian 32-bit value.
    fn write_u32_le(&mut self, value: u32) -> Result<(), WriteFailure>;

    /// Writes a four-byte chunk identifier, kept in big-endian order.
    fn write_fourcc(&mut self, value: u32) -> Result<(), WriteFailure>;
}

impl ReadCore for ByteStream {
    /// Returns the byte at the cursor and moves past it; fails at the end of
    /// the stream, leaving the cursor there.
    fn read_u8_be(&mut self) -> (r: Result<u8, ReadFailure>)
        ensures
            final(self).data == old(self).data,
            old(self).pos + 1 <= old(self).data@.len() ==> r == Ok::<u8, ReadFailure>(
                old(self).data@[old(self).pos as int],
            ) && final(self).pos == old(self).pos + 1,
            old(self).pos + 1 > old(self).data@.len() ==> r == Err::<u8, ReadFailure>(
                short_read(old(self).data@, old(self).pos as int),
            ) && final(self).pos == old(self).data@.len(),
    {
        let bytes = self.read(1)?;
        Ok(bytes[0])
    }

    /// Returns the big-endian 16-bit value at the cursor and moves past it;
    /// fails when fewer than two bytes remain, leaving the cursor at the end.
    fn read_u16_be(&mut self) -> (r: Result<u16, ReadFailure>)
        ensures
            final(self).data == old(self).data,
            old(self).pos + 2 <= old(self).data@.len() ==> r == Ok::<u16, ReadFailure>(
                be16_at(old(self).data@, old(self).pos as int),
            ) && final(self).pos == old(self).pos + 2,
            old(self).pos + 2 > old(self).data@.len() ==> r == Err::<u16, ReadFailure>(
                short_read(old(self).data@, old(self).pos as int),
            ) && final(self).pos == old(self).data@.len(),
    {
        let bytes = self.read(2)?;
        Ok((bytes[0] as u16) * 0x100 + (bytes[1] as u16))
    }

    /// Returns the big-endian 32-bit value at the cursor and moves past it;
    /// fails when fewer than four bytes remain, leaving the cursor at the
    /// end.
    fn read_u32_be(&mut self) -> (r: Result<u32, ReadFailure>)
        ensures
            final(self).data == old(self).data,
            old(self).pos + 4 <= old(self).data@.len() ==> r == Ok::<u32, ReadFailure>(
                be32_at(old(self).data@, old(self).pos as int),
            ) && final(self).pos == old(self).pos + 4,
            old(self).pos + 4 > old(self).data@.len() ==> r == Err::<u32, ReadFailure>(
                short_read(old(self).data@, old(self).pos as int),
            ) && final(self).pos == old(self).data@.len(),
    {
        let bytes = self.read(4)?;
        Ok(
            (bytes[0] as u32) * 0x1000000 + (bytes[1] as u32) * 0x10000 + (bytes[2] as u32) * 0x100
                + (bytes[3] as u32),
        )
    }

    /// Returns the little-endian 16-bit value at the cursor and moves past
    /// it; fails when fewer than two bytes remain, leaving the cursor at the
    /// end.
    fn read_u16_le(&mut self) -> (r: Result<u16, ReadFailure>)
        ensures
            final(self).data == old(self).data,
            old(self).pos + 2 <= old(self).data@.len() ==> r == Ok::<u16, ReadFailure>(
                le16_at(old(self).data@, old(self).pos as int),
            ) && final(self).pos == old(self).pos + 2,
            old(self).pos + 2 > old(self).data@.len() ==> r == Err::<u16, ReadFailure>(
                short_read(old(self).data@, old(self).pos as int),
            ) && final(self).pos == old(self).data@.len(),
    {
        let bytes = self.read(2)?;
        Ok((bytes[0] as u16) + (bytes[1] as u16) * 0x100)
    }

    /// Returns the little-endian 32-bit value at the cursor and moves past
    /// it; fails when fewer than four bytes remain, leaving the cursor at the
    /// end.
    fn read_u32_le(&mut self) -> (r: Result<u32, ReadFailure>)
        ensures
            final(self).data == old(self).data,
            old(self).pos + 4 <= old(self).data@.len() ==> r == Ok::<u32, ReadFailure>(
                le32_at(old(self).data@, old(self).pos as int),
            ) && final(self).pos == old(self).pos + 4,
            old(self).pos + 4 > old(self).data@.len() ==> r == Err::<u32, ReadFailure>(
                short_read(old(self).data@, old(self).pos as int),
            ) && final(self).pos == old(self).data@.len(),
    {
        let bytes = self.read(4)?;
        Ok(
            (bytes[0] as u32) + (bytes[1] as u32) * 0x100 + (bytes[2] as u32) * 0x10000 + (
            bytes[3] as u32) * 0x1000000,
        )
    }

    /// Returns the four-byte identifier at the cursor as its big-endian
    /// 32-bit form and moves past it; fails when fewer than four bytes
    /// remain, leaving the cursor at the end.
    fn read_fourcc(&mut self) -> (r: Result<u32, ReadFailure>)
        ensures
            final(self).data == old(self).data,
            old(self).pos + 4 <= old(self).data@.len() ==> r == Ok::<u32, ReadFailure>(
                be32_at(old(self).data@, old(self).pos as int),
            ) && final(self).pos == old(self).pos + 4,
            old(self).pos + 4 > old(self).data@.len() ==> r == Err::<u32, ReadFailure>(
                short_read(old(self).data@, old(self).pos as int),
            ) && final(self).pos == old(self).data@.len(),
    {
        self.read_u32_be()
    }
}

impl WriteCore for ByteStream {
    /// Writes the two bytes of `value`, most significant first; fails
    /// without writing when the write would run past `usize::MAX`.
    fn write_u16_be(&mut self, value: u16) -> (r: Result<(), WriteFailure>)
        ensures
            old(self).pos + 2 <= usize::MAX ==> r is Ok && final(self).data@ == splice_at(
                old(self).data@,
                old(self).pos as int,
                be16_bytes(value),
            ) && final(self).pos == old(self).pos + 2,
            old(self).pos + 2 > usize::MAX ==> r == Err::<(), WriteFailure>(WriteFailure::NoSpace)
                && final(self).data == old(self).data && final(self).pos == old(self).pos,
    {
        let mut bytes: Vec<u8> = Vec::new();
        bytes.push((value / 0x100) as u8);
        bytes.push((value % 0x100) as u8);
        proof {
            assert(bytes@ =~= be16_bytes(value));
        }
        self.write(bytes.as_slice())
    }

    /// Writes the four bytes of `value`, most significant first; fails
    /// without writing when the write would run past `usize::MAX`.
    fn write_u32_be(&mut self, value: u32) -> (r: Result<(), WriteFailure>)
        ensures
            old(self).pos + 4 <= usize::MAX ==> r is Ok && final(self).data@ == splice_at(
                old(self).data@,
                old(self).pos as int,
                be32_bytes(value),
            ) && final(self).pos == old(self).pos + 4,
            old(self).pos + 4 > usize::MAX ==> r == Err::<(), WriteFailure>(WriteFailure::NoSpace)
                && final(self).data == old(self).data && final(self).pos == old(self).pos,
    {
        let mut bytes: Vec<u8> = Vec::new();
        bytes.push((value / 0x1000000) as u8);
        bytes.push(((value / 0x10000) % 0x100) as u8);
        bytes.push(((value / 0x100) % 0x100) as u8);
        bytes.push((value % 0x100) as u8);
        proof {
            assert(bytes@ =~= be32_bytes(value));
        }
        self.write(bytes.as_slice())
    }

    /// Writes the two bytes of `value`, least significant first; fails
    /// without writing when the write would run past `usize::MAX`.
    fn write_u16_le(&mut self, value: u16) -> (r: Result<(), WriteFailure>)
        ensures
            old(self).pos + 2 <= usize::MAX ==> r is Ok && final(self).data@ == splice_at(
                old(self).data@,
                old(self).pos as int,
                le16_bytes(value),
            ) && final(self).pos == old(self).pos + 2,
            old(self).pos + 2 > usize::MAX ==> r == Err::<(), WriteFailure>(WriteFailure::NoSpace)
                && final(self).data == old(self).data && final(self).pos == old(self).pos,
    {
        let mut bytes: Vec<u8> = Vec::new();
        bytes.push((value % 0x100) as u8);
        bytes.push((value / 0x100) as u8);
        proof {
            assert(bytes@ =~= le16_bytes(value));
        }
        self.write(bytes.as_slice())
    }

    /// Writes the four bytes of `value`, least significant first; fails
    /// without writing when the write would run past `usize::MAX`.
    fn write_u32_le(&mut self, value: u32) -> (r: Result<(), WriteFailure>)
        ensures
            old(self).pos + 4 <= usize::MAX ==> r is Ok && final(self).data@ == splice_at(
                old(self).data@,
                old(self).pos as int,
                le32_bytes(value),
            ) && final(self).pos == old(self).pos + 4,
            old(self).pos + 4 > usize::MAX ==> r == Err::<(), WriteFailure>(WriteFailure::NoSpace)
                && final(self).data == old(self).data && final(self).pos == old(self).pos,
    {
        let mut bytes: Vec<u8> = Vec::new();
        bytes.push((value % 0x100) as u8);
        bytes.push(((value / 0x100) % 0x100) as u8);
        bytes.push(((value / 0x10000) % 0x100) as u8);
        bytes.push((value / 0x1000000) as u8);
        proof {
            assert(bytes@ =~= le32_bytes(value));
        }
        self.write(bytes.as_slice())
    }

    /// Writes a four-byte identifier from its big-endian 32-bit form; fails
    /// without writing when the write would run past `usize::MAX`.
    fn write_fourcc(&mut self, value: u32) -> (r: Result<(), WriteFailure>)
        ensures
            old(self).pos + 4 <= usize::MAX ==> r is Ok && final(self).data@ == splice_at(
                old(self).data@,
                old(self).pos as int,
                be32_bytes(value),
            ) && final(self).pos == old(self).pos + 4,
            old(self).pos + 4 > usize::MAX ==> r == Err::<(), WriteFailure>(WriteFailure::NoSpace)
                && final(self).data == old(self).data && final(self).pos == old(self).pos,
    {
        self.write_u32_be(value)
    }
}

} // verus!
