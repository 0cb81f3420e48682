//! An in-memory byte stream with a cursor: the capability that parsers read
//! from and sinks write to. A driver loads a file into one of these (or
//! collects one into a file) outside the library.

use vstd::prelude::*;

verus! {

/// Why a read failed. `EndOfStream` carries the number of bytes that were
/// still available before the end.
#[derive(Clone, Copy, Debug, PartialEq, Eq, Structural)]
pub enum ReadFailure {
    UnknownError,
    WouldBlock,
    EndOfStream(u64),
}

/// Why a seek failed.
#[derive(Clone, Copy, Debug, PartialEq, Eq, Structural)]
pub enum SeekFailure {
    UnknownError,
    OutOfRange,
    Overflow,
}

/// Why a write failed.
#[derive(Clone, Copy, Debug, PartialEq, Eq, Structural)]
pub enum WriteFailure {
    UnknownError,
    WouldBlock,
    NoSpace,
}

/// A byte-level reader.
pub trait Read {
    /// Reads exactly `length` bytes from the cursor onward.
    fn read(&mut self, length: usize) -> Result<Vec<u8>, ReadFailure>;
}

/// A byte-level seeker.
pub trait Seek {
    /// Places the cursor `position` bytes after the start.
    fn seek_from_beginning(&mut self, position: usize) -> Result<(), SeekFailure>;

    /// Places the cursor `position` bytes after the end.
    fn seek_from_end(&mut self, position: usize) -> Result<(), SeekFailure>;

    /// Moves the cursor by `position` bytes relative to where it is.
    fn seek(&mut self, position: i64) -> Result<(), SeekFailure>;
}

/// A byte-level writer.
pub trait Write {
    /// Writes all of `bytes` at the cursor.
    fn write(&mut self, bytes: &[u8]) -> Result<(), WriteFailure>;
}

/// `data` zero-extended on the right to at least `n` bytes.
pub open spec fn zero_extend(data: Seq<u8>, n: int) -> Seq<u8> {
    if data.len() >= n {
        data
    } else {
        data + Seq::new((n - data.len()) as nat, |i: int| 0u8)
    }
}

/// `data` with `bytes` written over positions `pos ..`, the gap up to `pos`
/// filled with zeroes if `data` was shorter than that.
pub open spec fn splice_at(data: Seq<u8>, pos: int, bytes: Seq<u8>) -> Seq<u8> {
    let wide = zero_extend(data, pos + bytes.len());
    wide.take(pos) + bytes + wide.skip(pos + bytes.len())
}

/// A growable in-memory byte region with a cursor, standing in for a file:
/// reads consume bytes at the cursor, writes overwrite them (zero-filling any
/// gap left by a seek past the end), and seeking beyond the end is allowed.
pub struct ByteStream {
    pub data: Vec<u8>,
    pub pos: usize,
}

impl ByteStream {
    /// A stream over `data` with the cursor at the start.
    pub fn new(data: Vec<u8>) -> (r: ByteStream)
        ensures
            r.data == data,
            r.pos == 0,
    {
        ByteStream { data, pos: 0 }
    }

    /// The bytes accumulated in the stream, consuming it.
    pub fn into_data(self) -> (r: Vec<u8>)
        ensures
            r == self.data,
    {
        self.data
    }

    /// How many bytes the stream holds in all.
    pub fn len(&self) -> (r: usize)
        ensures
            r == self.data@.len(),
    {
        self.data.len()
    }

    /// Where the cursor stands.
    pub fn position(&self) -> (r: usize)
        ensures
            r == self.pos,
    {
        self.pos
    }
}

impl Read for ByteStream {
    /// Returns the `length` bytes at the cursor and moves the cursor past
    /// them. When fewer than `length` bytes remain, the cursor moves to the
    /// end and the failure reports how many bytes there were.
    fn read(&mut self, length: usize) -> (r: Result<Vec<u8>, ReadFailure>)
        ensures
            final(self).data == old(self).data,
            old(self).pos + length <= old(self).data@.len() ==> {
                &&& r matches Ok(bytes)
                    && bytes@ == old(self).data@.subrange(
                    old(self).pos as int,
                    old(self).pos + length,
                )
                &&& final(self).pos == old(self).pos + length
            },
            old(self).pos + length > old(self).data@.len() ==> {
                &&& final(self).pos == old(self).data@.len()
                &&& if old(self).pos <= old(self).data@.len() {
                    r == Err::<Vec<u8>, ReadFailure>(
                        ReadFailure::EndOfStream((old(self).data@.len() - old(self).pos) as u64),
                    )
                } else {
                    r == Err::<Vec<u8>, ReadFailure>(ReadFailure::EndOfStream(0))
                }
            },
    {
        if self.pos > self.data.len() {
            self.pos = self.data.len();
            return Err(ReadFailure::EndOfStream(0));
        }
        let available = self.data.len() - self.pos;
        if length > available {
            self.pos = self.data.len();
            return Err(ReadFailure::EndOfStream(available as u64));
        }
        let mut bytes: Vec<u8> = Vec::new();
        let mut i: usize = 0;
        while i < length
            invariant
                i <= length,
                self.pos + length <= self.data@.len(),
                self.data@.len() <= usize::MAX,
                bytes@ == self.data@.subrange(self.pos as int, self.pos + i),
                self.pos == old(self).pos,
                self.data == old(self).data,
            decreases length - i,
        {
            bytes.push(self.data[self.pos + i]);
            i += 1;
            proof {
                assert(bytes@ == self.data@.subrange(self.pos as int, self.pos + i));
            }
        }
        self.pos = self.pos + length;
        Ok(bytes)
    }
}

impl Seek for ByteStream {
    /// Puts the cursor at `position`, even past the end.
    fn seek_from_beginning(&mut self, position: usize) -> (r: Result<(), SeekFailure>)
        ensures
            r matches Ok(u),
            final(self).data == old(self).data,
            final(self).pos == position,
    {
        self.pos = position;
        Ok(())
    }

    /// Puts the cursor `position` bytes past the end; fails without moving
    /// it when that position does not fit in a `usize`.
    fn seek_from_end(&mut self, position: usize) -> (r: Result<(), SeekFailure>)
        ensures
            final(self).data == old(self).data,
            if old(self).data@.len() + position <= usize::MAX {
                r matches Ok(u) && final(self).pos == old(self).data@.len() + position
            } else {
                r == Err::<(), SeekFailure>(SeekFailure::Overflow) && final(self).pos == old(
                    self,
                ).pos
            },
    {
        if position <= usize::MAX - self.data.len() {
            self.pos = self.data.len() + position;
            Ok(())
        } else {
            Err(SeekFailure::Overflow)
        }
    }

    /// Moves the cursor by `position`; fails without moving it when the
    /// cursor would land before the start or past `usize::MAX`.
    fn seek(&mut self, position: i64) -> (r: Result<(), SeekFailure>)
        ensures
            final(self).data == old(self).data,
            if 0 <= old(self).pos + position <= usize::MAX {
                r matches Ok(u) && final(self).pos == old(self).pos + position
            } else {
                r == Err::<(), SeekFailure>(SeekFailure::OutOfRange) && final(self).pos == old(
                    self,
                ).pos
            },
    {
        if position >= 0 {
            let delta = position as u64;
            if delta <= (usize::MAX - self.pos) as u64 {
                self.pos = self.pos + (delta as usize);
                Ok(())
            } else {
                Err(SeekFailure::OutOfRange)
            }
        } else {
            let back: u64 = if position == i64::MIN {
                9223372036854775808u64
            } else {
                (-position) as u64
            };
            if back <= self.pos as u64 {
                self.pos = self.pos - (back as usize);
                Ok(())
            } else {
                Err(SeekFailure::OutOfRange)
            }
        }
    }
}

impl Write for ByteStream {
    /// Writes `bytes` at the cursor, overwriting what is there, zero-filling
    /// any gap between the old end and the cursor, and growing the stream as
    /// needed; the cursor ends just past what was written. Fails without
    /// writing when the end of the write would not fit in a `usize`.
    fn write(&mut self, bytes: &[u8]) -> (r: Result<(), WriteFailure>)
        ensures
            if old(self).pos + bytes@.len() <= usize::MAX {
                &&& r matches Ok(u)
                &&& final(self).data@ == splice_at(old(self).data@, old(self).pos as int, bytes@)
                &&& final(self).pos == old(self).pos + bytes@.len()
            } else {
                &&& r == Err::<(), WriteFailure>(WriteFailure::NoSpace)
                &&& final(self).data == old(self).data
                &&& final(self).pos == old(self).pos
            },
    {
        if bytes.len() > usize::MAX - self.pos {
            return Err(WriteFailure::NoSpace);
        }
        let ghost orig = self.data@;
        let ghost start = self.pos as int;
        while self.data.len() < self.pos
            invariant
                self.pos == start,
                self.data@ == zero_extend(orig, self.data@.len() as int),
                self.data@.len() <= start || self.data@ == zero_extend(orig, start),
                orig.len() <= self.data@.len() || self.data@ == orig,
            decreases self.pos - self.data.len(),
        {
            self.data.push(0u8);
        }
        proof {
            assert(self.data@ == zero_extend(orig, start));
        }
        let ghost wide0 = self.data@;
        let mut i: usize = 0;
        while i < bytes.len()
            invariant
                i <= bytes@.len(),
                self.pos == start,
                start <= wide0.len(),
                start + bytes@.len() <= usize::MAX,
                self.data@.len() == if start + i > wide0.len() {
                    start + i
                } else {
                    wide0.len() as int
                },
                forall|j: int| 0 <= j < start ==> self.data@[j] == wide0[j],
                forall|j: int| 0 <= j < i ==> self.data@[start + j] == bytes@[j],
                forall|j: int|
                    start + i <= j < self.data@.len() && j < wide0.len() ==> self.data@[j]
                        == wide0[j],
            decreases bytes@.len() - i,
        {
            let b = bytes[i];
            if self.pos + i < self.data.len() {
                self.data.set(self.pos + i, b);
            } else {
                self.data.push(b);
            }
            i += 1;
        }
        self.pos = self.pos + bytes.len();
        proof {
            let n = bytes@.len() as int;
            let wide = zero_extend(orig, start + n);
            lemma_zero_extend_layers(orig, start, start + n);
            let spliced = wide.take(start) + bytes@ + wide.skip(start + n);
            assert forall|j: int| 0 <= j < self.data@.len() implies self.data@[j] == spliced[j] by {
                if j < start {
                    assert(spliced[j] == wide[j]);
                } else if j < start + n {
                    assert(spliced[j] == bytes@[j - start]);
                    assert(self.data@[j] == bytes@[j - start]);
                } else {
                    assert(spliced[j] == wide[j]);
                    assert(j < wide0.len());
                }
            }
            assert(self.data@ =~= spliced);
        }
        Ok(())
    }
}

/// Zero-extending to `n` and then to `m >= n` is one zero-extension to `m`,
/// and the shorter extension is a prefix of the longer.
proof fn lemma_zero_extend_layers(data: Seq<u8>, n: int, m: int)
    requires
        n <= m,
    ensures
        zero_extend(zero_extend(data, n), m) =~= zero_extend(data, m),
        forall|i: int|
            0 <= i < zero_extend(data, n).len() ==> zero_extend(data, m)[i] == zero_extend(
                data,
                n,
            )[i],
{
}

} // verus!
