//! A cursor over the chunks of a RIFF-style container: each chunk is an
//! eight-byte header (four-byte identifier, little-endian 32-bit size)
//! followed by its data. The outermost structure is a list header (twelve
//! bytes: identifier, size, list type) whose payload is the chunk run.
//!
//! Chunk data is not padded to an even length when the cursor advances; a
//! container whose chunks all start at even offsets is traversed as written.

use vstd::prelude::*;

use crate::bytecodec::{ReadCore, be32_at, le32_at};
use crate::bytestream::{ByteStream, Read, Seek};
use crate::fault::Fault;

verus! {

/// The `"LIST"` chunk identifier in big-endian form.
pub const FOURCC_LIST: u32 = 0x4C495354;

/// The header of one chunk: its four-byte identifier and the byte length of
/// its data.
#[derive(Clone, Copy, Debug, PartialEq, Eq, Structural)]
pub struct RIFFChunk {
    pub fourcc: u32,
    pub size: u32,
}

/// The header of the outermost container: identifier, size, and the type of
/// the list.
#[derive(Clone, Copy, Debug, PartialEq, Eq, Structural)]
pub struct RIFFList {
    pub fourcc: u32,
    pub size: u32,
    pub list_type: u32,
}

impl RIFFChunk {
    /// Whether this chunk is a nested list.
    pub fn is_list(&self) -> (r: bool)
        ensures
            r == (self.fourcc == FOURCC_LIST),
    {
        self.fourcc == FOURCC_LIST
    }
}

impl RIFFList {
    /// Whether this header is a nested list.
    pub fn is_list(&self) -> (r: bool)
        ensures
            r == (self.fourcc == FOURCC_LIST),
    {
        self.fourcc == FOURCC_LIST
    }
}

/// The chunk whose header sits at offset `o` of `d`.
pub open spec fn chunk_at(d: Seq<u8>, o: int) -> RIFFChunk {
    RIFFChunk { fourcc: be32_at(d, o), size: le32_at(d, o + 4) }
}

/// The offset of the header of chunk number `k` of the container that starts
/// at `container_offset` of `d`: the first chunk follows the twelve-byte
/// container header, and each later one follows the previous chunk's header
/// and data.
pub open spec fn chunk_start(d: Seq<u8>, container_offset: int, k: nat) -> int
    decreases k,
{
    if k == 0 {
        container_offset + 12
    } else {
        let prev = chunk_start(d, container_offset, (k - 1) as nat);
        prev + 8 + le32_at(d, prev + 4)
    }
}

/// Chunk offsets grow by at least eight bytes per chunk: a traversal that
/// steps from chunk `j` to chunk `k` moves strictly forward, so it can visit
/// no chunk twice, visits them in file order, and must leave any container
/// of finite size after finitely many steps.
pub proof fn lemma_chunk_order(d: Seq<u8>, container_offset: int, j: nat, k: nat)
    requires
        j <= k,
    ensures
        chunk_start(d, container_offset, k) >= chunk_start(d, container_offset, j) + 8 * (k - j),
    decreases k - j,
{
    if j < k {
        lemma_chunk_order(d, container_offset, j, (k - 1) as nat);
    }
}

/// A traversal terminates: once the chunk number reaches the container size,
/// the chunk's offset lies at or past the container's end, where
/// `move_to_next_chunk` stops with `EndOfContainer`.
pub proof fn lemma_traversal_terminates(
    d: Seq<u8>,
    container_offset: int,
    container_size: int,
    k: nat,
)
    requires
        8 * k + 12 >= container_size,
    ensures
        chunk_start(d, container_offset, k) >= container_offset + container_size,
{
    lemma_chunk_order(d, container_offset, 0, k);
}

/// A cursor over the chunks of one container held in an in-memory byte
/// stream that the parser owns. `current_chunk_offset` is the offset of the
/// current chunk's eight-byte header from the start of the stream, and
/// `bytes_remaining` is how much of the current chunk's data
/// `read_data_from_chunk` has not consumed yet.
pub struct RIFFParser {
    pub stream: ByteStream,
    pub riff_id: u32,
    pub riff_type: u32,
    pub container_size: usize,
    pub container_offset: usize,
    pub current_chunk: RIFFChunk,
    pub current_chunk_offset: usize,
    pub bytes_remaining: usize,
    pub index: Ghost<nat>,
}

impl RIFFParser {
    /// The parser's structural invariant: the cursor stands on chunk number
    /// `index` of the container, the cached headers match the bytes, and the
    /// consumption counter never exceeds the current chunk's size.
    pub open spec fn wf(&self) -> bool {
        let d = self.stream.data@;
        &&& self.container_offset % 2 == 0
        &&& self.container_offset + 20 <= d.len()
        &&& be32_at(d, self.container_offset as int) == self.riff_id
        &&& self.container_size == le32_at(d, self.container_offset + 4) + 8
        &&& self.riff_type == be32_at(d, self.container_offset + 8)
        &&& self.current_chunk_offset == chunk_start(
            d,
            self.container_offset as int,
            self.index@,
        )
        &&& self.current_chunk_offset + 8 <= d.len()
        &&& self.current_chunk == chunk_at(d, self.current_chunk_offset as int)
        &&& self.bytes_remaining <= self.current_chunk.size
    }

    /// Header plus data size of the current chunk: how far the cursor moves
    /// to reach the next chunk.
    pub fn chunk_actual_size(&self) -> (r: u64)
        ensures
            r == 8 + self.current_chunk.size,
    {
        8u64 + (self.current_chunk.size as u64)
    }

    /// Opens the container that starts at the even offset `container_offset`
    /// of `stream` and leaves the cursor on its first chunk, with the
    /// stream's cursor just past that chunk's header.
    ///
    /// Fails with `BadAlignment` on an odd offset, `Truncated` when the
    /// twelve-byte container header or the first chunk header runs past the
    /// end of the stream, and `IdMismatch` when the identifier at
    /// `container_offset` is not `id`; the stream is discarded on failure.
    pub fn new(stream: ByteStream, id: u32, container_offset: usize) -> (r: Result<
        RIFFParser,
        Fault,
    >)
        ensures
            ({
                let d = stream.data@;
                let ok = container_offset % 2 == 0 && container_offset + 20 <= d.len() && be32_at(
                    d,
                    container_offset as int,
                ) == id && le32_at(d, container_offset + 4) + 8 <= usize::MAX;
                &&& r is Ok <==> ok
                &&& container_offset % 2 != 0 ==> r == Err::<RIFFParser, Fault>(
                    Fault::BadAlignment,
                )
                &&& (container_offset % 2 == 0 && container_offset + 12 > d.len()) ==> r == Err::<
                    RIFFParser,
                    Fault,
                >(Fault::Truncated)
                &&& (container_offset % 2 == 0 && container_offset + 12 <= d.len() && be32_at(
                    d,
                    container_offset as int,
                ) != id) ==> r == Err::<RIFFParser, Fault>(Fault::IdMismatch)
                &&& (container_offset % 2 == 0 && container_offset + 12 <= d.len() && be32_at(
                    d,
                    container_offset as int,
                ) == id && le32_at(d, container_offset + 4) + 8 > usize::MAX) ==> r == Err::<
                    RIFFParser,
                    Fault,
                >(Fault::ChunkOverflow)
                &&& (container_offset % 2 == 0 && container_offset + 12 <= d.len() && be32_at(
                    d,
                    container_offset as int,
                ) == id && le32_at(d, container_offset + 4) + 8 <= usize::MAX && container_offset
                    + 20 > d.len()) ==> r == Err::<RIFFParser, Fault>(Fault::Truncated)
                &&& match r {
                    Ok(p) => {
                        &&& p.wf()
                        &&& p.stream.data == stream.data
                        &&& p.stream.pos == container_offset + 20
                        &&& p.riff_id == id
                        &&& p.riff_type == be32_at(d, container_offset + 8)
                        &&& p.container_offset == container_offset
                        &&& p.container_size == le32_at(d, container_offset + 4) + 8
                        &&& p.index@ == 0
                        &&& p.current_chunk_offset == container_offset + 12
                        &&& p.current_chunk == chunk_at(d, container_offset + 12)
                        &&& p.bytes_remaining == p.current_chunk.size
                    },
                    Err(e) => true,
                }
            }),
    {
        let mut stream = stream;

        if container_offset % 2 != 0 {
            // Container structures are two-byte aligned.
            return Err(Fault::BadAlignment);
        }

        match stream.seek_from_beginning(container_offset) {
            Ok(_) => (),
            Err(_) => return Err(Fault::Truncated),
        }

        let fourcc = match stream.read_fourcc() {
            Ok(v) => v,
            Err(_) => return Err(Fault::Truncated),
        };
        let size = match stream.read_u32_le() {
            Ok(v) => v,
            Err(_) => return Err(Fault::Truncated),
        };
        let list_type = match stream.read_fourcc() {
            Ok(v) => v,
            Err(_) => return Err(Fault::Truncated),
        };

        if fourcc != id {
            return Err(Fault::IdMismatch);
        }

        if (size as usize) > usize::MAX - 8 {
            return Err(Fault::ChunkOverflow);
        }
        let container_size = (size as usize) + 8;

        let chunk_fourcc = match stream.read_fourcc() {
            Ok(v) => v,
            Err(_) => return Err(Fault::Truncated),
        };
        let chunk_size = match stream.read_u32_le() {
            Ok(v) => v,
            Err(_) => return Err(Fault::Truncated),
        };

        Ok(
            RIFFParser {
                stream,
                riff_id: id,
                riff_type: list_type,
                container_size,
                container_offset,
                current_chunk: RIFFChunk { fourcc: chunk_fourcc, size: chunk_size },
                current_chunk_offset: container_offset + 12,
                bytes_remaining: chunk_size as usize,
                index: Ghost(0nat),
            },
        )
    }

    /// Advances the cursor past the current chunk's header and data onto the
    /// next chunk, re-reads that chunk's header, and leaves the stream's
    /// cursor just past it.
    ///
    /// Fails with `EndOfContainer` once the next chunk's offset reaches or
    /// passes the container's end (the offset is advanced all the same, and
    /// the parser is then spent), with `Truncated` when the next chunk
    /// header runs past the end of the stream, and with `ChunkOverflow` when
    /// the next chunk's declared size overflows the bytes left in the
    /// container or the offset arithmetic itself overflows.
    pub fn move_to_next_chunk(&mut self) -> (r: Result<(), Fault>)
        requires
            old(self).wf(),
        ensures
            ({
                let d = old(self).stream.data@;
                let off = old(self).container_offset as int;
                let next = chunk_start(d, off, old(self).index@ + 1);
                let fits = next <= usize::MAX;
                let past_end = next - off >= old(self).container_size;
                let readable = next + 8 <= d.len();
                let in_container = 8 + chunk_at(d, next).size <= old(self).container_size - (next
                    - off);
                &&& final(self).stream.data == old(self).stream.data
                &&& final(self).container_offset == old(self).container_offset
                &&& final(self).container_size == old(self).container_size
                &&& final(self).riff_id == old(self).riff_id
                &&& final(self).riff_type == old(self).riff_type
                &&& (r is Ok <==> (fits && !past_end && readable && in_container))
                &&& !fits ==> r == Err::<(), Fault>(Fault::ChunkOverflow) && *final(self) == (
                RIFFParser {
                    current_chunk_offset: final(self).current_chunk_offset,
                    ..*old(self)
                })
                &&& (fits && past_end) ==> {
                    &&& r == Err::<(), Fault>(Fault::EndOfContainer)
                    &&& final(self).current_chunk_offset == next
                    &&& *final(self) == (RIFFParser {
                        current_chunk_offset: final(self).current_chunk_offset,
                        ..*old(self)
                    })
                }
                &&& (fits && !past_end && !readable) ==> r == Err::<(), Fault>(Fault::Truncated)
                &&& (fits && !past_end && readable && !in_container) ==> r == Err::<(), Fault>(
                    Fault::ChunkOverflow,
                )
                &&& r is Ok ==> {
                    &&& final(self).wf()
                    &&& final(self).index@ == old(self).index@ + 1
                    &&& final(self).current_chunk_offset == next
                    &&& final(self).current_chunk == chunk_at(d, next)
                    &&& final(self).bytes_remaining == final(self).current_chunk.size
                    &&& final(self).stream.pos == next + 8
                }
            }),
    {
        let size = self.current_chunk.size as usize;
        if self.current_chunk_offset > usize::MAX - 8 || self.current_chunk_offset + 8 > usize::MAX
            - size {
            return Err(Fault::ChunkOverflow);
        }
        proof {
            lemma_chunk_order(
                old(self).stream.data@,
                old(self).container_offset as int,
                0,
                old(self).index@,
            );
        }
        self.current_chunk_offset = self.current_chunk_offset + 8 + size;

        // Are we at the end of the container?
        if self.current_chunk_offset - self.container_offset >= self.container_size {
            return Err(Fault::EndOfContainer);
        }

        match self.stream.seek_from_beginning(self.current_chunk_offset) {
            Ok(_) => (),
            Err(_) => return Err(Fault::Truncated),
        }

        let chunk_fourcc = match self.stream.read_fourcc() {
            Ok(v) => v,
            Err(_) => return Err(Fault::Truncated),
        };
        let chunk_size = match self.stream.read_u32_le() {
            Ok(v) => v,
            Err(_) => return Err(Fault::Truncated),
        };
        self.current_chunk = RIFFChunk { fourcc: chunk_fourcc, size: chunk_size };
        self.bytes_remaining = chunk_size as usize;

        let max_chunk_size = self.container_size - (self.current_chunk_offset
            - self.container_offset);

        if max_chunk_size < 8 || max_chunk_size - 8 < size_of_chunk(chunk_size) {
            return Err(Fault::ChunkOverflow);
        }

        self.index = Ghost(self.index@ + 1);

        Ok(())
    }

    /// Places the stream's cursor `offset` bytes into the current chunk's
    /// data and resets the consumption counter accordingly; fails with
    /// `OutOfRange` when `offset` exceeds the chunk's size, changing
    /// nothing.
    pub fn move_to_chunk_offset(&mut self, offset: usize) -> (r: Result<(), Fault>)
        requires
            old(self).wf(),
        ensures
            final(self).wf(),
            (offset > old(self).current_chunk.size || old(self).current_chunk_offset + 8 + offset
                > usize::MAX) ==> r == Err::<(), Fault>(Fault::OutOfRange) && *final(self) == *old(
                self,
            ),
            (offset <= old(self).current_chunk.size && old(self).current_chunk_offset + 8 + offset
                <= usize::MAX) ==> {
                &&& r is Ok
                &&& final(self).stream.data == old(self).stream.data
                &&& final(self).stream.pos == old(self).current_chunk_offset + 8 + offset
                &&& final(self).bytes_remaining == old(self).current_chunk.size - offset
                &&& *final(self) == (RIFFParser {
                    stream: final(self).stream,
                    bytes_remaining: final(self).bytes_remaining,
                    ..*old(self)
                })
            },
    {
        if offset > self.current_chunk.size as usize {
            return Err(Fault::OutOfRange);
        }

        let total = self.stream.len();
        assert(self.current_chunk_offset + 8 <= total);
        let target = self.current_chunk_offset + 8;
        if offset > usize::MAX - target {
            // The chunk's data cannot extend past the address space.
            return Err(Fault::OutOfRange);
        }
        match self.stream.seek_from_beginning(target + offset) {
            Ok(_) => (),
            Err(_) => return Err(Fault::OutOfRange),
        }
        self.bytes_remaining = (self.current_chunk.size as usize) - offset;

        Ok(())
    }

    /// Places the stream's cursor at the start of the current chunk's data
    /// and resets the consumption counter.
    pub fn move_to_start_of_chunk(&mut self) -> (r: Result<(), Fault>)
        requires
            old(self).wf(),
        ensures
            final(self).wf(),
            r is Ok,
            final(self).stream.data == old(self).stream.data,
            final(self).stream.pos == old(self).current_chunk_offset + 8,
            final(self).bytes_remaining == old(self).current_chunk.size,
            *final(self) == (RIFFParser {
                stream: final(self).stream,
                bytes_remaining: final(self).bytes_remaining,
                ..*old(self)
            }),
    {
        let total = self.stream.len();
        assert(self.current_chunk_offset + 8 <= total);
        self.move_to_chunk_offset(0)
    }

    /// Reads `length` bytes at the stream's cursor and counts them against
    /// the current chunk's remaining data. The cursor is wherever the last
    /// positioning operation left it; this does not advance to the next
    /// chunk.
    ///
    /// Fails with `OutOfRange` when `length` exceeds the unconsumed data,
    /// changing nothing, and with `Truncated` when the read runs past the
    /// end of the stream, leaving the consumption counter unchanged.
    pub fn read_data_from_chunk(&mut self, length: usize) -> (r: Result<Vec<u8>, Fault>)
        requires
            old(self).wf(),
        ensures
            final(self).wf(),
            final(self).stream.data == old(self).stream.data,
            length > old(self).bytes_remaining ==> r == Err::<Vec<u8>, Fault>(Fault::OutOfRange)
                && *final(self) == *old(self),
            length <= old(self).bytes_remaining && old(self).stream.pos + length <= old(
                self,
            ).stream.data@.len() ==> {
                &&& r matches Ok(bytes)
                    && bytes@ == old(self).stream.data@.subrange(
                    old(self).stream.pos as int,
                    old(self).stream.pos + length,
                )
                &&& final(self).stream.pos == old(self).stream.pos + length
                &&& final(self).bytes_remaining == old(self).bytes_remaining - length
                &&& *final(self) == (RIFFParser {
                    stream: final(self).stream,
                    bytes_remaining: final(self).bytes_remaining,
                    ..*old(self)
                })
            },
            length <= old(self).bytes_remaining && old(self).stream.pos + length > old(
                self,
            ).stream.data@.len() ==> {
                &&& r == Err::<Vec<u8>, Fault>(Fault::Truncated)
                &&& final(self).bytes_remaining == old(self).bytes_remaining
            },
    {
        if length > self.bytes_remaining {
            return Err(Fault::OutOfRange);
        }

        let bytes = match self.stream.read(length) {
            Ok(b) => b,
            Err(_) => return Err(Fault::Truncated),
        };

        self.bytes_remaining = self.bytes_remaining - length;

        Ok(bytes)
    }
}

/// The size a chunk declares, as the unsigned machine word the cursor
/// arithmetic uses.
fn size_of_chunk(size: u32) -> (r: usize)
    ensures
        r == size,
{
    size as usize
}

} // verus!
