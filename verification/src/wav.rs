//! The WAV header reader: walks the chunks of a `"RIFF"`/`"WAVE"` container
//! until it has consumed the `"fmt "` block and stands on the `"data"`
//! chunk, without consuming the sample data itself.

use vstd::prelude::*;

use crate::bytecodec::{ReadCore, be32_at, le16_at, le32_at};
use crate::bytestream::{ByteStream, Read};
use crate::fault::Fault;
use crate::riff::{RIFFParser, chunk_at, chunk_start};

verus! {

/// Format tag for integer PCM samples.
pub const WAVE_FORMAT_PCM: u16 = 0x0001;

/// Format tag for IEEE floating-point samples.
pub const WAVE_FORMAT_IEEE_FLOAT: u16 = 0x0003;

/// Format tag for A-law companded samples.
pub const WAVE_FORMAT_ALAW: u16 = 0x0006;

/// Format tag for mu-law companded samples.
pub const WAVE_FORMAT_MULAW: u16 = 0x0007;

/// Format tag announcing the extensible format block.
pub const WAVE_FORMAT_EXTENSIBLE: u16 = 0xFFFE;

/// The `"RIFF"` identifier in big-endian form.
pub const FOURCC_RIFF: u32 = 0x52494646;

/// The `"WAVE"` identifier in big-endian form.
pub const FOURCC_WAVE: u32 = 0x57415645;

/// The `"fmt "` identifier in big-endian form.
pub const FOURCC_FMT: u32 = 0x666D7420;

/// The `"data"` identifier in big-endian form.
pub const FOURCC_DATA: u32 = 0x64617461;

/// The fields of a format block, as laid out in the file.
#[derive(Clone, Copy, Debug, PartialEq, Eq, Structural)]
pub struct WaveFormat {
    pub format_tag: u16,
    pub channels: u16,
    pub samples_per_second: u32,
    pub average_bytes_per_second: u32,
    pub block_align: u16,
    pub bits_per_sample: u16,
    pub size: u16,
}

/// The trailing fields of an extensible format block. `sub_format` holds the
/// sixteen bytes of the sub-format identifier, whose first two bytes carry
/// the real format tag in little-endian order.
#[derive(Clone, Debug)]
pub struct WaveFormatExtensible {
    pub samples: u16,
    pub channel_mask: u32,
    pub sub_format: Vec<u8>,
}

/// What the header reader has learned about the stream's format so far.
#[derive(Clone, Debug)]
pub enum Format {
    Unset,
    Ex(WaveFormat),
    Extensible(WaveFormat, WaveFormatExtensible),
}

/// Whether chunk `k` is the sample-data chunk.
pub open spec fn is_data_chunk(d: Seq<u8>, off: int, k: nat) -> bool {
    chunk_at(d, chunk_start(d, off, k)).fourcc == FOURCC_DATA
}

/// Whether chunk `k` is a format block.
pub open spec fn is_fmt_chunk(d: Seq<u8>, off: int, k: nat) -> bool {
    chunk_at(d, chunk_start(d, off, k)).fourcc == FOURCC_FMT
}

/// Whether `move_to_next_chunk` can step onto chunk `k` of a container of
/// `csize` bytes: the offset arithmetic stays in range, the chunk starts
/// before the container's end, its header lies within the stream, and its
/// declared size fits the bytes the container still has.
pub open spec fn chunk_reachable(d: Seq<u8>, off: int, csize: int, k: nat) -> bool {
    let start = chunk_start(d, off, k);
    &&& start <= usize::MAX
    &&& start - off < csize
    &&& start + 8 <= d.len()
    &&& 8 + chunk_at(d, start).size <= csize - (start - off)
}

/// How many bytes a format block whose chunk header sits at `o` makes the
/// reader consume: sixteen fixed bytes, the optional two-byte size field,
/// and the twenty-two extensible bytes when the tag asks for them.
pub open spec fn fmt_bytes_needed(d: Seq<u8>, o: int) -> int {
    let tag = le16_at(d, o + 8);
    let size = le32_at(d, o + 4);
    if tag == WAVE_FORMAT_EXTENSIBLE {
        40
    } else if size > 17 {
        18
    } else {
        16
    }
}

/// Whether the format block whose chunk header sits at `o` declares a size
/// large enough for its tag: forty bytes for the extensible tag, sixteen
/// otherwise.
pub open spec fn fmt_size_ok(d: Seq<u8>, o: int) -> bool {
    let tag = le16_at(d, o + 8);
    let size = le32_at(d, o + 4);
    size >= (if tag == WAVE_FORMAT_EXTENSIBLE {
        40int
    } else {
        16int
    })
}

/// Whether the format block at chunk `k` can be read whole: its size passes
/// and every byte it makes the reader consume lies within the stream.
pub open spec fn fmt_block_ok(d: Seq<u8>, off: int, k: nat) -> bool {
    let o = chunk_start(d, off, k);
    &&& o + 10 <= d.len()
    &&& fmt_size_ok(d, o)
    &&& o + 8 + fmt_bytes_needed(d, o) <= d.len()
}

/// The fixed fields of the format block whose chunk header sits at `o`.
pub open spec fn spec_wave_format(d: Seq<u8>, o: int) -> WaveFormat {
    WaveFormat {
        format_tag: le16_at(d, o + 8),
        channels: le16_at(d, o + 10),
        samples_per_second: le32_at(d, o + 12),
        average_bytes_per_second: le32_at(d, o + 16),
        block_align: le16_at(d, o + 20),
        bits_per_sample: le16_at(d, o + 22),
        size: if le32_at(d, o + 4) > 17 {
            le16_at(d, o + 24)
        } else {
            0
        },
    }
}

/// The extensible fields of the format block whose chunk header sits at `o`.
pub open spec fn spec_wave_format_samples(d: Seq<u8>, o: int) -> u16 {
    le16_at(d, o + 26)
}

/// The channel mask of the extensible format block at `o`.
pub open spec fn spec_wave_format_channel_mask(d: Seq<u8>, o: int) -> u32 {
    le32_at(d, o + 28)
}

/// The sixteen sub-format bytes of the extensible format block at `o`.
pub open spec fn spec_wave_format_sub_format(d: Seq<u8>, o: int) -> Seq<u8> {
    d.subrange(o + 32, o + 48)
}

/// What `format` should hold after the block at chunk `k` is consumed.
#[verifier::opaque]
pub open spec fn fmt_matches(format: Format, d: Seq<u8>, off: int, k: nat) -> bool {
    let o = chunk_start(d, off, k);
    let wf = spec_wave_format(d, o);
    if wf.format_tag == WAVE_FORMAT_EXTENSIBLE {
        format matches Format::Extensible(w, ex) && w == wf && ex.samples
            == spec_wave_format_samples(d, o) && ex.channel_mask == spec_wave_format_channel_mask(
            d,
            o,
        ) && ex.sub_format@ == spec_wave_format_sub_format(d, o)
    } else {
        format matches Format::Ex(w) && w == wf
    }
}

/// The path a successful header scan takes, starting on chunk `i0` with the
/// format knowledge `f0`: chunk `big_k` is the data chunk, no earlier chunk
/// from `i0` on is, every chunk stepped onto is reachable, and at most one
/// chunk on the way is a format block, readable whole, met before any format
/// was known.
#[verifier::opaque]
pub open spec fn header_path_ok(
    d: Seq<u8>,
    off: int,
    csize: int,
    i0: nat,
    big_k: nat,
    f0: Format,
) -> bool {
    &&& i0 <= big_k
    &&& is_data_chunk(d, off, big_k)
    &&& forall|j: nat| i0 <= j < big_k ==> !is_data_chunk(d, off, j)
    &&& forall|j: nat| i0 < j <= big_k ==> chunk_reachable(d, off, csize, j)
    &&& forall|j1: nat, j2: nat|
        i0 <= j1 < big_k && i0 <= j2 < big_k && is_fmt_chunk(d, off, j1) && is_fmt_chunk(
            d,
            off,
            j2,
        ) ==> j1 == j2
    &&& forall|j: nat|
        i0 <= j < big_k && is_fmt_chunk(d, off, j) ==> fmt_block_ok(d, off, j) && (f0 is Unset)
}

/// When the walk stands on chunk `jx`, has passed no data chunk, and cannot
/// step onto chunk `jx + 1`, no successful header path exists at all.
proof fn lemma_no_path_when_blocked(
    d: Seq<u8>,
    off: int,
    csize: int,
    i0: nat,
    jx: nat,
    f0: Format,
)
    requires
        i0 <= jx,
        forall|j: nat| i0 <= j < jx ==> !is_data_chunk(d, off, j),
        !is_data_chunk(d, off, jx),
        !chunk_reachable(d, off, csize, (jx + 1) as nat),
    ensures
        !(exists|k: nat| header_path_ok(d, off, csize, i0, k, f0)),
{
    reveal(header_path_ok);
    if exists|k: nat| header_path_ok(d, off, csize, i0, k, f0) {
        let k = choose|k: nat| header_path_ok(d, off, csize, i0, k, f0);
        assert(is_data_chunk(d, off, k));
        assert(k > jx);
        assert(chunk_reachable(d, off, csize, (jx + 1) as nat));
    }
}

/// When the walk stands on a format chunk `jx`, has passed no data chunk,
/// and the block cannot be consumed — a format was already known, or the
/// block is undersized or truncated — no successful header path exists.
proof fn lemma_no_path_bad_fmt(d: Seq<u8>, off: int, csize: int, i0: nat, jx: nat, f0: Format)
    requires
        i0 <= jx,
        forall|j: nat| i0 <= j < jx ==> !is_data_chunk(d, off, j),
        is_fmt_chunk(d, off, jx),
        !((f0 is Unset) && fmt_block_ok(d, off, jx) && (forall|j: nat|
            i0 <= j < jx ==> !is_fmt_chunk(d, off, j))),
    ensures
        !(exists|k: nat| header_path_ok(d, off, csize, i0, k, f0)),
{
    reveal(header_path_ok);
    if exists|k: nat| header_path_ok(d, off, csize, i0, k, f0) {
        let k = choose|k: nat| header_path_ok(d, off, csize, i0, k, f0);
        assert(is_data_chunk(d, off, k));
        assert(!is_data_chunk(d, off, jx));
        assert(k > jx);
        assert(fmt_block_ok(d, off, jx) && (f0 is Unset));
        if !(forall|j: nat| i0 <= j < jx ==> !is_fmt_chunk(d, off, j)) {
            let j2 = choose|j: nat| i0 <= j < jx && is_fmt_chunk(d, off, j);
            assert(is_fmt_chunk(d, off, j2) && is_fmt_chunk(d, off, jx));
            assert(j2 == jx);
        }
    }
}

/// A WAV header reader over a RIFF container cursor that it owns.
pub struct WAVParser {
    pub riff: RIFFParser,
    pub format: Format,
    pub duration: u64,
}

impl WAVParser {
    /// Opens the `"RIFF"` container at the start of `stream` and checks that
    /// it is a `"WAVE"` container, leaving the cursor on the first chunk.
    ///
    /// Fails as the container cursor does on a malformed or truncated
    /// header, and with `WrongContainerType` when the container's list type
    /// is not `"WAVE"`; the stream is discarded on failure.
    pub fn new(stream: ByteStream) -> (r: Result<WAVParser, Fault>)
        ensures
            ({
                let d = stream.data@;
                let riff_ok = 20 <= d.len() && be32_at(d, 0) == FOURCC_RIFF && le32_at(d, 4) + 8
                    <= usize::MAX;
                &&& r is Ok <==> (riff_ok && be32_at(d, 8) == FOURCC_WAVE)
                &&& (riff_ok && be32_at(d, 8) != FOURCC_WAVE) ==> r == Err::<WAVParser, Fault>(
                    Fault::WrongContainerType,
                )
                &&& match r {
                    Ok(p) => {
                        &&& p.riff.wf()
                        &&& p.riff.stream.data == stream.data
                        &&& p.riff.stream.pos == 20
                        &&& p.riff.riff_id == FOURCC_RIFF
                        &&& p.riff.riff_type == FOURCC_WAVE
                        &&& p.riff.container_offset == 0
                        &&& p.riff.container_size == le32_at(d, 4) + 8
                        &&& p.riff.index@ == 0
                        &&& p.riff.current_chunk_offset == 12
                        &&& p.riff.current_chunk == chunk_at(d, 12)
                        &&& p.riff.bytes_remaining == p.riff.current_chunk.size
                        &&& p.format is Unset
                        &&& p.duration == 0
                    },
                    Err(e) => true,
                }
            }),
    {
        let riff = match RIFFParser::new(stream, FOURCC_RIFF, 0) {
            Ok(riff) => riff,
            Err(e) => return Err(e),
        };

        if riff.riff_type != FOURCC_WAVE {
            return Err(Fault::WrongContainerType);
        }

        Ok(WAVParser { riff, format: Format::Unset, duration: 0 })
    }

    /// Consumes the format block of the chunk the cursor stands on, which
    /// must be a `"fmt "` chunk whose header the stream's cursor sits just
    /// past, and adjusts the chunk's consumption counter by the block's full
    /// declared size.
    ///
    /// Fails with `Precondition` when a format block was already parsed,
    /// with `UnsupportedFormat` when the chunk is smaller than its tag
    /// demands, and with `Truncated` when the block runs past the end of the
    /// stream.
    fn read_format_block(&mut self) -> (r: Result<(), Fault>)
        requires
            old(self).riff.wf(),
            old(self).riff.stream.pos == old(self).riff.current_chunk_offset + 8,
            old(self).riff.bytes_remaining == old(self).riff.current_chunk.size,
        ensures
            ({
                let d = old(self).riff.stream.data@;
                let off = old(self).riff.container_offset as int;
                let o = old(self).riff.current_chunk_offset as int;
                let k = old(self).riff.index@;
                let was_unset = old(self).format is Unset;
                &&& final(self).riff.stream.data == old(self).riff.stream.data
                &&& final(self).duration == old(self).duration
                &&& final(self).riff.container_offset == old(self).riff.container_offset
                &&& final(self).riff.container_size == old(self).riff.container_size
                &&& final(self).riff.riff_id == old(self).riff.riff_id
                &&& final(self).riff.riff_type == old(self).riff.riff_type
                &&& final(self).riff.index@ == old(self).riff.index@
                &&& final(self).riff.current_chunk_offset == old(self).riff.current_chunk_offset
                &&& final(self).riff.current_chunk == old(self).riff.current_chunk
                &&& (r is Ok <==> (was_unset && o + 10 <= d.len() && fmt_size_ok(d, o) && o + 8
                    + fmt_bytes_needed(d, o) <= d.len()))
                &&& !was_unset ==> r == Err::<(), Fault>(Fault::Precondition) && *final(self)
                    == *old(self)
                &&& (was_unset && o + 10 > d.len()) ==> r == Err::<(), Fault>(Fault::Truncated)
                &&& (was_unset && o + 10 <= d.len() && !fmt_size_ok(d, o)) ==> r == Err::<
                    (),
                    Fault,
                >(Fault::UnsupportedFormat)
                &&& (was_unset && o + 10 <= d.len() && fmt_size_ok(d, o) && o + 8
                    + fmt_bytes_needed(d, o) > d.len()) ==> r == Err::<(), Fault>(Fault::Truncated)
                &&& r is Ok ==> {
                    &&& final(self).riff.wf()
                    &&& !(final(self).format is Unset)
                    &&& fmt_matches(final(self).format, d, off, k)
                    &&& final(self).riff.bytes_remaining == 0
                    &&& final(self).riff.index@ == k
                    &&& final(self).riff.current_chunk_offset == o
                    &&& final(self).riff.current_chunk == old(self).riff.current_chunk
                    &&& final(self).riff.container_offset == old(self).riff.container_offset
                    &&& final(self).riff.container_size == old(self).riff.container_size
                    &&& final(self).riff.riff_id == old(self).riff.riff_id
                    &&& final(self).riff.riff_type == old(self).riff.riff_type
                }
            }),
    {
        proof {
            reveal(fmt_matches);
        }
        match self.format {
            Format::Unset => (),
            _ => {
                // The format block may only be parsed once.
                return Err(Fault::Precondition);
            },
        }

        let format_tag = match self.riff.stream.read_u16_le() {
            Ok(v) => v,
            Err(_) => return Err(Fault::Truncated),
        };

        let min_format_size: u32 = if format_tag == WAVE_FORMAT_EXTENSIBLE {
            40
        } else {
            16
        };

        // Some files omit the trailing size field of the format block; for
        // plain PCM it is always zero when present.
        let format_size = self.riff.current_chunk.size;

        if format_size < min_format_size {
            return Err(Fault::UnsupportedFormat);
        }

        let read_size = format_size > 17;

        let channels = match self.riff.stream.read_u16_le() {
            Ok(v) => v,
            Err(_) => return Err(Fault::Truncated),
        };
        let samples_per_second = match self.riff.stream.read_u32_le() {
            Ok(v) => v,
            Err(_) => return Err(Fault::Truncated),
        };
        let average_bytes_per_second = match self.riff.stream.read_u32_le() {
            Ok(v) => v,
            Err(_) => return Err(Fault::Truncated),
        };
        let block_align = match self.riff.stream.read_u16_le() {
            Ok(v) => v,
            Err(_) => return Err(Fault::Truncated),
        };
        let bits_per_sample = match self.riff.stream.read_u16_le() {
            Ok(v) => v,
            Err(_) => return Err(Fault::Truncated),
        };
        let size_field: u16 = if read_size {
            match self.riff.stream.read_u16_le() {
                Ok(v) => v,
                Err(_) => return Err(Fault::Truncated),
            }
        } else {
            0
        };

        let wave_format_ex = WaveFormat {
            format_tag,
            channels,
            samples_per_second,
            average_bytes_per_second,
            block_align,
            bits_per_sample,
            size: size_field,
        };

        if format_tag == WAVE_FORMAT_EXTENSIBLE {
            let samples = match self.riff.stream.read_u16_le() {
                Ok(v) => v,
                Err(_) => return Err(Fault::Truncated),
            };
            let channel_mask = match self.riff.stream.read_u32_le() {
                Ok(v) => v,
                Err(_) => return Err(Fault::Truncated),
            };
            let sub_format = match self.riff.stream.read(16) {
                Ok(v) => v,
                Err(_) => return Err(Fault::Truncated),
            };

            let wave_format_extensible = WaveFormatExtensible { samples, channel_mask, sub_format };

            self.format = Format::Extensible(wave_format_ex, wave_format_extensible);
        } else {
            self.format = Format::Ex(wave_format_ex);
        }

        self.riff.bytes_remaining = self.riff.bytes_remaining - (format_size as usize);

        Ok(())
    }

    /// Walks the container's chunks from where the cursor stands until it
    /// reaches the `"data"` chunk, consuming a `"fmt "` block on the way,
    /// and stops on the data chunk without consuming it; the stream's cursor
    /// is left at the start of the data chunk's data.
    ///
    /// Succeeds exactly when such a path exists: a data chunk lies ahead,
    /// every chunk before it can be stepped onto, and at most one of them is
    /// a format block, readable whole and not preceded by an already-parsed
    /// format. Fails as `move_to_next_chunk` does when the walk runs out of
    /// the container and as `read_format_block` does on a bad format block.
    #[verifier::rlimit(100)]
    pub fn parse_wave_header(&mut self) -> (r: Result<(), Fault>)
        requires
            old(self).riff.wf(),
            old(self).riff.stream.pos == old(self).riff.current_chunk_offset + 8,
            old(self).riff.bytes_remaining == old(self).riff.current_chunk.size,
        ensures
            ({
                let d = old(self).riff.stream.data@;
                let off = old(self).riff.container_offset as int;
                let csize = old(self).riff.container_size as int;
                let i0 = old(self).riff.index@;
                let f0 = old(self).format;
                &&& final(self).riff.stream.data == old(self).riff.stream.data
                &&& final(self).duration == old(self).duration
                &&& ((exists|k: nat| header_path_ok(d, off, csize, i0, k, f0)) ==> r is Ok)
                &&& r is Ok ==> {
                    let last = final(self).riff.index@;
                    &&& final(self).riff.wf()
                    &&& is_data_chunk(d, off, last)
                    &&& final(self).riff.container_offset == old(self).riff.container_offset
                    &&& final(self).riff.container_size == old(self).riff.container_size
                    &&& final(self).riff.riff_id == old(self).riff.riff_id
                    &&& final(self).riff.riff_type == old(self).riff.riff_type
                    &&& header_path_ok(d, off, csize, i0, last, f0)
                    &&& final(self).riff.current_chunk_offset == chunk_start(d, off, last)
                    &&& final(self).riff.current_chunk == chunk_at(d, chunk_start(d, off, last))
                    &&& final(self).riff.bytes_remaining == final(self).riff.current_chunk.size
                    &&& final(self).riff.stream.pos == chunk_start(d, off, last) + 8
                    &&& (forall|j: nat|
                        i0 <= j < last && is_fmt_chunk(d, off, j) ==> fmt_matches(
                            final(self).format,
                            d,
                            off,
                            j,
                        ))
                    &&& ((forall|j: nat| i0 <= j < last ==> !is_fmt_chunk(d, off, j))
                        ==> final(self).format == f0)
                }
            }),
    {
        let ghost d = self.riff.stream.data@;
        let ghost off = self.riff.container_offset as int;
        let ghost csize = self.riff.container_size as int;
        let ghost i0 = self.riff.index@;
        let ghost f0 = self.format;
        let ghost mut fmt_at: Option<nat> = Option::None;

        loop
            invariant
                d == old(self).riff.stream.data@,
                off == old(self).riff.container_offset as int,
                csize == old(self).riff.container_size as int,
                i0 == old(self).riff.index@,
                f0 == old(self).format,
                self.riff.container_size == old(self).riff.container_size,
                self.riff.container_offset == old(self).riff.container_offset,
                self.riff.riff_id == old(self).riff.riff_id,
                self.riff.riff_type == old(self).riff.riff_type,
                self.riff.stream.data == old(self).riff.stream.data,
                self.duration == old(self).duration,
                scan_inv(self, i0, f0, fmt_at),
            decreases csize - (self.riff.current_chunk_offset - off) + 1,
        {
            let (step, fa) = self.header_step(Ghost(i0), Ghost(f0), Ghost(fmt_at));
            proof {
                fmt_at = fa@;
            }
            match step {
                Ok(true) => {
                    proof {
                        lemma_arrival(self, i0, f0, fmt_at);
                    }
                    return Ok(());
                },
                Ok(false) => (),
                Err(e) => {
                    return Err(e);
                },
            }
        }
    }

    /// One step of the header walk: consumes the format block when the
    /// cursor stands on one, reports arrival when it stands on the data
    /// chunk, and otherwise advances to the next chunk. The ghost value
    /// carries which chunk's format block has been consumed so far.
    fn header_step(
        &mut self,
        Ghost(i0): Ghost<nat>,
        Ghost(f0): Ghost<Format>,
        Ghost(fmt_at): Ghost<Option<nat>>,
    ) -> (r: (Result<bool, Fault>, Ghost<Option<nat>>))
        requires
            scan_inv(old(self), i0, f0, fmt_at),
        ensures
            ({
                let d = old(self).riff.stream.data@;
                let off = old(self).riff.container_offset as int;
                let csize = old(self).riff.container_size as int;
                &&& final(self).riff.stream.data == old(self).riff.stream.data
                &&& final(self).riff.container_offset == old(self).riff.container_offset
                &&& final(self).riff.container_size == old(self).riff.container_size
                &&& final(self).riff.riff_id == old(self).riff.riff_id
                &&& final(self).riff.riff_type == old(self).riff.riff_type
                &&& final(self).duration == old(self).duration
                &&& r.0 == Ok::<bool, Fault>(true) ==> {
                    &&& *final(self) == *old(self)
                    &&& r.1@ == fmt_at
                    &&& is_data_chunk(d, off, final(self).riff.index@)
                    &&& header_path_ok(d, off, csize, i0, final(self).riff.index@, f0)
                    &&& scan_inv(final(self), i0, f0, r.1@)
                }
                &&& r.0 == Ok::<bool, Fault>(false) ==> {
                    &&& scan_inv(final(self), i0, f0, r.1@)
                    &&& final(self).riff.current_chunk_offset > old(self).riff.current_chunk_offset
                    &&& final(self).riff.current_chunk_offset - off < csize
                }
                &&& r.0 is Err ==> !(exists|k: nat| header_path_ok(d, off, csize, i0, k, f0))
            }),
    {
        let ghost d = self.riff.stream.data@;
        let ghost off = self.riff.container_offset as int;
        let ghost csize = self.riff.container_size as int;
        let ghost jx = self.riff.index@;
        let ghost mut fa = fmt_at;
        let fourcc = self.riff.current_chunk.fourcc;

        if fourcc == FOURCC_FMT {
            match self.consume_fmt(Ghost(i0), Ghost(f0), Ghost(fmt_at)) {
                Ok(_) => (),
                Err(e) => {
                    return (Err(e), Ghost(fa));
                },
            }
            proof {
                fa = Option::Some(jx);
            }
        } else if fourcc == FOURCC_DATA {
            proof {
                assert(is_data_chunk(d, off, jx));
                lemma_path_found(d, off, csize, i0, jx, f0, fa);
            }
            return (Ok(true), Ghost(fa));
        }

        proof {
            assert(!is_data_chunk(d, off, jx));
            if fa is None {
                assert(!is_fmt_chunk(d, off, jx));
            }
        }

        match self.advance(Ghost(i0), Ghost(f0), Ghost(fa)) {
            Ok(_) => (Ok(false), Ghost(fa)),
            Err(e) => (Err(e), Ghost(fa)),
        }
    }

    /// Consumes the format block the cursor stands on, leaving the cursor's
    /// position bookkeeping to the next advance.
    #[verifier::rlimit(100)]
    fn consume_fmt(
        &mut self,
        Ghost(i0): Ghost<nat>,
        Ghost(f0): Ghost<Format>,
        Ghost(fmt_at): Ghost<Option<nat>>,
    ) -> (r: Result<(), Fault>)
        requires
            scan_inv(old(self), i0, f0, fmt_at),
            is_fmt_chunk(
                old(self).riff.stream.data@,
                old(self).riff.container_offset as int,
                old(self).riff.index@,
            ),
        ensures
            ({
                let d = old(self).riff.stream.data@;
                let off = old(self).riff.container_offset as int;
                let csize = old(self).riff.container_size as int;
                let jx = old(self).riff.index@;
                &&& final(self).riff.stream.data == old(self).riff.stream.data
                &&& final(self).riff.container_offset == old(self).riff.container_offset
                &&& final(self).riff.container_size == old(self).riff.container_size
                &&& final(self).riff.riff_id == old(self).riff.riff_id
                &&& final(self).riff.riff_type == old(self).riff.riff_type
                &&& final(self).duration == old(self).duration
                &&& final(self).riff.index@ == jx
                &&& final(self).riff.current_chunk_offset == old(self).riff.current_chunk_offset
                &&& r is Ok ==> mid_inv(final(self), i0, f0, Option::Some(jx))
                &&& r is Err ==> !(exists|k: nat| header_path_ok(d, off, csize, i0, k, f0))
            }),
    {
        let ghost d = self.riff.stream.data@;
        let ghost off = self.riff.container_offset as int;
        let ghost csize = self.riff.container_size as int;
        let ghost jx = self.riff.index@;

        match self.read_format_block() {
            Ok(_) => {
                proof {
                    match fmt_at {
                        Option::Some(jf) => {
                            // A second block would have been refused.
                            assert(!(old(self).format is Unset));
                            assert(false);
                        },
                        Option::None => (),
                    }
                }
                Ok(())
            },
            Err(e) => {
                proof {
                    match fmt_at {
                        Option::Some(jf) => {
                            assert(is_fmt_chunk(d, off, jf) && jf < jx);
                        },
                        Option::None => (),
                    }
                    lemma_no_path_bad_fmt(d, off, csize, i0, jx, f0);
                }
                Err(e)
            },
        }
    }

    /// Moves the cursor onto the next chunk, re-establishing the walk's
    /// invariant for it.
    #[verifier::rlimit(100)]
    fn advance(
        &mut self,
        Ghost(i0): Ghost<nat>,
        Ghost(f0): Ghost<Format>,
        Ghost(fmt_at): Ghost<Option<nat>>,
    ) -> (r: Result<(), Fault>)
        requires
            mid_inv(old(self), i0, f0, fmt_at),
            !is_data_chunk(
                old(self).riff.stream.data@,
                old(self).riff.container_offset as int,
                old(self).riff.index@,
            ),
            fmt_at is None ==> !is_fmt_chunk(
                old(self).riff.stream.data@,
                old(self).riff.container_offset as int,
                old(self).riff.index@,
            ),
            (match fmt_at {
                Option::Some(jf) => jf < old(self).riff.index@,
                Option::None => false,
            }) ==> !is_fmt_chunk(
                old(self).riff.stream.data@,
                old(self).riff.container_offset as int,
                old(self).riff.index@,
            ),
        ensures
            ({
                let d = old(self).riff.stream.data@;
                let off = old(self).riff.container_offset as int;
                let csize = old(self).riff.container_size as int;
                &&& final(self).riff.stream.data == old(self).riff.stream.data
                &&& final(self).riff.container_offset == old(self).riff.container_offset
                &&& final(self).riff.container_size == old(self).riff.container_size
                &&& final(self).riff.riff_id == old(self).riff.riff_id
                &&& final(self).riff.riff_type == old(self).riff.riff_type
                &&& final(self).duration == old(self).duration
                &&& r is Ok ==> {
                    &&& scan_inv(final(self), i0, f0, fmt_at)
                    &&& final(self).riff.current_chunk_offset > old(self).riff.current_chunk_offset
                    &&& final(self).riff.current_chunk_offset - off < csize
                }
                &&& r is Err ==> !(exists|k: nat| header_path_ok(d, off, csize, i0, k, f0))
            }),
    {
        let ghost d = self.riff.stream.data@;
        let ghost off = self.riff.container_offset as int;
        let ghost csize = self.riff.container_size as int;
        let ghost jx = self.riff.index@;
        let ghost pre = *self;

        match self.riff.move_to_next_chunk() {
            Ok(_) => {
                proof {
                    assert(chunk_reachable(d, off, csize, self.riff.index@));
                    lemma_advance_inv(pre, *self, i0, f0, fmt_at);
                }
                Ok(())
            },
            Err(e) => {
                proof {
                    lemma_no_path_when_blocked(d, off, csize, i0, jx, f0);
                }
                Err(e)
            },
        }
    }
}

/// Stepping off a chunk that is neither the data chunk nor an unconsumed
/// format block keeps the walk's invariant intact for the chunk arrived on.
#[verifier::rlimit(100)]
proof fn lemma_advance_inv(
    pre: WAVParser,
    post: WAVParser,
    i0: nat,
    f0: Format,
    fmt_at: Option<nat>,
)
    requires
        mid_inv(&pre, i0, f0, fmt_at),
        !is_data_chunk(pre.riff.stream.data@, pre.riff.container_offset as int, pre.riff.index@),
        fmt_at is None ==> !is_fmt_chunk(
            pre.riff.stream.data@,
            pre.riff.container_offset as int,
            pre.riff.index@,
        ),
        (match fmt_at {
            Option::Some(jf) => jf < pre.riff.index@,
            Option::None => false,
        }) ==> !is_fmt_chunk(
            pre.riff.stream.data@,
            pre.riff.container_offset as int,
            pre.riff.index@,
        ),
        post.riff.wf(),
        post.riff.stream.data == pre.riff.stream.data,
        post.format == pre.format,
        post.riff.index@ == pre.riff.index@ + 1,
        post.riff.container_offset == pre.riff.container_offset,
        post.riff.container_size == pre.riff.container_size,
        post.riff.bytes_remaining == post.riff.current_chunk.size,
        post.riff.stream.pos == post.riff.current_chunk_offset + 8,
        chunk_reachable(
            post.riff.stream.data@,
            post.riff.container_offset as int,
            post.riff.container_size as int,
            post.riff.index@,
        ),
    ensures
        scan_inv(&post, i0, f0, fmt_at),
{
    let d = pre.riff.stream.data@;
    let off = pre.riff.container_offset as int;
    let jx = pre.riff.index@;
    assert forall|j: nat| i0 <= j < post.riff.index@ implies !is_data_chunk(d, off, j) by {
        if j < jx {
        } else {
            assert(j == jx);
        }
    }
    match fmt_at {
        Option::None => (),
        Option::Some(jf) => {
            assert forall|j: nat|
                i0 <= j < post.riff.index@ && is_fmt_chunk(d, off, j) implies j == jf by {
                if j < jx {
                } else {
                    assert(j == jx);
                    assert(jf <= jx);
                    if jf < jx {
                        // the chunk stepped off was not a format chunk
                        assert(!is_fmt_chunk(d, off, jx));
                    }
                }
            }
        },
    }
}

/// The walk's invariant between consuming a format block and stepping off
/// its chunk: everything `scan_inv` says except that the stream's cursor is
/// freshly placed, and the consumed block may be the chunk the cursor still
/// stands on.
pub open spec fn mid_inv(p: &WAVParser, i0: nat, f0: Format, fmt_at: Option<nat>) -> bool {
    let d = p.riff.stream.data@;
    let off = p.riff.container_offset as int;
    let csize = p.riff.container_size as int;
    &&& p.riff.wf()
    &&& i0 <= p.riff.index@
    &&& forall|j: nat| i0 <= j < p.riff.index@ ==> !is_data_chunk(d, off, j)
    &&& forall|j: nat| i0 < j <= p.riff.index@ ==> chunk_reachable(d, off, csize, j)
    &&& match fmt_at {
        Option::None => p.format == f0 && (forall|j: nat|
            i0 <= j < p.riff.index@ ==> !is_fmt_chunk(d, off, j)),
        Option::Some(jf) => {
            &&& i0 <= jf <= p.riff.index@
            &&& is_fmt_chunk(d, off, jf)
            &&& fmt_matches(p.format, d, off, jf)
            &&& fmt_block_ok(d, off, jf)
            &&& f0 is Unset
            &&& !(p.format is Unset)
            &&& forall|j: nat| i0 <= j < p.riff.index@ && is_fmt_chunk(d, off, j) ==> j == jf
        },
    }
}

/// The running state of the header walk: the cursor is well formed and
/// freshly placed on its chunk, no data chunk has been passed since chunk
/// `i0`, every chunk stepped onto was reachable, and `fmt_at` tells whether
/// a format block has been consumed: none — the format is still `f0` and no
/// format chunk was passed; one at `jf` — it was the only format chunk
/// passed, read whole while no format was known, and the format now reflects
/// it.
pub open spec fn scan_inv(p: &WAVParser, i0: nat, f0: Format, fmt_at: Option<nat>) -> bool {
    &&& mid_inv(p, i0, f0, fmt_at)
    &&& p.riff.stream.pos == p.riff.current_chunk_offset + 8
    &&& p.riff.bytes_remaining == p.riff.current_chunk.size
    &&& (fmt_at matches Option::Some(jf) ==> jf < p.riff.index@)
}

/// When the walk stands on the data chunk, the path behind it is a
/// successful header path, and the walk's outcome satisfies what
/// `parse_wave_header` promises of the format.
proof fn lemma_path_found(
    d: Seq<u8>,
    off: int,
    csize: int,
    i0: nat,
    jx: nat,
    f0: Format,
    fmt_at: Option<nat>,
)
    requires
        i0 <= jx,
        is_data_chunk(d, off, jx),
        forall|j: nat| i0 <= j < jx ==> !is_data_chunk(d, off, j),
        forall|j: nat| i0 < j <= jx ==> chunk_reachable(d, off, csize, j),
        match fmt_at {
            Option::None => forall|j: nat| i0 <= j < jx ==> !is_fmt_chunk(d, off, j),
            Option::Some(jf) => {
                &&& i0 <= jf < jx
                &&& is_fmt_chunk(d, off, jf)
                &&& fmt_block_ok(d, off, jf)
                &&& f0 is Unset
                &&& forall|j: nat| i0 <= j < jx && is_fmt_chunk(d, off, j) ==> j == jf
            },
        },
    ensures
        header_path_ok(d, off, csize, i0, jx, f0),
{
    reveal(header_path_ok);
}

/// What the walk's final state says about the format, in the words of
/// `parse_wave_header`'s contract.
proof fn lemma_arrival(p: &WAVParser, i0: nat, f0: Format, fmt_at: Option<nat>)
    requires
        scan_inv(p, i0, f0, fmt_at),
    ensures
        forall|j: nat|
            i0 <= j < p.riff.index@ && is_fmt_chunk(
                p.riff.stream.data@,
                p.riff.container_offset as int,
                j,
            ) ==> fmt_matches(p.format, p.riff.stream.data@, p.riff.container_offset as int, j),
        (forall|j: nat|
            i0 <= j < p.riff.index@ ==> !is_fmt_chunk(
                p.riff.stream.data@,
                p.riff.container_offset as int,
                j,
            )) ==> p.format == f0,
{
    let d = p.riff.stream.data@;
    let off = p.riff.container_offset as int;
    match fmt_at {
        Option::Some(jf) => {
            assert(is_fmt_chunk(d, off, jf));
        },
        Option::None => (),
    }
}

} // verus!
