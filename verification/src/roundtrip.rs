//! The round trip between the sink and the source: the bytes a sink
//! finalizes form a container that the header walk accepts, whose format
//! block carries the same fields back, and whose data chunk holds exactly
//! the sample bytes that were written.

use vstd::prelude::*;

use crate::bytecodec::{be32_at, le16_at, le32_at, be32_bytes, le16_bytes, le32_bytes,
    lemma_bytes_roundtrip};
use crate::fault::Fault;
use crate::riff::{chunk_at, chunk_start};
use crate::sink::wav_header_bytes;
use crate::types::{AudioFormat, AudioSubtype, Endian, PCMFormat, SampleType, StreamType};
use crate::wav::{
    FOURCC_DATA, FOURCC_FMT, FOURCC_RIFF, FOURCC_WAVE, Format, WAVE_FORMAT_PCM, fmt_block_ok,
    fmt_matches, header_path_ok, is_data_chunk, is_fmt_chunk, spec_wave_format, chunk_reachable,
};
use crate::wavsource::{format_from, stream_type_of, validate_spec};

verus! {

/// Writing block-aligned PCM through a sink and re-reading the bytes gives
/// everything back: the finalized container's header walk succeeds after
/// exactly one step — the format block first, then the data chunk — the
/// format block validates and denotes the same signed little-endian PCM
/// stream type it was written from, and the data chunk holds exactly the
/// bytes that were written, starting at offset forty-six.
#[verifier::rlimit(100)]
pub proof fn lemma_wav_roundtrip(channels: u16, rate: u32, block: u16, bits: u16, data: Seq<u8>)
    requires
        channels == 1 || channels == 2,
        bits == 8 || bits == 16,
        block == channels * (bits / 8),
        rate * block <= u32::MAX,
        data.len() <= u32::MAX - 46,
        46 + data.len() <= usize::MAX,
    ensures
        ({
            let byte_rate = (rate * block) as u32;
            let file = wav_header_bytes(
                (38 + data.len()) as u32,
                WAVE_FORMAT_PCM,
                channels,
                rate,
                byte_rate,
                block,
                bits,
                data.len() as u32,
            ) + data;
            let csize = le32_at(file, 4) + 8;
            &&& file.len() == 46 + data.len()
            &&& be32_at(file, 0) == FOURCC_RIFF
            &&& le32_at(file, 4) == 38 + data.len()
            &&& csize == 46 + data.len()
            &&& be32_at(file, 8) == FOURCC_WAVE
            &&& header_path_ok(file, 0, csize, 0, 1, Format::Unset)
            &&& is_fmt_chunk(file, 0, 0)
            &&& chunk_start(file, 0, 1) == 38
            &&& is_data_chunk(file, 0, 1)
            &&& chunk_at(file, 38).size == data.len()
            &&& file.subrange(46, file.len() as int) == data
            &&& forall|fv: Format|
                #[trigger] format_from(file, 1, fv) ==> {
                    &&& validate_spec(fv) is None
                    &&& stream_type_of(fv) == Result::<StreamType, Fault>::Ok(
                        StreamType::AudioStream(
                            AudioSubtype::PCMStream(
                                PCMFormat {
                                    sample_type: SampleType::Signed(bits as u32),
                                    endian: Endian::LittleEndian,
                                },
                            ),
                            AudioFormat { sample_rate: rate, channels: channels as u32 },
                        ),
                    )
                }
        }),
{
    let byte_rate = (rate * block) as u32;
    let size32 = (38 + data.len()) as u32;
    let data32 = data.len() as u32;
    let header = wav_header_bytes(
        size32,
        WAVE_FORMAT_PCM,
        channels,
        rate,
        byte_rate,
        block,
        bits,
        data32,
    );
    let file = header + data;
    assert(header.len() == 46);
    assert(file.len() == 46 + data.len());
    assert(forall|i: int| 0 <= i < 46 ==> file[i] == header[i]);

    // Each field of the header reads back as the value written.
    lemma_bytes_roundtrip(0, FOURCC_RIFF);
    lemma_bytes_roundtrip(0, FOURCC_WAVE);
    lemma_bytes_roundtrip(0, FOURCC_FMT);
    lemma_bytes_roundtrip(0, FOURCC_DATA);
    lemma_bytes_roundtrip(0, size32);
    lemma_bytes_roundtrip(0, 18);
    lemma_bytes_roundtrip(WAVE_FORMAT_PCM, 0);
    lemma_bytes_roundtrip(channels, rate);
    lemma_bytes_roundtrip(block, byte_rate);
    lemma_bytes_roundtrip(bits, data32);
    lemma_bytes_roundtrip(0, 0);

    assert(be32_at(file, 0) == FOURCC_RIFF) by {
        assert(file.subrange(0, 4) =~= be32_bytes(FOURCC_RIFF));
    }
    assert(le32_at(file, 4) == size32) by {
        assert(file.subrange(4, 8) =~= le32_bytes(size32));
    }
    assert(be32_at(file, 8) == FOURCC_WAVE) by {
        assert(file.subrange(8, 12) =~= be32_bytes(FOURCC_WAVE));
    }
    assert(be32_at(file, 12) == FOURCC_FMT) by {
        assert(file.subrange(12, 16) =~= be32_bytes(FOURCC_FMT));
    }
    assert(le32_at(file, 16) == 18) by {
        assert(file.subrange(16, 20) =~= le32_bytes(18));
    }
    assert(le16_at(file, 20) == WAVE_FORMAT_PCM) by {
        assert(file.subrange(20, 22) =~= le16_bytes(WAVE_FORMAT_PCM));
    }
    assert(le16_at(file, 22) == channels) by {
        assert(file.subrange(22, 24) =~= le16_bytes(channels));
    }
    assert(le32_at(file, 24) == rate) by {
        assert(file.subrange(24, 28) =~= le32_bytes(rate));
    }
    assert(le32_at(file, 28) == byte_rate) by {
        assert(file.subrange(28, 32) =~= le32_bytes(byte_rate));
    }
    assert(le16_at(file, 32) == block) by {
        assert(file.subrange(32, 34) =~= le16_bytes(block));
    }
    assert(le16_at(file, 34) == bits) by {
        assert(file.subrange(34, 36) =~= le16_bytes(bits));
    }
    assert(le16_at(file, 36) == 0) by {
        assert(file.subrange(36, 38) =~= le16_bytes(0));
    }
    assert(be32_at(file, 38) == FOURCC_DATA) by {
        assert(file.subrange(38, 42) =~= be32_bytes(FOURCC_DATA));
    }
    assert(le32_at(file, 42) == data32) by {
        assert(file.subrange(42, 46) =~= le32_bytes(data32));
    }

    // The chunk walk: the format block at twelve, the data chunk at
    // thirty-eight.
    let csize = le32_at(file, 4) + 8;
    assert(chunk_start(file, 0, 0) == 12);
    assert(chunk_at(file, 12).fourcc == FOURCC_FMT);
    assert(chunk_at(file, 12).size == 18);
    assert(chunk_start(file, 0, 1) == 38);
    assert(chunk_at(file, 38).fourcc == FOURCC_DATA);
    assert(chunk_at(file, 38).size == data32);
    assert(is_fmt_chunk(file, 0, 0));
    assert(is_data_chunk(file, 0, 1));
    assert(!is_data_chunk(file, 0, 0));

    assert(chunk_reachable(file, 0, csize, 1));

    assert(fmt_block_ok(file, 0, 0));

    assert(header_path_ok(file, 0, csize, 0, 1, Format::Unset)) by {
        reveal(header_path_ok);
        assert(forall|j: nat| 0 <= j < 1 ==> !is_data_chunk(file, 0, j));
        assert(forall|j: nat| 0 < j <= 1 ==> chunk_reachable(file, 0, csize, j));
        assert(forall|j: nat|
            0 <= j < 1 && is_fmt_chunk(file, 0, j) ==> fmt_block_ok(file, 0, j) && (
            Format::Unset is Unset));
    }

    assert(file.subrange(46, file.len() as int) =~= data);

    // Any format the walk can report matches the block at chunk zero, whose
    // fields are the ones written.
    let wf = spec_wave_format(file, 12);
    assert(wf.format_tag == WAVE_FORMAT_PCM);
    assert(wf.channels == channels);
    assert(wf.samples_per_second == rate);
    assert(wf.average_bytes_per_second == byte_rate);
    assert(wf.block_align == block);
    assert(wf.bits_per_sample == bits);

    assert forall|fv: Format| #[trigger] format_from(file, 1, fv) implies {
        &&& validate_spec(fv) is None
        &&& stream_type_of(fv) == Result::<StreamType, Fault>::Ok(
            StreamType::AudioStream(
                AudioSubtype::PCMStream(
                    PCMFormat {
                        sample_type: SampleType::Signed(bits as u32),
                        endian: Endian::LittleEndian,
                    },
                ),
                AudioFormat { sample_rate: rate, channels: channels as u32 },
            ),
        )
    } by {
        assert(is_fmt_chunk(file, 0, 0));
        if exists|j: nat| j < 1 && is_fmt_chunk(file, 0, j) && fmt_matches(fv, file, 0, j) {
            let j = choose|j: nat| j < 1 && is_fmt_chunk(file, 0, j) && fmt_matches(fv, file, 0, j);
            assert(j == 0);
            assert(fmt_matches(fv, file, 0, 0));
            reveal(fmt_matches);
            assert(fv matches Format::Ex(w) && w == wf);
        } else {
            assert(!is_fmt_chunk(file, 0, 0));
        }
    }
}

} // verus!
