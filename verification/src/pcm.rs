//! The PCM sample-format converter: one input stream, one output stream,
//! a single-sample slot between them. Each buffer of the held sample is
//! decoded into the 64-bit intermediate and re-encoded in the output's
//! sample format — all at the bit level, by the conversions of `floatbits`.

use vstd::prelude::*;

use crate::bytecodec::{le16_at, le32_at, le64_at, le16_bytes, le32_bytes, le64_bytes};
use crate::buffers::MemoryBuffer;
use crate::events::Event;
use crate::fault::Fault;
use crate::floatbits::{
    inter_of_s16, inter_to_s16, narrow_f64, spec_inter_of_s16, spec_inter_to_s16, spec_narrow,
    spec_widen, widen_f32,
};
use crate::samples::Sample;
use crate::types::{AudioSubtype, Endian, SampleType, StreamType};

verus! {

/// What a driver can tell a transform between samples.
#[derive(Clone, Copy, Debug, PartialEq, Eq, Structural)]
pub enum Message {
    Flush,
    Drain,
    StartOfStream(u32),
    EndOfStream(u32),
}

/// Which way a transform stream faces.
#[derive(Clone, Copy, Debug, PartialEq, Eq, Structural)]
pub enum Direction {
    InputStream,
    OutputStream,
}

/// One side of a transform: its identifier, direction, and negotiated
/// stream type, which the driver sets before registering the stream.
#[derive(Clone, Copy, Debug, PartialEq, Eq, Structural)]
pub struct TransformStream {
    pub identifier: u32,
    pub direction: Direction,
    pub stream_type: StreamType,
}

/// How many bytes one sample of the encoding occupies, for the encodings
/// the converter carries.
pub open spec fn inter_sample_size(st: SampleType) -> int {
    match st {
        SampleType::Signed(16u32) => 2,
        SampleType::Float(32u32) => 4,
        SampleType::Float(64u32) => 8,
        _ => 0,
    }
}

/// Whether the converter carries this encoding: 16-bit signed integers,
/// 32-bit floats, or 64-bit floats.
pub open spec fn convertible(st: SampleType) -> bool {
    inter_sample_size(st) != 0
}

/// A buffer decoded into the 64-bit intermediate, one value per sample;
/// trailing bytes short of a whole sample are dropped.
pub open spec fn decode_inter(d: Seq<u8>, st: SampleType) -> Seq<u64> {
    let size = inter_sample_size(st);
    Seq::new(
        (d.len() as int / size) as nat,
        |i: int|
            match st {
                SampleType::Signed(16u32) => spec_inter_of_s16(le16_at(d, 2 * i) as i16),
                SampleType::Float(32u32) => spec_widen(le32_at(d, 4 * i)),
                SampleType::Float(64u32) => le64_at(d, 8 * i),
                _ => 0u64,
            },
    )
}

/// One intermediate value encoded in the output's sample format.
pub open spec fn encode_sample(v: u64, st: SampleType) -> Seq<u8> {
    match st {
        SampleType::Signed(16u32) => le16_bytes(spec_inter_to_s16(v) as u16),
        SampleType::Float(32u32) => le32_bytes(spec_narrow(v)),
        SampleType::Float(64u32) => le64_bytes(v),
        _ => Seq::empty(),
    }
}

/// A run of intermediate values encoded back to bytes, in order.
pub open spec fn encode_inter(vs: Seq<u64>, st: SampleType) -> Seq<u8>
    decreases vs.len(),
{
    if vs.len() == 0 {
        Seq::empty()
    } else {
        encode_sample(vs[0], st) + encode_inter(vs.skip(1), st)
    }
}

/// What one converted buffer holds: the input buffer decoded through the
/// intermediate and re-encoded in the output format.
pub open spec fn converted(d: Seq<u8>, input: SampleType, output: SampleType) -> Seq<u8> {
    encode_inter(decode_inter(d, input), output)
}

/// The bytes of the first `i + 1` values are those of the first `i`
/// followed by value `i`'s.
proof fn lemma_encode_inter_take(vs: Seq<u64>, st: SampleType, i: int)
    requires
        0 <= i < vs.len(),
    ensures
        encode_inter(vs.take(i + 1), st) == encode_inter(vs.take(i), st) + encode_sample(
            vs[i],
            st,
        ),
    decreases i,
{
    if i == 0 {
        reveal_with_fuel(encode_inter, 3);
        assert(vs.take(0) =~= Seq::<u64>::empty());
        assert(vs.take(1).skip(1) =~= Seq::<u64>::empty());
        assert(vs.take(1)[0] == vs[0]);
        assert(vs.take(1).len() == 1);
        assert(encode_inter(vs.take(1), st) =~= encode_sample(vs[0], st) + Seq::<u8>::empty());
        assert(encode_sample(vs[0], st) + Seq::<u8>::empty() =~= encode_sample(vs[0], st));
        assert(encode_inter(vs.take(0), st) + encode_sample(vs[0], st) =~= encode_sample(
            vs[0],
            st,
        ));
    } else {
        lemma_encode_inter_take(vs.skip(1), st, i - 1);
        assert(vs.take(i + 1).skip(1) =~= vs.skip(1).take(i));
        assert(vs.take(i).skip(1) =~= vs.skip(1).take(i - 1));
        assert(vs.take(i + 1)[0] == vs[0]);
        assert(vs.take(i)[0] == vs[0]);
        assert(vs.skip(1)[i - 1] == vs[i]);
        assert(encode_inter(vs.take(i), st) + encode_sample(vs[i], st) =~= encode_sample(vs[0], st)
            + (encode_inter(vs.skip(1).take(i - 1), st) + encode_sample(vs.skip(1)[i - 1], st)));
    }
}

/// Decodes a buffer of samples into the 64-bit intermediate; refuses an
/// encoding the converter does not carry.
fn buffer_to_inter(src: &Vec<u8>, st: SampleType) -> (r: Result<Vec<u64>, Fault>)
    ensures
        convertible(st) ==> (r matches Ok(vs) && vs@ == decode_inter(src@, st)),
        !convertible(st) ==> r == Err::<Vec<u64>, Fault>(Fault::Precondition),
{
    let size: usize = match st {
        SampleType::Signed(16u32) => 2,
        SampleType::Float(32u32) => 4,
        SampleType::Float(64u32) => 8,
        _ => {
            return Err(Fault::Precondition);
        },
    };
    let total = src.len();
    let n = total / size;
    proof {
        vstd::arithmetic::div_mod::lemma_fundamental_div_mod(total as int, size as int);
        assert(size * n <= src@.len());
    }
    let mut vs: Vec<u64> = Vec::new();
    let mut i: usize = 0;
    while i < n
        invariant
            n == src@.len() as int / inter_sample_size(st),
            size == inter_sample_size(st),
            convertible(st),
            i <= n,
            vs@.len() == i,
            forall|j: int| 0 <= j < i ==> vs@[j] == decode_inter(src@, st)[j],
            size * n <= src@.len(),
            src@.len() <= usize::MAX,
        decreases n - i,
    {
        proof {
            assert(size * (i + 1) <= size * n) by (nonlinear_arith)
                requires
                    i + 1 <= n,
                    size >= 1,
            ;
            assert(size * i + size == size * (i + 1)) by (nonlinear_arith);
        }
        let v: u64 = match st {
            SampleType::Signed(16u32) => {
                proof {
                    assert(size * (i + 1) == 2 * (i as int) + 2);
                }
                let raw: u16 = (src[2 * i] as u16) + (src[2 * i + 1] as u16) * 0x100;
                inter_of_s16(#[verifier::truncate] (raw as i16))
            },
            SampleType::Float(32u32) => {
                proof {
                    assert(size * (i + 1) == 4 * (i as int) + 4);
                }
                let raw: u32 = (src[4 * i] as u32) + (src[4 * i + 1] as u32) * 0x100 + (src[4 * i
                    + 2] as u32) * 0x1_0000 + (src[4 * i + 3] as u32) * 0x100_0000;
                widen_f32(raw)
            },
            SampleType::Float(64u32) => {
                proof {
                    assert(size * (i + 1) == 8 * (i as int) + 8);
                }
                (src[8 * i] as u64) + (src[8 * i + 1] as u64) * 0x100 + (src[8 * i + 2] as u64)
                    * 0x1_0000 + (src[8 * i + 3] as u64) * 0x100_0000 + (src[8 * i + 4] as u64)
                    * 0x1_0000_0000 + (src[8 * i + 5] as u64) * 0x100_0000_0000 + (src[8 * i
                    + 6] as u64) * 0x1_0000_0000_0000 + (src[8 * i + 7] as u64)
                    * 0x100_0000_0000_0000
            },
            _ => {
                return Err(Fault::Precondition);
            },
        };
        vs.push(v);
        i += 1;
    }
    proof {
        assert(vs@ =~= decode_inter(src@, st));
    }
    Ok(vs)
}

/// Encodes a run of intermediate values in the output's sample format;
/// refuses an encoding the converter does not carry.
fn inter_to_buffer(vs: &Vec<u64>, st: SampleType) -> (r: Result<Vec<u8>, Fault>)
    ensures
        convertible(st) ==> (r matches Ok(bytes) && bytes@ == encode_inter(vs@, st)),
        !convertible(st) ==> r == Err::<Vec<u8>, Fault>(Fault::Precondition),
{
    match st {
        SampleType::Signed(16u32) => (),
        SampleType::Float(32u32) => (),
        SampleType::Float(64u32) => (),
        _ => {
            return Err(Fault::Precondition);
        },
    }
    let n = vs.len();
    let mut bytes: Vec<u8> = Vec::new();
    let mut i: usize = 0;
    while i < n
        invariant
            n == vs@.len(),
            convertible(st),
            i <= n,
            bytes@ == encode_inter(vs@.take(i as int), st),
        decreases n - i,
    {
        let ghost pre = bytes@;
        let v = vs[i];
        match st {
            SampleType::Signed(16u32) => {
                let s = inter_to_s16(v);
                let u: u16 = #[verifier::truncate] (s as u16);
                bytes.push((u % 0x100) as u8);
                bytes.push((u / 0x100) as u8);
                proof {
                    assert(bytes@ =~= pre + le16_bytes(spec_inter_to_s16(v) as u16));
                }
            },
            SampleType::Float(32u32) => {
                let u: u32 = narrow_f64(v);
                bytes.push((u % 0x100) as u8);
                bytes.push(((u / 0x100) % 0x100) as u8);
                bytes.push(((u / 0x1_0000) % 0x100) as u8);
                bytes.push((u / 0x100_0000) as u8);
                proof {
                    assert(bytes@ =~= pre + le32_bytes(spec_narrow(v)));
                }
            },
            SampleType::Float(64u32) => {
                bytes.push((v % 0x100) as u8);
                bytes.push(((v / 0x100) % 0x100) as u8);
                bytes.push(((v / 0x1_0000) % 0x100) as u8);
                bytes.push(((v / 0x100_0000) % 0x100) as u8);
                bytes.push(((v / 0x1_0000_0000) % 0x100) as u8);
                bytes.push(((v / 0x100_0000_0000) % 0x100) as u8);
                bytes.push(((v / 0x1_0000_0000_0000) % 0x100) as u8);
                bytes.push((v / 0x100_0000_0000_0000) as u8);
                proof {
                    assert(bytes@ =~= pre + le64_bytes(v));
                }
            },
            _ => {
                return Err(Fault::Precondition);
            },
        }
        proof {
            lemma_encode_inter_take(vs@, st, i as int);
        }
        i += 1;
    }
    proof {
        assert(vs@.take(n as int) =~= vs@);
    }
    Ok(bytes)
}

/// The PCM converter: exactly one input and one output stream, made at
/// construction, and a single-sample slot providing synchronous
/// backpressure.
pub struct PCMTransform {
    pub input_stream: TransformStream,
    pub output_stream: TransformStream,
    pub input_added: bool,
    pub output_added: bool,
    pub sample: Option<Sample>,
}

/// The sample encodings of the two sides of a converter whose formats admit
/// conversion: both sides little-endian PCM audio with the same rate and
/// channel count, neither side companded, both carried by the converter.
pub open spec fn transform_formats(t: &PCMTransform) -> Option<(SampleType, SampleType)> {
    match (t.input_stream.stream_type, t.output_stream.stream_type) {
        (
            StreamType::AudioStream(AudioSubtype::PCMStream(ipcm), iaf),
            StreamType::AudioStream(AudioSubtype::PCMStream(opcm), oaf),
        ) => {
            if iaf != oaf {
                Option::None
            } else if !(ipcm.endian is LittleEndian) || !(opcm.endian is LittleEndian) {
                Option::None
            } else if ipcm.sample_type is ALaw || opcm.sample_type is ALaw
                || ipcm.sample_type is MuLaw || opcm.sample_type is MuLaw {
                Option::None
            } else if !convertible(ipcm.sample_type) || !convertible(opcm.sample_type) {
                Option::None
            } else {
                Option::Some((ipcm.sample_type, opcm.sample_type))
            }
        },
        _ => Option::None,
    }
}

impl PCMTransform {
    /// A converter with its two streams made and nothing registered or
    /// held.
    pub fn new() -> (r: PCMTransform)
        ensures
            r.input_stream == (TransformStream {
                identifier: 0,
                direction: Direction::InputStream,
                stream_type: StreamType::BinaryStream,
            }),
            r.output_stream == (TransformStream {
                identifier: 1,
                direction: Direction::OutputStream,
                stream_type: StreamType::BinaryStream,
            }),
            !r.input_added,
            !r.output_added,
            r.sample is None,
    {
        PCMTransform {
            input_stream: TransformStream {
                identifier: 0,
                direction: Direction::InputStream,
                stream_type: StreamType::BinaryStream,
            },
            output_stream: TransformStream {
                identifier: 1,
                direction: Direction::OutputStream,
                stream_type: StreamType::BinaryStream,
            },
            input_added: false,
            output_added: false,
            sample: None,
        }
    }

    /// The converter's input streams: exactly one.
    pub fn input_streams(&self) -> (r: &TransformStream)
        ensures
            r == &self.input_stream,
    {
        &self.input_stream
    }

    /// The converter's output streams: exactly one.
    pub fn output_streams(&self) -> (r: &TransformStream)
        ensures
            r == &self.output_stream,
    {
        &self.output_stream
    }

    /// How many input streams the converter supports: exactly one.
    pub fn input_stream_limits(&self) -> (r: (usize, usize))
        ensures
            r == (1usize, 1usize),
    {
        (1, 1)
    }

    /// How many output streams the converter supports: exactly one.
    pub fn output_stream_limits(&self) -> (r: (usize, usize))
        ensures
            r == (1usize, 1usize),
    {
        (1, 1)
    }

    /// Registers one of the converter's own streams by its identifier;
    /// registering anything else is a caller error.
    pub fn add_stream(&mut self, stream: &TransformStream) -> (r: Result<(), Fault>)
        ensures
            stream.identifier == 0 ==> r is Ok && *final(self) == (PCMTransform {
                input_added: true,
                ..*old(self)
            }),
            stream.identifier == 1 ==> r is Ok && *final(self) == (PCMTransform {
                output_added: true,
                ..*old(self)
            }),
            stream.identifier > 1 ==> r == Err::<(), Fault>(Fault::Precondition) && *final(self)
                == *old(self),
    {
        match stream.identifier {
            0 => {
                self.input_added = true;
                Ok(())
            },
            1 => {
                self.output_added = true;
                Ok(())
            },
            _ => Err(Fault::Precondition),
        }
    }

    /// Handles a driver message: `Flush` drops the held sample; the rest
    /// are no-ops, since no state spans samples.
    pub fn process_message(&mut self, message: Message) -> (r: Result<(), Fault>)
        ensures
            r is Ok,
            message is Flush ==> *final(self) == (PCMTransform {
                sample: Option::None,
                ..*old(self)
            }),
            !(message is Flush) ==> *final(self) == *old(self),
    {
        match message {
            Message::Flush => {
                self.sample = None;
            },
            Message::Drain => (),
            Message::StartOfStream(_) => (),
            Message::EndOfStream(_) => (),
        }
        Ok(())
    }

    /// The converter handles no events.
    pub fn process_event(&mut self, _stream: &TransformStream, _event: Event) -> (r: Result<
        (),
        Fault,
    >)
        ensures
            r == Err::<(), Fault>(Fault::Precondition),
            *final(self) == *old(self),
    {
        Err(Fault::Precondition)
    }

    /// Accepts a sample on the input stream; while one is already held, the
    /// converter is busy and the caller should drain it first.
    pub fn process_input(&mut self, stream: &TransformStream, sample: Sample) -> (r: Result<
        (),
        Fault,
    >)
        ensures
            stream.identifier != 0 ==> r == Err::<(), Fault>(Fault::Precondition) && *final(self)
                == *old(self),
            (stream.identifier == 0 && old(self).sample is Some) ==> r == Err::<(), Fault>(
                Fault::Busy,
            ) && *final(self) == *old(self),
            (stream.identifier == 0 && old(self).sample is None) ==> r is Ok && *final(self) == (
            PCMTransform { sample: Option::Some(sample), ..*old(self) }),
    {
        if stream.identifier != 0 {
            return Err(Fault::Precondition);
        }

        match self.sample {
            None => {
                self.sample = Some(sample);
                Ok(())
            },
            Some(_) => Err(Fault::Busy),
        }
    }

    /// Converts the held sample into a fresh one in the output stream's
    /// format, buffer by buffer, and releases the slot. Fails with
    /// `BadState` when nothing is held, and with `Precondition` when the
    /// negotiated formats do not admit conversion — rate or channels
    /// differing, a big-endian side, a companded or uncarried encoding, or
    /// formats never set.
    pub fn process_output(&mut self, stream: &TransformStream) -> (r: Result<Sample, Fault>)
        ensures
            stream.identifier != 1 ==> r == Err::<Sample, Fault>(Fault::Precondition) && *final(self) == *old(self),
            (stream.identifier == 1 && old(self).sample is None) ==> r == Err::<Sample, Fault>(
                Fault::BadState,
            ) && *final(self) == *old(self),
            (stream.identifier == 1 && old(self).sample is Some) ==> ({
                let input = old(self).sample->Some_0;
                match transform_formats(old(self)) {
                Option::None => r == Err::<Sample, Fault>(Fault::Precondition) && *final(self)
                    == *old(self),
                Option::Some((ist, ost)) => {
                    &&& r matches Ok(out)
                    &&& out.stream_type == old(self).output_stream.stream_type
                    &&& !out.end_of_stream
                    &&& out.buffers@.len() == input.buffers@.len()
                    &&& forall|i: int|
                        0 <= i < input.buffers@.len() ==> out.buffers@[i].data@ == converted(
                            input.buffers@[i].data@,
                            ist,
                            ost,
                        )
                    &&& *final(self) == (PCMTransform { sample: Option::None, ..*old(self) })
                },
                }
            }),
    {
        if stream.identifier != 1 {
            return Err(Fault::Precondition);
        }

        let sample = match &self.sample {
            Some(sample) => sample,
            None => {
                return Err(Fault::BadState);
            },
        };

        let (input_pcm, input_format) = match self.input_stream.stream_type {
            StreamType::AudioStream(AudioSubtype::PCMStream(pcm), af) => (pcm, af),
            _ => {
                return Err(Fault::Precondition);
            },
        };
        let (output_pcm, output_format) = match self.output_stream.stream_type {
            StreamType::AudioStream(AudioSubtype::PCMStream(pcm), af) => (pcm, af),
            _ => {
                return Err(Fault::Precondition);
            },
        };

        if input_format != output_format {
            // Channel count and rate must match: this converter only
            // re-encodes samples.
            return Err(Fault::Precondition);
        }

        if input_pcm.endian != Endian::LittleEndian || output_pcm.endian != Endian::LittleEndian {
            return Err(Fault::Precondition);
        }

        if input_pcm.sample_type == SampleType::ALaw || output_pcm.sample_type == SampleType::ALaw {
            return Err(Fault::Precondition);
        }
        if input_pcm.sample_type == SampleType::MuLaw || output_pcm.sample_type
            == SampleType::MuLaw {
            return Err(Fault::Precondition);
        }

        let ist = input_pcm.sample_type;
        let ost = output_pcm.sample_type;

        match ist {
            SampleType::Signed(16u32) => (),
            SampleType::Float(32u32) => (),
            SampleType::Float(64u32) => (),
            _ => {
                return Err(Fault::Precondition);
            },
        }
        match ost {
            SampleType::Signed(16u32) => (),
            SampleType::Float(32u32) => (),
            SampleType::Float(64u32) => (),
            _ => {
                return Err(Fault::Precondition);
            },
        }

        let mut result = Sample::new(self.output_stream.stream_type);

        let count = sample.length();
        let mut i: usize = 0;
        while i < count
            invariant
                count == sample.buffers@.len(),
                self.sample matches Some(s) && s == sample,
                sample == old(self).sample->Some_0,
                convertible(ist),
                convertible(ost),
                i <= count,
                result.stream_type == old(self).output_stream.stream_type,
                !result.end_of_stream,
                result.buffers@.len() == i,
                forall|j: int|
                    0 <= j < i ==> result.buffers@[j].data@ == converted(
                        sample.buffers@[j].data@,
                        ist,
                        ost,
                    ),
                *self == *old(self),
            decreases count - i,
        {
            let inter = match buffer_to_inter(sample.buffer(i).bytes(), ist) {
                Ok(inter) => inter,
                Err(e) => {
                    return Err(e);
                },
            };
            let out_bytes = match inter_to_buffer(&inter, ost) {
                Ok(out_bytes) => out_bytes,
                Err(e) => {
                    return Err(e);
                },
            };
            result.add_buffer(MemoryBuffer::from_bytes(out_bytes));
            i += 1;
        }

        self.sample = None;

        Ok(result)
    }
}

} // verus!
