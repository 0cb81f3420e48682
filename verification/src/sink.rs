//! The pull-model WAV consumer: a sink that accumulates samples, writes
//! their bytes to an in-memory stream, and back-patches the container header
//! when it is finalized — a two-pass, seek-and-patch protocol, since the
//! size fields are unknown until every sample is written.
//!
//! The header occupies the first forty-six bytes: `"RIFF"`, the little-endian
//! total size minus eight, `"WAVE"`, an eighteen-byte `"fmt "` block, and the
//! `"data"` chunk header. `set_stream_type` seeks just past that region, so
//! the sample data follows it.

use vstd::prelude::*;

use crate::bytecodec::{WriteCore, be32_bytes, le16_bytes, le32_bytes};
use crate::bytestream::{ByteStream, Seek, Write, splice_at, zero_extend};
use crate::buffers::MemoryBuffer;
use crate::events::{Event, EventQueue, EventType};
use crate::fault::Fault;
use crate::samples::{Sample, SampleQueue};
use crate::types::{AudioSubtype, Endian, SampleType, StreamType};
use crate::wav::{
    FOURCC_DATA, FOURCC_FMT, FOURCC_RIFF, FOURCC_WAVE, WAVE_FORMAT_ALAW, WAVE_FORMAT_IEEE_FLOAT,
    WAVE_FORMAT_MULAW, WAVE_FORMAT_PCM,
};

verus! {

/// What a sink can do.
#[derive(Clone, Copy, Debug, PartialEq, Eq, Structural)]
pub struct SinkCharacteristics {
    pub fixed_streams: bool,
    pub rateless: bool,
}

/// The bytes of one sample: its buffers, in order.
pub open spec fn buffers_bytes(bufs: Seq<MemoryBuffer>) -> Seq<u8>
    decreases bufs.len(),
{
    if bufs.len() == 0 {
        Seq::empty()
    } else {
        bufs[0].data@ + buffers_bytes(bufs.skip(1))
    }
}

/// The bytes of a run of samples, in order.
pub open spec fn samples_bytes(ss: Seq<Sample>) -> Seq<u8>
    decreases ss.len(),
{
    if ss.len() == 0 {
        Seq::empty()
    } else {
        buffers_bytes(ss[0].buffers@) + samples_bytes(ss.skip(1))
    }
}

/// Whether any sample in the run carries a buffer at all: only then does
/// writing the run touch the stream.
pub open spec fn any_buffers(ss: Seq<Sample>) -> bool {
    exists|i: int| 0 <= i < ss.len() && ss[i].buffers@.len() > 0
}

/// The format tag and bit width the sink derives from a sample encoding.
pub open spec fn sink_tag_bits(st: SampleType) -> (u16, u32) {
    match st {
        SampleType::Unsigned(bits) => (WAVE_FORMAT_PCM, bits),
        SampleType::Signed(bits) => (WAVE_FORMAT_PCM, bits),
        SampleType::Float(bits) => (WAVE_FORMAT_IEEE_FLOAT, bits),
        SampleType::ALaw => (WAVE_FORMAT_ALAW, 8),
        SampleType::MuLaw => (WAVE_FORMAT_MULAW, 8),
    }
}

/// The forty-six header bytes the sink writes at offset zero on finalize.
pub open spec fn wav_header_bytes(
    size32: u32,
    tag: u16,
    channels16: u16,
    rate: u32,
    byte_rate32: u32,
    block16: u16,
    bits16: u16,
    data32: u32,
) -> Seq<u8> {
    be32_bytes(FOURCC_RIFF) + le32_bytes(size32) + be32_bytes(FOURCC_WAVE) + be32_bytes(FOURCC_FMT)
        + le32_bytes(18) + le16_bytes(tag) + le16_bytes(channels16) + le32_bytes(rate)
        + le32_bytes(byte_rate32) + le16_bytes(block16) + le16_bytes(bits16) + le16_bytes(0)
        + be32_bytes(FOURCC_DATA) + le32_bytes(data32)
}

/// A narrowing cast to thirty-two bits keeps the value modulo `2^32`.
proof fn lemma_trunc32(x: u64)
    ensures
        (x as u32) as u64 == x % 0x1_0000_0000,
{
    assert((x as u32) as u64 == x % 0x1_0000_0000) by (bit_vector);
}

/// A narrowing cast to sixteen bits keeps the value modulo `2^16`.
proof fn lemma_trunc16(x: u64)
    ensures
        (x as u16) as u64 == x % 0x10000,
{
    assert((x as u16) as u64 == x % 0x10000) by (bit_vector);
}

/// Splicing `a` and then `b` right behind it is one splice of `a + b`.
proof fn lemma_splice_concat(d: Seq<u8>, p: int, a: Seq<u8>, b: Seq<u8>)
    requires
        p >= 0,
    ensures
        splice_at(splice_at(d, p, a), p + a.len(), b) == splice_at(d, p, a + b),
{
    let first = splice_at(d, p, a);
    let lhs = splice_at(first, p + a.len(), b);
    let rhs = splice_at(d, p, a + b);
    assert(first.len() >= p + a.len());
    assert(lhs.len() == rhs.len());
    assert forall|i: int| 0 <= i < lhs.len() implies lhs[i] == rhs[i] by {
        if i < p {
        } else if i < p + a.len() {
        } else if i < p + a.len() + b.len() {
        } else {
        }
    }
    assert(lhs =~= rhs);
}

/// The bytes of the first `i + 1` buffers are those of the first `i`
/// followed by buffer `i`'s.
proof fn lemma_buffers_bytes_take(bufs: Seq<MemoryBuffer>, i: int)
    requires
        0 <= i < bufs.len(),
    ensures
        buffers_bytes(bufs.take(i + 1)) == buffers_bytes(bufs.take(i)) + bufs[i].data@,
    decreases i,
{
    if i == 0 {
        assert(bufs.take(0) =~= Seq::<MemoryBuffer>::empty());
        assert(bufs.take(1).skip(1) =~= Seq::<MemoryBuffer>::empty());
        assert(bufs.take(1)[0] == bufs[0]);
        assert(bufs.take(1).len() == 1);
        reveal_with_fuel(buffers_bytes, 3);
        assert(buffers_bytes(bufs.take(1)) =~= bufs[0].data@ + Seq::<u8>::empty());
        assert(bufs[0].data@ + Seq::<u8>::empty() =~= bufs[0].data@);
        assert(buffers_bytes(bufs.take(0)) + bufs[0].data@ =~= bufs[0].data@);
    } else {
        lemma_buffers_bytes_take(bufs.skip(1), i - 1);
        assert(bufs.take(i + 1).skip(1) =~= bufs.skip(1).take(i));
        assert(bufs.take(i).skip(1) =~= bufs.skip(1).take(i - 1));
        assert(bufs.take(i + 1)[0] == bufs[0]);
        assert(bufs.take(i)[0] == bufs[0]);
        assert(bufs.skip(1)[i - 1] == bufs[i]);
        assert(buffers_bytes(bufs.take(i + 1)) == bufs[0].data@ + buffers_bytes(
            bufs.skip(1).take(i),
        ));
        assert(buffers_bytes(bufs.take(i)) == bufs[0].data@ + buffers_bytes(
            bufs.skip(1).take(i - 1),
        ));
        assert(buffers_bytes(bufs.take(i)) + bufs[i].data@ =~= bufs[0].data@ + (buffers_bytes(
            bufs.skip(1).take(i - 1),
        ) + bufs.skip(1)[i - 1].data@));
    }
}

/// The WAV consumer: a thin shell around its one stream sink. Any stream
/// index but zero is refused.
pub struct WAVSink {
    pub stream: WAVStreamSink,
    pub shutdown: bool,
}

/// The sink's one stream: owns the output byte stream, the queues, and the
/// byte count to back-patch into the header.
pub struct WAVStreamSink {
    pub writer: ByteStream,
    pub bytes_written: u64,
    pub stream_type: StreamType,
    pub event_queue: EventQueue,
    pub sample_queue: SampleQueue,
    pub shutdown: bool,
}

impl WAVSink {
    /// A sink writing into `writer`, with its stream sink ready and nothing
    /// negotiated yet.
    pub fn new(writer: ByteStream) -> (r: WAVSink)
        ensures
            !r.shutdown,
            !r.stream.shutdown,
            r.stream.writer == writer,
            r.stream.bytes_written == 0,
            r.stream.stream_type is BinaryStream,
            r.stream.event_queue.events@.len() == 0,
            r.stream.sample_queue.samples@.len() == 0,
    {
        WAVSink { stream: WAVStreamSink::new(writer), shutdown: false }
    }

    /// Fails with `Shutdown` once the sink was shut down.
    fn check_shutdown(&self) -> (r: Result<(), Fault>)
        ensures
            self.shutdown ==> r == Err::<(), Fault>(Fault::Shutdown),
            !self.shutdown ==> r is Ok,
    {
        if self.shutdown {
            Err(Fault::Shutdown)
        } else {
            Ok(())
        }
    }

    /// What this sink is: a fixed set of streams, not clocked.
    pub fn characteristics(&self) -> (r: Result<SinkCharacteristics, Fault>)
        ensures
            r == Ok::<SinkCharacteristics, Fault>(
                SinkCharacteristics { fixed_streams: true, rateless: true },
            ),
    {
        Ok(SinkCharacteristics { fixed_streams: true, rateless: true })
    }

    /// The stream sink at `index`; only index zero exists.
    pub fn stream_sink_from_index(&mut self, index: usize) -> (r: Result<&mut WAVStreamSink, Fault>)
        ensures
            index != 0 ==> r == Err::<&mut WAVStreamSink, Fault>(Fault::OutOfRange) && *final(self)
                == *old(self),
            index == 0 ==> (r matches Ok(s) && *s == old(self).stream && *final(self) == (WAVSink {
                stream: *final(s),
                ..*old(self)
            })),
    {
        if index == 0 {
            Ok(&mut self.stream)
        } else {
            Err(Fault::OutOfRange)
        }
    }

    /// Finalizes the one stream sink: flushes its samples and back-patches
    /// the header. Fails with `Shutdown` after shutdown.
    pub fn finalize(&mut self) -> (r: Result<(), Fault>)
        ensures
            old(self).shutdown ==> r == Err::<(), Fault>(Fault::Shutdown) && *final(self) == *old(self),
            !old(self).shutdown ==> ({
                &&& finalize_post(old(self).stream, final(self).stream, r)
                &&& *final(self) == (WAVSink { stream: final(self).stream, ..*old(self) })
            }),
    {
        self.check_shutdown()?;
        self.stream.finalize()
    }

    /// Shuts the sink and its stream down for good; every later operation
    /// fails with `Shutdown`, this one included.
    pub fn shutdown(&mut self) -> (r: Result<(), Fault>)
        ensures
            old(self).shutdown ==> r == Err::<(), Fault>(Fault::Shutdown) && *final(self) == *old(self),
            !old(self).shutdown ==> {
                &&& final(self).shutdown
                &&& final(self).stream.shutdown == true || r is Err
                &&& *final(self) == (WAVSink { shutdown: true, stream: final(self).stream, ..*old(self) })
                &&& !old(self).stream.shutdown ==> r is Ok && final(self).stream == (WAVStreamSink {
                    shutdown: true,
                    ..old(self).stream
                })
                &&& old(self).stream.shutdown ==> r == Err::<(), Fault>(Fault::Shutdown) && final(self).stream == old(self).stream
            },
    {
        self.check_shutdown()?;
        self.shutdown = true;
        self.stream.shutdown()
    }
}

/// A run of samples none of which carries a buffer has no bytes.
proof fn lemma_no_buffers_empty(ss: Seq<Sample>)
    requires
        !any_buffers(ss),
    ensures
        samples_bytes(ss).len() == 0,
    decreases ss.len(),
{
    if ss.len() > 0 {
        assert(!(0 <= 0 < ss.len() && ss[0].buffers@.len() > 0));
        assert(ss[0].buffers@.len() == 0);
        assert(buffers_bytes(ss[0].buffers@).len() == 0);
        assert forall|i: int| 0 <= i < ss.skip(1).len() implies ss.skip(1)[i].buffers@.len()
            == 0 by {
            assert(ss.skip(1)[i] == ss[i + 1]);
            assert(!(0 <= i + 1 < ss.len() && ss[i + 1].buffers@.len() > 0));
        }
        lemma_no_buffers_empty(ss.skip(1));
    }
}

/// The bytes of the first `i + 1` samples are those of the first `i`
/// followed by sample `i`'s.
proof fn lemma_samples_bytes_take(ss: Seq<Sample>, i: int)
    requires
        0 <= i < ss.len(),
    ensures
        samples_bytes(ss.take(i + 1)) == samples_bytes(ss.take(i)) + buffers_bytes(
            ss[i].buffers@,
        ),
    decreases i,
{
    if i == 0 {
        assert(ss.take(0) =~= Seq::<Sample>::empty());
        assert(ss.take(1).skip(1) =~= Seq::<Sample>::empty());
        assert(ss.take(1)[0] == ss[0]);
        assert(ss.take(1).len() == 1);
        reveal_with_fuel(samples_bytes, 3);
        assert(samples_bytes(ss.take(1)) =~= buffers_bytes(ss[0].buffers@) + Seq::<u8>::empty());
        assert(buffers_bytes(ss[0].buffers@) + Seq::<u8>::empty() =~= buffers_bytes(
            ss[0].buffers@,
        ));
        assert(samples_bytes(ss.take(0)) + buffers_bytes(ss[0].buffers@) =~= buffers_bytes(
            ss[0].buffers@,
        ));
    } else {
        lemma_samples_bytes_take(ss.skip(1), i - 1);
        assert(ss.take(i + 1).skip(1) =~= ss.skip(1).take(i));
        assert(ss.take(i).skip(1) =~= ss.skip(1).take(i - 1));
        assert(ss.take(i + 1)[0] == ss[0]);
        assert(ss.take(i)[0] == ss[0]);
        assert(ss.skip(1)[i - 1] == ss[i]);
        assert(samples_bytes(ss.take(i + 1)) == buffers_bytes(ss[0].buffers@) + samples_bytes(
            ss.skip(1).take(i),
        ));
        assert(samples_bytes(ss.take(i)) == buffers_bytes(ss[0].buffers@) + samples_bytes(
            ss.skip(1).take(i - 1),
        ));
        assert(samples_bytes(ss.take(i)) + buffers_bytes(ss[i].buffers@) =~= buffers_bytes(
            ss[0].buffers@,
        ) + (samples_bytes(ss.skip(1).take(i - 1)) + buffers_bytes(ss.skip(1)[i - 1].buffers@)));
    }
}

/// A run's bytes split at `i`: the first `i` items' bytes followed by the
/// rest's.
proof fn lemma_buffers_bytes_split(bufs: Seq<MemoryBuffer>, i: int)
    requires
        0 <= i <= bufs.len(),
    ensures
        buffers_bytes(bufs) == buffers_bytes(bufs.take(i)) + buffers_bytes(bufs.skip(i)),
    decreases i,
{
    if i == 0 {
        assert(bufs.take(0) =~= Seq::<MemoryBuffer>::empty());
        assert(bufs.skip(0) =~= bufs);
        assert(buffers_bytes(bufs.take(0)) + buffers_bytes(bufs) =~= buffers_bytes(bufs));
    } else {
        lemma_buffers_bytes_take(bufs, i - 1);
        lemma_buffers_bytes_split(bufs, i - 1);
        assert(bufs.skip(i - 1).len() > 0);
        assert(bufs.skip(i - 1)[0] == bufs[i - 1]);
        assert(bufs.skip(i - 1).skip(1) =~= bufs.skip(i));
        assert(buffers_bytes(bufs.skip(i - 1)) == bufs[i - 1].data@ + buffers_bytes(bufs.skip(i)));
        assert(buffers_bytes(bufs) =~= buffers_bytes(bufs.take(i)) + buffers_bytes(bufs.skip(i)));
    }
}

/// A run's bytes split at `i`, for samples.
proof fn lemma_samples_bytes_split(ss: Seq<Sample>, i: int)
    requires
        0 <= i <= ss.len(),
    ensures
        samples_bytes(ss) == samples_bytes(ss.take(i)) + samples_bytes(ss.skip(i)),
    decreases i,
{
    if i == 0 {
        assert(ss.take(0) =~= Seq::<Sample>::empty());
        assert(ss.skip(0) =~= ss);
        assert(samples_bytes(ss.take(0)) + samples_bytes(ss) =~= samples_bytes(ss));
    } else {
        lemma_samples_bytes_take(ss, i - 1);
        lemma_samples_bytes_split(ss, i - 1);
        assert(ss.skip(i - 1).len() > 0);
        assert(ss.skip(i - 1)[0] == ss[i - 1]);
        assert(ss.skip(i - 1).skip(1) =~= ss.skip(i));
        assert(samples_bytes(ss.skip(i - 1)) == buffers_bytes(ss[i - 1].buffers@) + samples_bytes(
            ss.skip(i),
        ));
        assert(samples_bytes(ss) =~= samples_bytes(ss.take(i)) + samples_bytes(ss.skip(i)));
    }
}

/// What flushing the sample queue leaves behind: the queue drained, every
/// buffer's bytes written in order at the old cursor (the stream untouched
/// when nothing carried a buffer), and the byte count grown by what was
/// written.
pub open spec fn flushed(pre: WAVStreamSink, post: WAVStreamSink) -> bool {
    let q = pre.sample_queue.samples@;
    let total = samples_bytes(q).len();
    &&& post.writer.data@ == if any_buffers(q) {
        splice_at(pre.writer.data@, pre.writer.pos as int, samples_bytes(q))
    } else {
        pre.writer.data@
    }
    &&& post.writer.pos == pre.writer.pos + total
    &&& post.bytes_written == pre.bytes_written + total
    &&& post.sample_queue.samples@.len() == 0
    &&& post == (WAVStreamSink {
        writer: post.writer,
        bytes_written: post.bytes_written,
        sample_queue: post.sample_queue,
        ..pre
    })
}

/// What `finalize` on a stream sink promises: after shutdown, nothing;
/// otherwise the samples are flushed, the stream type decides the outcome,
/// and on success the forty-six header bytes stand at offset zero, patched
/// with the final counts.
pub open spec fn finalize_post(pre: WAVStreamSink, post: WAVStreamSink, r: Result<
    (),
    Fault,
>) -> bool {
    let q = pre.sample_queue.samples@;
    let total = samples_bytes(q).len();
    let bw = pre.bytes_written + total;
    &&& pre.shutdown ==> r == Result::<(), Fault>::Err(Fault::Shutdown) && post == pre
    &&& !pre.shutdown ==> {
        &&& (pre.writer.pos + total > usize::MAX || bw > u64::MAX) ==> r is Err
        &&& (pre.writer.pos + total <= usize::MAX && bw <= u64::MAX) ==> {
            match pre.stream_type {
                StreamType::AudioStream(AudioSubtype::PCMStream(pcm), af) => {
                    let (tag, bits) = sink_tag_bits(pcm.sample_type);
                    let bytes = (bits + 7) as int / 8;
                    if pcm.endian is BigEndian {
                        r == Result::<(), Fault>::Err(Fault::UnsupportedFormat) && flushed(
                            pre,
                            post,
                        )
                    } else if af.channels > 2 {
                        r == Result::<(), Fault>::Err(Fault::UnsupportedChannels) && flushed(
                            pre,
                            post,
                        )
                    } else if (8 * bytes != bits || bits > 16) && tag != WAVE_FORMAT_IEEE_FLOAT {
                        r == Result::<(), Fault>::Err(Fault::UnsupportedBits) && flushed(pre, post)
                    } else if bw + 38 > u64::MAX {
                        r is Err
                    } else {
                        let mid = if any_buffers(q) {
                            splice_at(pre.writer.data@, pre.writer.pos as int, samples_bytes(q))
                        } else {
                            pre.writer.data@
                        };
                        let header = wav_header_bytes(
                            (((bw + 38) as int % 0x1_0000_0000) as u32),
                            tag,
                            af.channels as u16,
                            af.sample_rate,
                            (((bytes * af.channels * af.sample_rate) % 0x1_0000_0000) as u32),
                            (((bytes * af.channels) % 0x10000) as u16),
                            ((bits % 0x10000) as u16),
                            ((bw as int % 0x1_0000_0000) as u32),
                        );
                        &&& r is Ok
                        &&& post.writer.data@ == splice_at(mid, 0, header)
                        &&& post.writer.pos == 46
                        &&& post.bytes_written == bw
                        &&& post.sample_queue.samples@.len() == 0
                        &&& post == (WAVStreamSink {
                            writer: post.writer,
                            bytes_written: post.bytes_written,
                            sample_queue: post.sample_queue,
                            ..pre
                        })
                    }
                },
                _ => r == Result::<(), Fault>::Err(Fault::UnsupportedFormat) && flushed(pre, post),
            }
        }
    }
}

impl WAVStreamSink {
    /// A stream sink writing into `writer`, with nothing negotiated yet.
    pub fn new(writer: ByteStream) -> (r: WAVStreamSink)
        ensures
            !r.shutdown,
            r.writer == writer,
            r.bytes_written == 0,
            r.stream_type is BinaryStream,
            r.event_queue.events@.len() == 0,
            r.sample_queue.samples@.len() == 0,
    {
        WAVStreamSink {
            writer,
            bytes_written: 0,
            stream_type: StreamType::BinaryStream,
            event_queue: EventQueue::new(),
            sample_queue: SampleQueue::new(),
            shutdown: false,
        }
    }

    /// Fails with `Shutdown` once the stream sink was shut down.
    fn check_shutdown(&self) -> (r: Result<(), Fault>)
        ensures
            self.shutdown ==> r == Err::<(), Fault>(Fault::Shutdown),
            !self.shutdown ==> r is Ok,
    {
        if self.shutdown {
            Err(Fault::Shutdown)
        } else {
            Ok(())
        }
    }

    /// Shuts the stream sink down for good; every later operation fails with
    /// `Shutdown`, this one included.
    pub fn shutdown(&mut self) -> (r: Result<(), Fault>)
        ensures
            old(self).shutdown ==> r == Err::<(), Fault>(Fault::Shutdown) && *final(self) == *old(self),
            !old(self).shutdown ==> r is Ok && *final(self) == (WAVStreamSink {
                shutdown: true,
                ..*old(self)
            }),
    {
        self.check_shutdown()?;
        self.shutdown = true;
        Ok(())
    }

    /// Accepts the one stream type the sink will write. May be called only
    /// once, with a PCM audio type; accepting it seeks past the header
    /// region the sink fills in on finalize.
    pub fn set_stream_type(&mut self, stream_type: StreamType) -> (r: Result<(), Fault>)
        ensures
            old(self).shutdown ==> r == Err::<(), Fault>(Fault::Shutdown) && *final(self) == *old(self),
            (!old(self).shutdown && !(old(self).stream_type is BinaryStream)) ==> r == Err::<
                (),
                Fault,
            >(Fault::BadState) && *final(self) == *old(self),
            (!old(self).shutdown && old(self).stream_type is BinaryStream) ==> {
                if stream_type matches StreamType::AudioStream(AudioSubtype::PCMStream(pcm), af) {
                    &&& r is Ok
                    &&& final(self).stream_type == stream_type
                    &&& final(self).writer.pos == 46
                    &&& final(self).writer.data == old(self).writer.data
                    &&& *final(self) == (WAVStreamSink {
                        stream_type: final(self).stream_type,
                        writer: final(self).writer,
                        ..*old(self)
                    })
                } else {
                    r == Err::<(), Fault>(Fault::UnsupportedFormat) && *final(self) == *old(self)
                }
            },
    {
        self.check_shutdown()?;

        match self.stream_type {
            StreamType::BinaryStream => (),
            _ => {
                // The stream type may be set only once.
                return Err(Fault::BadState);
            },
        }

        match stream_type {
            StreamType::AudioStream(AudioSubtype::PCMStream(_), _) => {
                match self.writer.seek_from_beginning(46) {
                    Ok(_) => (),
                    Err(_) => {
                        return Err(Fault::OutOfRange);
                    },
                }
            },
            _ => {
                return Err(Fault::UnsupportedFormat);
            },
        }

        self.stream_type = stream_type;

        Ok(())
    }

    /// Removes and returns the stream sink's oldest event; fails with
    /// `Shutdown` after shutdown.
    pub fn dequeue_event(&mut self) -> (r: Result<Option<Event>, Fault>)
        ensures
            old(self).shutdown ==> r == Err::<Option<Event>, Fault>(Fault::Shutdown) && *final(self)
                == *old(self),
            !old(self).shutdown ==> {
                &&& final(self).event_queue.events@ == old(self).event_queue.events@.skip(
                    if old(self).event_queue.events@.len() > 0 {
                        1int
                    } else {
                        0int
                    },
                )
                &&& r == Ok::<Option<Event>, Fault>(
                    if old(self).event_queue.events@.len() > 0 {
                        Option::Some(old(self).event_queue.events@[0])
                    } else {
                        Option::None
                    },
                )
                &&& *final(self) == (WAVStreamSink {
                    event_queue: final(self).event_queue,
                    ..*old(self)
                })
            },
    {
        self.check_shutdown()?;
        proof {
            if old(self).event_queue.events@.len() == 0 {
                assert(old(self).event_queue.events@.skip(0) =~= old(self).event_queue.events@);
            }
        }
        Ok(self.event_queue.dequeue_event())
    }

    /// Queues an event: a sample event joins the sample queue to be written
    /// on finalize, anything else joins the ordinary event queue. Fails with
    /// `Shutdown` after shutdown.
    pub fn enqueue_event(&mut self, event: Event) -> (r: Result<(), Fault>)
        ensures
            old(self).shutdown ==> r == Err::<(), Fault>(Fault::Shutdown) && *final(self) == *old(self),
            !old(self).shutdown ==> {
                &&& r is Ok
                &&& (event.event_type matches EventType::Sample(s) ==> final(self).sample_queue.samples@ == old(self).sample_queue.samples@.push(s) && *final(self)
                    == (WAVStreamSink { sample_queue: final(self).sample_queue, ..*old(self) }))
                &&& (!(event.event_type is Sample) ==> final(self).event_queue.events@ == old(self).event_queue.events@.push(event) && *final(self) == (WAVStreamSink {
                    event_queue: final(self).event_queue,
                    ..*old(self)
                }))
            },
    {
        self.check_shutdown()?;

        let Event { event_type, status } = event;
        match event_type {
            EventType::Sample(sample) => {
                self.sample_queue.enqueue_sample(sample);
                Ok(())
            },
            other => {
                self.event_queue.enqueue_event(Event { event_type: other, status });
                Ok(())
            },
        }
    }

    /// Removes and returns the stream sink's oldest event.
    pub fn dequeue_stream_sink_event(&mut self) -> (r: Result<Option<Event>, Fault>)
        ensures
            old(self).shutdown ==> r == Err::<Option<Event>, Fault>(Fault::Shutdown) && *final(self)
                == *old(self),
            !old(self).shutdown ==> {
                &&& final(self).event_queue.events@ == old(self).event_queue.events@.skip(
                    if old(self).event_queue.events@.len() > 0 {
                        1int
                    } else {
                        0int
                    },
                )
                &&& r == Ok::<Option<Event>, Fault>(
                    if old(self).event_queue.events@.len() > 0 {
                        Option::Some(old(self).event_queue.events@[0])
                    } else {
                        Option::None
                    },
                )
                &&& *final(self) == (WAVStreamSink {
                    event_queue: final(self).event_queue,
                    ..*old(self)
                })
            },
    {
        self.dequeue_event()
    }

    /// Hands an event to the stream sink, as `enqueue_event` does.
    pub fn enqueue_stream_sink_event(&mut self, event: Event) -> (r: Result<(), Fault>)
        ensures
            old(self).shutdown ==> r == Err::<(), Fault>(Fault::Shutdown) && *final(self) == *old(self),
            !old(self).shutdown ==> {
                &&& r is Ok
                &&& (event.event_type matches EventType::Sample(s) ==> final(self).sample_queue.samples@ == old(self).sample_queue.samples@.push(s) && *final(self)
                    == (WAVStreamSink { sample_queue: final(self).sample_queue, ..*old(self) }))
                &&& (!(event.event_type is Sample) ==> final(self).event_queue.events@ == old(self).event_queue.events@.push(event) && *final(self) == (WAVStreamSink {
                    event_queue: final(self).event_queue,
                    ..*old(self)
                }))
            },
    {
        self.enqueue_event(event)
    }

    /// Writes every buffer of `sample` to the stream in order, counting the
    /// bytes; fails with `OutOfRange` when a write would run past the
    /// machine's limits.
    fn write_sample_to_stream(&mut self, sample: Sample) -> (r: Result<(), Fault>)
        ensures
            sample.buffers@.len() == 0 ==> r is Ok && *final(self) == *old(self),
            sample.buffers@.len() > 0 ==> {
                let bb = buffers_bytes(sample.buffers@);
                &&& (r is Ok <==> (old(self).writer.pos + bb.len() <= usize::MAX && old(
                    self,
                ).bytes_written + bb.len() <= u64::MAX))
                &&& (old(self).writer.pos + bb.len() <= usize::MAX && old(self).bytes_written
                    + bb.len() <= u64::MAX) ==> {
                    &&& r is Ok
                    &&& final(self).writer.data@ == splice_at(
                        old(self).writer.data@,
                        old(self).writer.pos as int,
                        bb,
                    )
                    &&& final(self).writer.pos == old(self).writer.pos + bb.len()
                    &&& final(self).bytes_written == old(self).bytes_written + bb.len()
                    &&& *final(self) == (WAVStreamSink {
                        writer: final(self).writer,
                        bytes_written: final(self).bytes_written,
                        ..*old(self)
                    })
                }
                &&& (old(self).writer.pos + bb.len() > usize::MAX || old(self).bytes_written
                    + bb.len() > u64::MAX) ==> r == Err::<(), Fault>(Fault::OutOfRange)
            },
    {
        let ghost d0 = self.writer.data@;
        let ghost p0 = self.writer.pos as int;
        let ghost bw0 = self.bytes_written;
        let ghost bufs = sample.buffers@;

        let count = sample.length();
        let mut i: usize = 0;
        while i < count
            invariant
                count == bufs.len(),
                bufs == sample.buffers@,
                i <= count,
                i == 0 ==> *self == *old(self),
                self.writer.data@ == d0 || i > 0,
                d0 == old(self).writer.data@,
                p0 == old(self).writer.pos as int,
                bw0 == old(self).bytes_written,
                i > 0 ==> {
                    &&& self.writer.data@ == splice_at(d0, p0, buffers_bytes(bufs.take(i as int)))
                    &&& self.writer.pos == p0 + buffers_bytes(bufs.take(i as int)).len()
                    &&& self.bytes_written == bw0 + buffers_bytes(bufs.take(i as int)).len()
                },
                *self == (WAVStreamSink {
                    writer: self.writer,
                    bytes_written: self.bytes_written,
                    ..*old(self)
                }),
                buffers_bytes(bufs.take(i as int)).len() <= buffers_bytes(bufs).len(),
            decreases count - i,
        {
            let ghost acc = buffers_bytes(bufs.take(i as int));
            proof {
                lemma_buffers_bytes_take(bufs, i as int);
                lemma_buffers_bytes_split(bufs, i + 1);
            }
            let buffer = sample.buffer(i);
            let n = buffer.bytes().len();
            match self.writer.write(buffer.bytes().as_slice()) {
                Ok(_) => (),
                Err(_) => {
                    return Err(Fault::OutOfRange);
                },
            }
            if (n as u64) > u64::MAX - self.bytes_written {
                return Err(Fault::OutOfRange);
            }
            self.bytes_written = self.bytes_written + (n as u64);
            proof {
                if i == 0 {
                    assert(bufs.take(0) =~= Seq::<MemoryBuffer>::empty());
                    assert(acc + bufs[0].data@ =~= bufs[0].data@);
                } else {
                    lemma_splice_concat(d0, p0, acc, bufs[i as int].data@);
                }
            }
            i += 1;
        }
        proof {
            assert(bufs.take(count as int) =~= bufs);
        }
        Ok(())
    }

    /// Drains the sample queue, writing every buffer of every sample in
    /// order; fails with `OutOfRange` when a write would run past the
    /// machine's limits, leaving the stream partially written.
    fn process_samples(&mut self) -> (r: Result<(), Fault>)
        ensures
            (r is Ok <==> (old(self).writer.pos + samples_bytes(
                old(self).sample_queue.samples@,
            ).len() <= usize::MAX && old(self).bytes_written + samples_bytes(
                old(self).sample_queue.samples@,
            ).len() <= u64::MAX)),
            r is Ok ==> flushed(*old(self), *final(self)),
            r is Err ==> r == Err::<(), Fault>(Fault::OutOfRange),
    {
        let ghost q0 = self.sample_queue.samples@;
        let ghost d0 = self.writer.data@;
        let ghost p0 = self.writer.pos as int;
        let ghost bw0 = self.bytes_written;
        let ghost mut i: int = 0;

        loop
            invariant
                0 <= i <= q0.len(),
                q0 == old(self).sample_queue.samples@,
                d0 == old(self).writer.data@,
                p0 == old(self).writer.pos as int,
                bw0 == old(self).bytes_written,
                self.sample_queue.samples@ == q0.skip(i),
                self.writer.data@ == if any_buffers(q0.take(i)) {
                    splice_at(d0, p0, samples_bytes(q0.take(i)))
                } else {
                    d0
                },
                self.writer.pos == p0 + samples_bytes(q0.take(i)).len(),
                self.bytes_written == bw0 + samples_bytes(q0.take(i)).len(),
                samples_bytes(q0.take(i)).len() <= samples_bytes(q0).len(),
                *self == (WAVStreamSink {
                    writer: self.writer,
                    bytes_written: self.bytes_written,
                    sample_queue: self.sample_queue,
                    ..*old(self)
                }),
            decreases q0.len() - i,
        {
            let ghost acc = samples_bytes(q0.take(i));
            let sample = match self.sample_queue.dequeue_sample() {
                Some(sample) => sample,
                None => {
                    proof {
                        assert(q0.skip(i).len() == 0);
                        assert(q0.take(i) =~= q0);
                    }
                    return Ok(());
                },
            };
            proof {
                assert(q0.skip(i)[0] == q0[i]);
                assert(q0.skip(i).skip(1) =~= q0.skip(i + 1));
                lemma_samples_bytes_take(q0, i);
                lemma_samples_bytes_split(q0, i + 1);
            }
            match self.write_sample_to_stream(sample) {
                Ok(_) => (),
                Err(e) => {
                    return Err(e);
                },
            }
            proof {
                let bb = buffers_bytes(q0[i].buffers@);
                if q0[i].buffers@.len() == 0 {
                    assert(bb.len() == 0);
                    assert(acc + bb =~= acc);
                    assert(any_buffers(q0.take(i + 1)) == any_buffers(q0.take(i))) by {
                        if any_buffers(q0.take(i + 1)) {
                            let w = choose|w: int|
                                0 <= w < q0.take(i + 1).len() && #[trigger] q0.take(
                                    i + 1,
                                )[w].buffers@.len() > 0;
                            assert(w < i);
                            assert(q0.take(i)[w].buffers@.len() > 0);
                        }
                        if any_buffers(q0.take(i)) {
                            let w = choose|w: int|
                                0 <= w < q0.take(i).len() && #[trigger] q0.take(
                                    i,
                                )[w].buffers@.len() > 0;
                            assert(q0.take(i + 1)[w].buffers@.len() > 0);
                        }
                    }
                } else {
                    assert(q0.take(i + 1)[i].buffers@.len() > 0);
                    assert(any_buffers(q0.take(i + 1)));
                    if !any_buffers(q0.take(i)) {
                        lemma_no_buffers_empty(q0.take(i));
                        assert(acc.len() == 0);
                        assert(acc + bb =~= bb);
                    } else {
                        lemma_splice_concat(d0, p0, acc, bb);
                    }
                }
                i = i + 1;
            }
        }
    }

    /// Flushes the queued samples, then seeks to the start and writes the
    /// full header with the final byte counts: the two-pass back-patch.
    /// Rejects big-endian PCM, more than two channels, and any encoding
    /// whose width is not a whole number of at most two bytes, unless the
    /// tag is IEEE float.
    pub fn finalize(&mut self) -> (r: Result<(), Fault>)
        ensures
            finalize_post(*old(self), *final(self), r),
    {
        self.check_shutdown()?;

        match self.process_samples() {
            Ok(_) => (),
            Err(e) => {
                return Err(e);
            },
        }

        let (pcm_format, audio_format) = match self.stream_type {
            StreamType::AudioStream(AudioSubtype::PCMStream(pcm_format), audio_format) => (
                pcm_format,
                audio_format,
            ),
            _ => {
                return Err(Fault::UnsupportedFormat);
            },
        };

        if pcm_format.endian == Endian::BigEndian {
            return Err(Fault::UnsupportedFormat);
        }

        if audio_format.channels > 2 {
            return Err(Fault::UnsupportedChannels);
        }

        let (tag, bits): (u16, u32) = match pcm_format.sample_type {
            SampleType::Unsigned(bits) => (WAVE_FORMAT_PCM, bits),
            SampleType::Signed(bits) => (WAVE_FORMAT_PCM, bits),
            SampleType::Float(bits) => (WAVE_FORMAT_IEEE_FLOAT, bits),
            SampleType::ALaw => (WAVE_FORMAT_ALAW, 8),
            SampleType::MuLaw => (WAVE_FORMAT_MULAW, 8),
        };
        let bytes: u64 = ((bits as u64) + 7) / 8;

        if (8 * bytes != (bits as u64)) || (bits > 16) {
            if tag != WAVE_FORMAT_IEEE_FLOAT {
                return Err(Fault::UnsupportedBits);
            }
        }

        if self.bytes_written > u64::MAX - 38 {
            return Err(Fault::OutOfRange);
        }
        let file_size: u64 = self.bytes_written + 38;

        let ghost mid = self.writer.data@;
        let data_size: u32 = #[verifier::truncate] (self.bytes_written as u32);
        let size32: u32 = #[verifier::truncate] (file_size as u32);
        proof {
            assert((bytes as int) * (audio_format.channels as int) <= 0x4000_0000 && (bytes as int)
                * (audio_format.channels as int) * (audio_format.sample_rate as int)
                <= 0x4000_0000 * 0xFFFF_FFFF) by (nonlinear_arith)
                requires
                    0 <= bytes <= 0x2000_0000,
                    0 <= audio_format.channels <= 2,
                    0 <= audio_format.sample_rate <= 0xFFFF_FFFF,
            ;
        }
        let byte_rate_wide: u64 = bytes * (audio_format.channels as u64) * (audio_format.sample_rate
            as u64);
        let byte_rate32: u32 = #[verifier::truncate] (byte_rate_wide as u32);
        let block_wide: u64 = bytes * (audio_format.channels as u64);
        let block16: u16 = #[verifier::truncate] (block_wide as u16);
        let bits16: u16 = #[verifier::truncate] (bits as u16);
        let channels16: u16 = audio_format.channels as u16;

        proof {
            lemma_trunc32(file_size);
            lemma_trunc32(self.bytes_written);
            lemma_trunc32(byte_rate_wide);
            lemma_trunc16(block_wide);
            lemma_trunc16(bits as u64);
            assert(byte_rate_wide == (bytes as int) * (audio_format.channels as int) * (
            audio_format.sample_rate as int));
            assert(size32 == (((self.bytes_written + 38) as int) % 0x1_0000_0000) as u32);
            assert(data_size == ((self.bytes_written as int) % 0x1_0000_0000) as u32);
            assert(byte_rate32 == (((bytes as int) * (audio_format.channels as int) * (
            audio_format.sample_rate as int)) % 0x1_0000_0000) as u32);
            assert(block16 == (((bytes as int) * (audio_format.channels as int)) % 0x10000) as u16);
            assert(bits16 == ((bits as int) % 0x10000) as u16);
        }
        self.write_header(
            size32,
            tag,
            channels16,
            audio_format.sample_rate,
            byte_rate32,
            block16,
            bits16,
            data_size,
        )
    }

    /// Seeks to the start and writes the forty-six header bytes.
    #[verifier::rlimit(100)]
    fn write_header(
        &mut self,
        size32: u32,
        tag: u16,
        channels16: u16,
        rate: u32,
        byte_rate32: u32,
        block16: u16,
        bits16: u16,
        data_size: u32,
    ) -> (r: Result<(), Fault>)
        ensures
            r is Ok,
            final(self).writer.data@ == splice_at(
                old(self).writer.data@,
                0,
                wav_header_bytes(
                    size32,
                    tag,
                    channels16,
                    rate,
                    byte_rate32,
                    block16,
                    bits16,
                    data_size,
                ),
            ),
            final(self).writer.pos == 46,
            *final(self) == (WAVStreamSink { writer: final(self).writer, ..*old(self) }),
    {
        let ghost mid = self.writer.data@;
        let audio_format_sample_rate = rate;
        match self.writer.seek_from_beginning(0) {
            Ok(_) => (),
            Err(_) => {
                return Err(Fault::OutOfRange);
            },
        }

        let ghost mut acc: Seq<u8> = Seq::empty();

        match self.writer.write_fourcc(FOURCC_RIFF) {
            Ok(_) => (),
            Err(_) => {
                return Err(Fault::OutOfRange);
            },
        }
        proof {
            acc = be32_bytes(FOURCC_RIFF);
            assert(self.writer.data@ == splice_at(mid, 0, acc)) by {
                assert(zero_extend(mid, 0) =~= mid);
            }
        }

        match self.writer.write_u32_le(size32) {
            Ok(_) => (),
            Err(_) => {
                return Err(Fault::OutOfRange);
            },
        }
        proof {
            lemma_splice_concat(mid, 0, acc, le32_bytes(size32));
            acc = acc + le32_bytes(size32);
        }

        match self.writer.write_fourcc(FOURCC_WAVE) {
            Ok(_) => (),
            Err(_) => {
                return Err(Fault::OutOfRange);
            },
        }
        proof {
            lemma_splice_concat(mid, 0, acc, be32_bytes(FOURCC_WAVE));
            acc = acc + be32_bytes(FOURCC_WAVE);
        }

        match self.writer.write_fourcc(FOURCC_FMT) {
            Ok(_) => (),
            Err(_) => {
                return Err(Fault::OutOfRange);
            },
        }
        proof {
            lemma_splice_concat(mid, 0, acc, be32_bytes(FOURCC_FMT));
            acc = acc + be32_bytes(FOURCC_FMT);
        }

        match self.writer.write_u32_le(18) {
            Ok(_) => (),
            Err(_) => {
                return Err(Fault::OutOfRange);
            },
        }
        proof {
            lemma_splice_concat(mid, 0, acc, le32_bytes(18));
            acc = acc + le32_bytes(18);
        }

        match self.writer.write_u16_le(tag) {
            Ok(_) => (),
            Err(_) => {
                return Err(Fault::OutOfRange);
            },
        }
        proof {
            lemma_splice_concat(mid, 0, acc, le16_bytes(tag));
            acc = acc + le16_bytes(tag);
        }

        match self.writer.write_u16_le(channels16) {
            Ok(_) => (),
            Err(_) => {
                return Err(Fault::OutOfRange);
            },
        }
        proof {
            lemma_splice_concat(mid, 0, acc, le16_bytes(channels16));
            acc = acc + le16_bytes(channels16);
        }

        match self.writer.write_u32_le(audio_format_sample_rate) {
            Ok(_) => (),
            Err(_) => {
                return Err(Fault::OutOfRange);
            },
        }
        proof {
            lemma_splice_concat(mid, 0, acc, le32_bytes(audio_format_sample_rate));
            acc = acc + le32_bytes(audio_format_sample_rate);
        }

        match self.writer.write_u32_le(byte_rate32) {
            Ok(_) => (),
            Err(_) => {
                return Err(Fault::OutOfRange);
            },
        }
        proof {
            lemma_splice_concat(mid, 0, acc, le32_bytes(byte_rate32));
            acc = acc + le32_bytes(byte_rate32);
        }

        match self.writer.write_u16_le(block16) {
            Ok(_) => (),
            Err(_) => {
                return Err(Fault::OutOfRange);
            },
        }
        proof {
            lemma_splice_concat(mid, 0, acc, le16_bytes(block16));
            acc = acc + le16_bytes(block16);
        }

        match self.writer.write_u16_le(bits16) {
            Ok(_) => (),
            Err(_) => {
                return Err(Fault::OutOfRange);
            },
        }
        proof {
            lemma_splice_concat(mid, 0, acc, le16_bytes(bits16));
            acc = acc + le16_bytes(bits16);
        }

        match self.writer.write_u16_le(0) {
            Ok(_) => (),
            Err(_) => {
                return Err(Fault::OutOfRange);
            },
        }
        proof {
            lemma_splice_concat(mid, 0, acc, le16_bytes(0));
            acc = acc + le16_bytes(0);
        }

        match self.writer.write_fourcc(FOURCC_DATA) {
            Ok(_) => (),
            Err(_) => {
                return Err(Fault::OutOfRange);
            },
        }
        proof {
            lemma_splice_concat(mid, 0, acc, be32_bytes(FOURCC_DATA));
            acc = acc + be32_bytes(FOURCC_DATA);
        }

        match self.writer.write_u32_le(data_size) {
            Ok(_) => (),
            Err(_) => {
                return Err(Fault::OutOfRange);
            },
        }
        proof {
            lemma_splice_concat(mid, 0, acc, le32_bytes(data_size));
            acc = acc + le32_bytes(data_size);
            assert(acc =~= wav_header_bytes(
                size32,
                tag,
                channels16,
                audio_format_sample_rate,
                byte_rate32,
                block16,
                bits16,
                data_size,
            ));
        }

        Ok(())
    }
}
} // verus!
