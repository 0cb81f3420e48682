//! The pull-model WAV producer: a source that opens and validates a
//! container, and the stream that reads block-aligned runs of sample data
//! out of its data chunk, delivering them as events.

use vstd::prelude::*;

use crate::align::block_align;
use crate::buffers::MemoryBuffer;
use crate::bytestream::ByteStream;
use crate::events::{Event, EventQueue, EventType};
use crate::fault::Fault;
use crate::samples::{Sample, SampleQueue};
use crate::source::{PresentationDescriptor, SourceCharacteristics, State, StreamDescriptor};
use crate::types::{AudioFormat, AudioSubtype, Endian, PCMFormat, SampleType, StreamType};
use crate::bytecodec::{be32_at, le32_at};
use crate::riff::{RIFFParser, chunk_start};
use crate::wav::{
    FOURCC_RIFF, FOURCC_WAVE, Format, WAVParser, WAVE_FORMAT_ALAW, WAVE_FORMAT_IEEE_FLOAT,
    WAVE_FORMAT_MULAW, WAVE_FORMAT_PCM, WaveFormat, fmt_matches, header_path_ok, is_data_chunk,
    is_fmt_chunk,
};

verus! {

/// The fixed format-block fields, whatever the block's flavour; nothing
/// before a format block was parsed.
pub open spec fn format_of(f: Format) -> Option<WaveFormat> {
    match f {
        Format::Unset => Option::None,
        Format::Ex(wf) => Option::Some(wf),
        Format::Extensible(wf, ex) => Option::Some(wf),
    }
}

/// The first complaint `validate_wave_format` has about a parsed format,
/// or nothing when the format passes: the tag must be one the library
/// knows (checked only for the plain flavour), the channel count one or
/// two, the bit width eight or sixteen (or thirty-two or sixty-four for
/// floating-point samples; unchecked for the extensible flavour),
/// `block_align` must be the byte size of one frame, and
/// `average_bytes_per_second` the rate times `block_align`.
pub open spec fn validate_spec(f: Format) -> Option<Fault> {
    match f {
        Format::Unset => Option::Some(Fault::BadState),
        Format::Ex(wf) => {
            if wf.format_tag != WAVE_FORMAT_PCM && wf.format_tag != WAVE_FORMAT_IEEE_FLOAT
                && wf.format_tag != WAVE_FORMAT_ALAW && wf.format_tag != WAVE_FORMAT_MULAW {
                Option::Some(Fault::UnsupportedFormat)
            } else {
                validate_common(wf, false)
            }
        },
        Format::Extensible(wf, ex) => validate_common(wf, true),
    }
}

/// The checks shared by both format-block flavours.
pub open spec fn validate_common(wf: WaveFormat, extensible: bool) -> Option<Fault> {
    if wf.channels != 1 && wf.channels != 2 {
        Option::Some(Fault::UnsupportedChannels)
    } else if !extensible && !(wf.bits_per_sample == 8 || wf.bits_per_sample == 16 || ((
    wf.bits_per_sample == 32 || wf.bits_per_sample == 64) && wf.format_tag
        == WAVE_FORMAT_IEEE_FLOAT)) {
        Option::Some(Fault::UnsupportedBits)
    } else if wf.block_align != wf.channels * (wf.bits_per_sample / 8) {
        Option::Some(Fault::BadBlockAlign)
    } else if wf.average_bytes_per_second != wf.samples_per_second * wf.block_align {
        Option::Some(Fault::BadByteRate)
    } else {
        Option::None
    }
}

/// The stream type a parsed format denotes: little-endian PCM whose sample
/// encoding comes from the format tag, or from the first two sub-format
/// bytes for the extensible flavour; or the fault when the format denotes
/// nothing the library plays.
pub open spec fn stream_type_of(f: Format) -> Result<StreamType, Fault> {
    match f {
        Format::Unset => Result::Err(Fault::BadState),
        Format::Ex(wf) => {
            if wf.format_tag == WAVE_FORMAT_PCM {
                Result::Ok(audio_stream(SampleType::Signed(wf.bits_per_sample as u32), wf))
            } else if wf.format_tag == WAVE_FORMAT_IEEE_FLOAT {
                Result::Ok(audio_stream(SampleType::Float(wf.bits_per_sample as u32), wf))
            } else {
                Result::Err(Fault::UnsupportedFormat)
            }
        },
        Format::Extensible(wf, ex) => {
            if ex.sub_format@.len() < 2 {
                Result::Err(Fault::UnsupportedFormat)
            } else {
                let tag = ex.sub_format@[0] + ex.sub_format@[1] * 0x100;
                if tag == WAVE_FORMAT_PCM {
                    Result::Ok(audio_stream(SampleType::Signed(wf.bits_per_sample as u32), wf))
                } else if tag == WAVE_FORMAT_IEEE_FLOAT {
                    Result::Ok(audio_stream(SampleType::Float(wf.bits_per_sample as u32), wf))
                } else if tag == WAVE_FORMAT_ALAW {
                    if wf.bits_per_sample != 8 {
                        Result::Err(Fault::UnsupportedBits)
                    } else {
                        Result::Ok(audio_stream(SampleType::ALaw, wf))
                    }
                } else if tag == WAVE_FORMAT_MULAW {
                    if wf.bits_per_sample != 8 {
                        Result::Err(Fault::UnsupportedBits)
                    } else {
                        Result::Ok(audio_stream(SampleType::MuLaw, wf))
                    }
                } else {
                    Result::Err(Fault::UnsupportedFormat)
                }
            }
        },
    }
}

/// A little-endian PCM audio stream type with `wf`'s rate and channels.
pub open spec fn audio_stream(sample_type: SampleType, wf: WaveFormat) -> StreamType {
    StreamType::AudioStream(
        AudioSubtype::PCMStream(PCMFormat { sample_type, endian: Endian::LittleEndian }),
        AudioFormat { sample_rate: wf.samples_per_second, channels: wf.channels as u32 },
    )
}

/// Whether `fv` is the format a header walk over `d` that stops on chunk
/// `big_k` leaves behind: the one format chunk's block before `big_k`, or
/// nothing at all when no format chunk lies there.
pub open spec fn format_from(d: Seq<u8>, big_k: nat, fv: Format) -> bool {
    ||| (exists|j: nat| j < big_k && is_fmt_chunk(d, 0, j) && fmt_matches(fv, d, 0, j))
    ||| ((forall|j: nat| j < big_k ==> !is_fmt_chunk(d, 0, j)) && fv is Unset)
}

/// Whether `s` is a freshly created stream over the stream type `st`:
/// nothing queued, nothing delivered, not shut down.
pub open spec fn fresh_stream(s: WAVStreamSource, st: StreamType) -> bool {
    &&& !s.shutdown
    &&& s.current_position == 0
    &&& !s.discontinuity
    &&& !s.end_of_stream
    &&& s.descriptor == (StreamDescriptor { selected: true, identifier: 0, stream_type: st })
    &&& s.event_queue.events@.len() == 0
    &&& s.sample_queue.samples@.len() == 0
}

/// A source's parser, when it has one, is structurally sound.
pub open spec fn source_wf(s: &WAVSource) -> bool {
    match s.parser {
        Option::Some(p) => p.riff.wf(),
        Option::None => true,
    }
}

/// How many bytes one sample read takes: roughly a second of audio, rounded
/// up to a whole block, but clipped to what the data chunk still holds.
pub open spec fn read_size(avg: int, ba: int, remaining: int) -> int
    recommends
        ba >= 1,
{
    let aligned = ((avg + ba - 1) / ba) * ba;
    if aligned <= remaining {
        aligned
    } else {
        remaining
    }
}

/// Whether `s` is a sample carrying exactly `bytes` in one buffer, tagged
/// with `st`.
pub open spec fn is_sample_of(s: Sample, st: StreamType, bytes: Seq<u8>) -> bool {
    &&& s.stream_type == st
    &&& s.buffers@.len() == 1
    &&& s.buffers@[0].data@ == bytes
    &&& !s.end_of_stream
}

/// Whether `e` is a successful sample event carrying exactly `bytes` in one
/// buffer, tagged with `st`.
pub open spec fn is_sample_event(e: Event, st: StreamType, bytes: Seq<u8>) -> bool {
    &&& e.event_type matches EventType::Sample(s) && is_sample_of(s, st, bytes)
    &&& e.status == Result::<(), Fault>::Ok(())
}

/// Whether `e` is a successful end-of-stream event.
pub open spec fn is_eos_event(e: Event) -> bool {
    &&& e.event_type is EndOfStream
    &&& e.status == Result::<(), Fault>::Ok(())
}

/// What opening a container whose header walk can reach a data chunk left
/// behind: `big_k` is the data chunk the walk stopped on, `fv` the format it
/// gathered, and the outcome hangs on validation — a format that passes
/// leaves the parser standing on the data chunk, one that fails shuts the
/// source down and surfaces the first complaint.
pub open spec fn open_outcome(
    d: Seq<u8>,
    big_k: nat,
    fv: Format,
    r: Result<(), Fault>,
    pre: WAVSource,
    post: WAVSource,
) -> bool {
    let csize = le32_at(d, 4) + 8;
    &&& header_path_ok(d, 0, csize, 0, big_k, Format::Unset)
    &&& format_from(d, big_k, fv)
    &&& match validate_spec(fv) {
        Option::None => {
            &&& r is Ok
            &&& post.parser matches Option::Some(p)
            &&& p.format == fv
            &&& p.riff.wf()
            &&& p.riff.stream.data@ == d
            &&& p.riff.container_offset == 0
            &&& p.riff.container_size == csize
            &&& p.riff.index@ == big_k
            &&& is_data_chunk(d, 0, big_k)
            &&& p.riff.current_chunk_offset == chunk_start(d, 0, big_k)
            &&& p.riff.bytes_remaining == p.riff.current_chunk.size
            &&& p.riff.stream.pos == chunk_start(d, 0, big_k) + 8
            &&& !post.shutdown
            &&& post == (WAVSource { parser: post.parser, ..pre })
        },
        Option::Some(fault) => {
            &&& r == Result::<(), Fault>::Err(fault)
            &&& post.shutdown
            &&& post.parser is None
            &&& post == (WAVSource {
                shutdown: true,
                parser: Option::None,
                stream: Option::None,
                ..pre
            })
        },
    }
}

/// The pull-model WAV producer: owns the parsed container, its event queue,
/// and the descriptors of the streams it offers. `shutdown` is one-way;
/// every operation checked against it fails with `Shutdown` afterwards.
pub struct WAVSource {
    pub presentation_descriptor: PresentationDescriptor,
    pub event_queue: EventQueue,
    pub stream: Option<u32>,
    pub parser: Option<WAVParser>,
    pub shutdown: bool,
    pub state: State,
}

impl WAVSource {
    /// A fresh source: stopped, with nothing opened.
    pub fn new() -> (r: WAVSource)
        ensures
            r.presentation_descriptor.streams@.len() == 0,
            r.event_queue.events@.len() == 0,
            r.stream is None,
            r.parser is None,
            !r.shutdown,
            r.state == State::Stopped,
    {
        WAVSource {
            presentation_descriptor: PresentationDescriptor::new(),
            event_queue: EventQueue::new(),
            stream: None,
            parser: None,
            shutdown: false,
            state: State::Stopped,
        }
    }

    /// Fails with `Shutdown` once the source was shut down.
    fn check_shutdown(&self) -> (r: Result<(), Fault>)
        ensures
            self.shutdown ==> r == Err::<(), Fault>(Fault::Shutdown),
            !self.shutdown ==> r is Ok,
    {
        if self.shutdown {
            Err(Fault::Shutdown)
        } else {
            Ok(())
        }
    }

    /// Removes and returns the source's oldest event; fails with `Shutdown`
    /// after shutdown.
    pub fn dequeue_event(&mut self) -> (r: Result<Option<Event>, Fault>)
        ensures
            old(self).shutdown ==> r == Err::<Option<Event>, Fault>(Fault::Shutdown) && *final(self)
                == *old(self),
            !old(self).shutdown ==> {
                &&& final(self).event_queue.events@ == old(self).event_queue.events@.skip(
                    if old(self).event_queue.events@.len() > 0 {
                        1int
                    } else {
                        0int
                    },
                )
                &&& r == Ok::<Option<Event>, Fault>(
                    if old(self).event_queue.events@.len() > 0 {
                        Option::Some(old(self).event_queue.events@[0])
                    } else {
                        Option::None
                    },
                )
                &&& *final(self) == (WAVSource { event_queue: final(self).event_queue, ..*old(self) })
            },
    {
        self.check_shutdown()?;
        proof {
            if old(self).event_queue.events@.len() == 0 {
                assert(old(self).event_queue.events@.skip(0) =~= old(self).event_queue.events@);
            }
        }
        Ok(self.event_queue.dequeue_event())
    }

    /// Appends an event to the source's queue; fails with `Shutdown` after
    /// shutdown.
    pub fn enqueue_event(&mut self, event: Event) -> (r: Result<(), Fault>)
        ensures
            old(self).shutdown ==> r == Err::<(), Fault>(Fault::Shutdown) && *final(self) == *old(self),
            !old(self).shutdown ==> {
                &&& r is Ok
                &&& final(self).event_queue.events@ == old(self).event_queue.events@.push(event)
                &&& *final(self) == (WAVSource { event_queue: final(self).event_queue, ..*old(self) })
            },
    {
        self.check_shutdown()?;
        self.event_queue.enqueue_event(event);
        Ok(())
    }

    /// The source's stream list.
    pub fn presentation_descriptor(&self) -> (r: Result<&PresentationDescriptor, Fault>)
        ensures
            self.shutdown ==> r == Err::<&PresentationDescriptor, Fault>(Fault::Shutdown),
            !self.shutdown ==> r == Ok::<&PresentationDescriptor, Fault>(
                &self.presentation_descriptor,
            ),
    {
        self.check_shutdown()?;
        Ok(&self.presentation_descriptor)
    }

    /// What this source can do: pause and seek, but not run live.
    pub fn characteristics(&self) -> (r: Result<SourceCharacteristics, Fault>)
        ensures
            self.shutdown ==> r == Err::<SourceCharacteristics, Fault>(Fault::Shutdown),
            !self.shutdown ==> r == Ok::<SourceCharacteristics, Fault>(
                SourceCharacteristics { live: false, seek: true, pause: true },
            ),
    {
        self.check_shutdown()?;
        Ok(SourceCharacteristics { pause: true, seek: true, live: false })
    }

    /// Starts delivery; fails only after shutdown.
    pub fn start(&mut self) -> (r: Result<(), Fault>)
        ensures
            old(self).shutdown ==> r == Err::<(), Fault>(Fault::Shutdown) && *final(self) == *old(self),
            !old(self).shutdown ==> r is Ok && *final(self) == (WAVSource {
                state: State::Started,
                ..*old(self)
            }),
    {
        self.check_shutdown()?;
        self.state = State::Started;
        Ok(())
    }

    /// Pauses delivery; allowed only while started.
    pub fn pause(&mut self) -> (r: Result<(), Fault>)
        ensures
            old(self).shutdown ==> r == Err::<(), Fault>(Fault::Shutdown) && *final(self) == *old(self),
            (!old(self).shutdown && old(self).state != State::Started) ==> r == Err::<(), Fault>(
                Fault::BadState,
            ) && *final(self) == *old(self),
            (!old(self).shutdown && old(self).state == State::Started) ==> r is Ok && *final(self)
                == (WAVSource { state: State::Paused, ..*old(self) }),
    {
        self.check_shutdown()?;

        if self.state != State::Started {
            return Err(Fault::BadState);
        }

        self.state = State::Paused;
        Ok(())
    }

    /// Stops delivery, from any state.
    pub fn stop(&mut self) -> (r: Result<(), Fault>)
        ensures
            old(self).shutdown ==> r == Err::<(), Fault>(Fault::Shutdown) && *final(self) == *old(self),
            !old(self).shutdown ==> r is Ok && *final(self) == (WAVSource {
                state: State::Stopped,
                ..*old(self)
            }),
    {
        self.check_shutdown()?;
        self.state = State::Stopped;
        Ok(())
    }

    /// Opens the WAV container held in `data`: reads the header up to the
    /// data chunk, then validates the format block. May be called only once;
    /// a second call fails with `BadState`. A container whose outer header
    /// is wrong fails as the header reader does, before a parser exists; a
    /// container without a reachable data chunk fails and keeps the spent
    /// parser; a format block that fails validation shuts the source down
    /// and returns the validation fault.
    #[verifier::rlimit(100)]
    pub fn open(&mut self, data: Vec<u8>) -> (r: Result<(), Fault>)
        ensures
            ({
                let d = data@;
                let csize = le32_at(d, 4) + 8;
                let wave_ok = 20 <= d.len() && be32_at(d, 0) == FOURCC_RIFF && le32_at(d, 4) + 8
                    <= usize::MAX && be32_at(d, 8) == FOURCC_WAVE;
                &&& old(self).shutdown ==> r == Err::<(), Fault>(Fault::Shutdown) && *final(self)
                    == *old(self)
                &&& (!old(self).shutdown && old(self).parser is Some) ==> r == Err::<(), Fault>(
                    Fault::BadState,
                ) && *final(self) == *old(self)
                &&& (!old(self).shutdown && old(self).parser is None) ==> {
                    &&& !wave_ok ==> r is Err && *final(self) == *old(self)
                    &&& wave_ok ==> {
                        &&& !(exists|k: nat|
                            header_path_ok(d, 0, csize, 0, k, Format::Unset)) ==> {
                            &&& r is Err
                            &&& final(self).parser is Some
                            &&& !final(self).shutdown
                            &&& *final(self) == (WAVSource {
                                parser: final(self).parser,
                                ..*old(self)
                            })
                        }
                        &&& (exists|k: nat| header_path_ok(d, 0, csize, 0, k, Format::Unset))
                            ==> exists|big_k: nat, fv: Format|
                            #[trigger] open_outcome(d, big_k, fv, r, *old(self), *final(self))
                    }
                }
            }),
    {
        let ghost d = data@;

        self.check_shutdown()?;

        match self.parser {
            None => (),
            Some(_) => {
                // The container may be opened only once.
                return Err(Fault::BadState);
            },
        }

        let parser = match WAVParser::new(ByteStream::new(data)) {
            Ok(parser) => parser,
            Err(e) => {
                return Err(e);
            },
        };
        self.parser = Some(parser);

        let parse_result = match &mut self.parser {
            Some(parser) => parser.parse_wave_header(),
            None => Err(Fault::BadState),
        };
        match parse_result {
            Ok(_) => (),
            Err(e) => {
                return Err(e);
            },
        }

        self.finish_open(Ghost(d), Ghost(*old(self)))
    }

    /// The tail of `open`: the header was read and the cursor stands on the
    /// data chunk; validate the format and settle the source's fate.
    fn finish_open(&mut self, Ghost(d): Ghost<Seq<u8>>, Ghost(orig): Ghost<WAVSource>) -> (r:
        Result<(), Fault>)
        requires
            !old(self).shutdown,
            *old(self) == (WAVSource { parser: old(self).parser, ..orig }),
            old(self).parser matches Option::Some(p) && {
                &&& p.riff.wf()
                &&& p.riff.stream.data@ == d
                &&& p.riff.container_offset == 0
                &&& p.riff.container_size == le32_at(d, 4) + 8
                &&& header_path_ok(
                    d,
                    0,
                    le32_at(d, 4) + 8,
                    0,
                    p.riff.index@,
                    Format::Unset,
                )
                &&& is_data_chunk(d, 0, p.riff.index@)
                &&& p.riff.bytes_remaining == p.riff.current_chunk.size
                &&& p.riff.stream.pos == chunk_start(d, 0, p.riff.index@) + 8
                &&& (forall|j: nat|
                    j < p.riff.index@ && is_fmt_chunk(d, 0, j) ==> fmt_matches(p.format, d, 0, j))
                &&& ((forall|j: nat| j < p.riff.index@ ==> !is_fmt_chunk(d, 0, j)) ==> p.format
                    is Unset)
            },
        ensures
            exists|big_k: nat, fv: Format|
                #[trigger] open_outcome(d, big_k, fv, r, orig, *final(self)),
    {
        let ghost psnap = self.parser->Some_0;
        let ghost big_k = psnap.riff.index@;
        let ghost fv = psnap.format;
        proof {
            if !(forall|j: nat| j < big_k ==> !is_fmt_chunk(d, 0, j)) {
                let j = choose|j: nat| j < big_k && is_fmt_chunk(d, 0, j);
                assert(j < big_k && is_fmt_chunk(d, 0, j) && fmt_matches(fv, d, 0, j));
            }
            assert(format_from(d, big_k, fv));
        }

        match self.validate_wave_format() {
            Ok(_) => {
                proof {
                    assert(open_outcome(d, big_k, fv, Result::<(), Fault>::Ok(()), orig, *self));
                }
                Ok(())
            },
            Err(e) => {
                let _ = self.shutdown();
                proof {
                    assert(open_outcome(d, big_k, fv, Result::<(), Fault>::Err(e), orig, *self));
                }
                Err(e)
            },
        }
    }

    /// Holds the parsed format block against what the library supports; the
    /// fault returned is the first check that fails, as `validate_spec`
    /// orders them.
    fn validate_wave_format(&self) -> (r: Result<(), Fault>)
        ensures
            self.parser is None ==> r == Err::<(), Fault>(Fault::BadState),
            self.parser matches Option::Some(p) ==> match validate_spec(p.format) {
                Option::None => r is Ok,
                Option::Some(fault) => r == Err::<(), Fault>(fault),
            },
    {
        let parser = match &self.parser {
            Some(parser) => parser,
            None => {
                return Err(Fault::BadState);
            },
        };

        let (format, extensible) = match &parser.format {
            Format::Unset => {
                return Err(Fault::BadState);
            },
            Format::Ex(format) => {
                match format.format_tag {
                    WAVE_FORMAT_PCM | WAVE_FORMAT_IEEE_FLOAT | WAVE_FORMAT_ALAW
                    | WAVE_FORMAT_MULAW => (format, false),
                    _ => {
                        return Err(Fault::UnsupportedFormat);
                    },
                }
            },
            Format::Extensible(format, _) => (format, true),
        };

        match format.channels {
            1 | 2 => (),
            _ => {
                return Err(Fault::UnsupportedChannels);
            },
        }

        if !extensible {
            match format.bits_per_sample {
                8 | 16 => (),
                32 | 64 => {
                    if format.format_tag != WAVE_FORMAT_IEEE_FLOAT {
                        return Err(Fault::UnsupportedBits);
                    }
                },
                _ => {
                    return Err(Fault::UnsupportedBits);
                },
            }
        }

        if (format.block_align as u32) != (format.channels as u32) * ((format.bits_per_sample
            as u32) / 8) {
            return Err(Fault::BadBlockAlign);
        }

        let rate = format.samples_per_second as u64;
        let block = format.block_align as u64;
        proof {
            assert(rate * block <= 0xFFFF_FFFFu64 * 0xFFFFu64) by (nonlinear_arith)
                requires
                    rate <= 0xFFFF_FFFF,
                    block <= 0xFFFF,
            ;
        }
        if (format.average_bytes_per_second as u64) != rate * block {
            return Err(Fault::BadByteRate);
        }

        Ok(())
    }

    /// Builds the source's single stream from the parsed format and
    /// registers its descriptor; fails as the stream's constructor does, and
    /// with `Shutdown` after shutdown.
    pub fn create_stream(&mut self) -> (r: Result<WAVStreamSource, Fault>)
        ensures
            old(self).shutdown ==> r == Err::<WAVStreamSource, Fault>(Fault::Shutdown) && *final(self) == *old(self),
            !old(self).shutdown ==> match old(self).parser {
                Option::None => r == Err::<WAVStreamSource, Fault>(Fault::BadState) && *final(self)
                    == *old(self),
                Option::Some(p) => match stream_type_of(p.format) {
                    Result::Ok(st) => {
                        &&& r matches Ok(s) && fresh_stream(s, st)
                        &&& final(self).presentation_descriptor.streams@ == old(self).presentation_descriptor.streams@.push(
                            StreamDescriptor { selected: true, identifier: 0, stream_type: st },
                        )
                        &&& *final(self) == (WAVSource {
                            presentation_descriptor: final(self).presentation_descriptor,
                            ..*old(self)
                        })
                    },
                    Result::Err(fault) => r == Err::<WAVStreamSource, Fault>(fault) && *final(self)
                        == *old(self),
                },
            },
    {
        self.check_shutdown()?;

        let stream = WAVStreamSource::new(self)?;
        self.presentation_descriptor.add_stream(stream.descriptor);
        Ok(stream)
    }

    /// Shuts the source down for good, releasing the parser and the stream
    /// reference; every later operation fails with `Shutdown`, this one
    /// included.
    pub fn shutdown(&mut self) -> (r: Result<(), Fault>)
        ensures
            old(self).shutdown ==> r == Err::<(), Fault>(Fault::Shutdown) && *final(self) == *old(self),
            !old(self).shutdown ==> {
                &&& r is Ok
                &&& final(self).shutdown
                &&& final(self).parser is None
                &&& final(self).stream is None
                &&& *final(self) == (WAVSource {
                    shutdown: true,
                    parser: Option::None,
                    stream: Option::None,
                    ..*old(self)
                })
            },
    {
        self.check_shutdown()?;

        self.stream = None;
        self.parser = None;
        self.shutdown = true;

        Ok(())
    }
}


/// The single stream a WAV source offers: pulls block-aligned byte runs out
/// of the source's data chunk and turns each into a sample event on its own
/// queue, deferring samples to an internal queue while the source is paused.
pub struct WAVStreamSource {
    pub shutdown: bool,
    pub current_position: u64,
    pub discontinuity: bool,
    pub end_of_stream: bool,
    pub descriptor: StreamDescriptor,
    pub event_queue: EventQueue,
    pub sample_queue: SampleQueue,
}

impl WAVStreamSource {
    /// A stream over the format `source`'s parser holds: selected, with
    /// identifier zero, and the stream type the format denotes. Fails with
    /// `BadState` when nothing was opened, and as the format derivation does
    /// on a format the library does not play.
    pub fn new(source: &WAVSource) -> (r: Result<WAVStreamSource, Fault>)
        ensures
            match source.parser {
                Option::None => r == Err::<WAVStreamSource, Fault>(Fault::BadState),
                Option::Some(p) => match stream_type_of(p.format) {
                    Result::Ok(st) => r matches Ok(s) && fresh_stream(s, st),
                    Result::Err(fault) => r == Err::<WAVStreamSource, Fault>(fault),
                },
            },
    {
        let parser = match &source.parser {
            Some(parser) => parser,
            None => {
                return Err(Fault::BadState);
            },
        };

        let (format, sample_type) = match &parser.format {
            Format::Ex(format) => {
                let sample_type = match format.format_tag {
                    WAVE_FORMAT_PCM => SampleType::Signed(format.bits_per_sample as u32),
                    WAVE_FORMAT_IEEE_FLOAT => SampleType::Float(format.bits_per_sample as u32),
                    _ => {
                        return Err(Fault::UnsupportedFormat);
                    },
                };
                (format, sample_type)
            },
            Format::Extensible(format, ex) => {
                if ex.sub_format.len() < 2 {
                    return Err(Fault::UnsupportedFormat);
                }
                let tag: u16 = (ex.sub_format[0] as u16) + (ex.sub_format[1] as u16) * 0x100;
                let sample_type = match tag {
                    WAVE_FORMAT_PCM => SampleType::Signed(format.bits_per_sample as u32),
                    WAVE_FORMAT_IEEE_FLOAT => SampleType::Float(format.bits_per_sample as u32),
                    WAVE_FORMAT_ALAW => {
                        if format.bits_per_sample != 8 {
                            return Err(Fault::UnsupportedBits);
                        }
                        SampleType::ALaw
                    },
                    WAVE_FORMAT_MULAW => {
                        if format.bits_per_sample != 8 {
                            return Err(Fault::UnsupportedBits);
                        }
                        SampleType::MuLaw
                    },
                    _ => {
                        return Err(Fault::UnsupportedFormat);
                    },
                };
                (format, sample_type)
            },
            Format::Unset => {
                return Err(Fault::BadState);
            },
        };

        let audio_format = AudioFormat {
            sample_rate: format.samples_per_second,
            channels: format.channels as u32,
        };
        let pcm_format = PCMFormat { sample_type, endian: Endian::LittleEndian };
        let descriptor = StreamDescriptor::new(
            true,
            0,
            StreamType::AudioStream(AudioSubtype::PCMStream(pcm_format), audio_format),
        );

        Ok(
            WAVStreamSource {
                shutdown: false,
                current_position: 0,
                discontinuity: false,
                end_of_stream: false,
                descriptor,
                event_queue: EventQueue::new(),
                sample_queue: SampleQueue::new(),
            },
        )
    }

    /// Fails with `Shutdown` once the stream was shut down.
    fn check_shutdown(&self) -> (r: Result<(), Fault>)
        ensures
            self.shutdown ==> r == Err::<(), Fault>(Fault::Shutdown),
            !self.shutdown ==> r is Ok,
    {
        if self.shutdown {
            Err(Fault::Shutdown)
        } else {
            Ok(())
        }
    }

    /// Removes and returns the stream's oldest event.
    pub fn dequeue_event(&mut self) -> (r: Option<Event>)
        ensures
            old(self).event_queue.events@.len() == 0 ==> {
                &&& r is None
                &&& *final(self) == *old(self)
            },
            old(self).event_queue.events@.len() > 0 ==> {
                &&& r == Some(old(self).event_queue.events@[0])
                &&& final(self).event_queue.events@ == old(self).event_queue.events@.skip(1)
                &&& *final(self) == (WAVStreamSource {
                    event_queue: final(self).event_queue,
                    ..*old(self)
                })
            },
    {
        self.event_queue.dequeue_event()
    }

    /// Appends an event to the stream's queue.
    pub fn enqueue_event(&mut self, event: Event) -> (r: Result<(), Fault>)
        ensures
            r is Ok,
            final(self).event_queue.events@ == old(self).event_queue.events@.push(event),
            *final(self) == (WAVStreamSource { event_queue: final(self).event_queue, ..*old(self) }),
    {
        self.event_queue.enqueue_event(event);
        Ok(())
    }

    /// The stream's descriptor; fails with `Shutdown` after shutdown.
    pub fn descriptor(&self) -> (r: Result<StreamDescriptor, Fault>)
        ensures
            self.shutdown ==> r == Err::<StreamDescriptor, Fault>(Fault::Shutdown),
            !self.shutdown ==> r == Ok::<StreamDescriptor, Fault>(self.descriptor),
    {
        self.check_shutdown()?;
        Ok(self.descriptor)
    }

    /// Marks the stream finished and announces it when the data chunk holds
    /// less than one more block.
    fn check_end_of_stream(&mut self, source: &WAVSource) -> (r: Result<(), Fault>)
        ensures
            ({
                match source.parser {
                    Option::None => r == Err::<(), Fault>(Fault::BadState) && *final(self) == *old(self),
                    Option::Some(p) => match format_of(p.format) {
                        Option::None => r == Err::<(), Fault>(Fault::BadState) && *final(self)
                            == *old(self),
                        Option::Some(wf) => {
                            &&& r is Ok
                            &&& p.riff.bytes_remaining >= wf.block_align ==> *final(self) == *old(self)
                            &&& p.riff.bytes_remaining < wf.block_align ==> {
                                &&& final(self).end_of_stream
                                &&& final(self).event_queue.events@.len() == old(self).event_queue.events@.len() + 1
                                &&& final(self).event_queue.events@.take(
                                    old(self).event_queue.events@.len() as int,
                                ) == old(self).event_queue.events@
                                &&& is_eos_event(final(self).event_queue.events@.last())
                                &&& *final(self) == (WAVStreamSource {
                                    end_of_stream: true,
                                    event_queue: final(self).event_queue,
                                    ..*old(self)
                                })
                            }
                        },
                    },
                }
            }),
    {
        let parser = match &source.parser {
            Some(parser) => parser,
            None => {
                return Err(Fault::BadState);
            },
        };

        let format = match &parser.format {
            Format::Ex(format) => format,
            Format::Extensible(format, _) => format,
            Format::Unset => {
                return Err(Fault::BadState);
            },
        };

        if parser.riff.bytes_remaining < (format.block_align as usize) {
            // Less than one audio block is left; a well-authored file leaves
            // exactly zero bytes here, but the container may say otherwise.
            self.end_of_stream = true;

            let r = self.enqueue_event(Event::new(EventType::EndOfStream, Ok(())));
            proof {
                assert(final(self).event_queue.events@.take(
                    old(self).event_queue.events@.len() as int,
                ) =~= old(self).event_queue.events@);
            }
            return r;
        }

        Ok(())
    }

    /// Reads the next block-aligned run of bytes from the source's data
    /// chunk into a fresh one-buffer sample tagged with the stream's type.
    #[verifier::rlimit(100)]
    fn create_audio_sample(&mut self, source: &mut WAVSource) -> (r: Result<Sample, Fault>)
        requires
            source_wf(old(source)),
        ensures
            ({
                &&& *final(self) == *old(self)
                &&& source_wf(final(source))
                &&& match old(source).parser {
                    Option::None => r == Err::<Sample, Fault>(Fault::BadState) && *final(source)
                        == *old(source),
                    Option::Some(p0) => match format_of(p0.format) {
                        Option::None => r == Err::<Sample, Fault>(Fault::BadState) && *final(source)
                            == *old(source),
                        Option::Some(wf) => {
                            &&& wf.block_align == 0 ==> r == Err::<Sample, Fault>(
                                Fault::BadBlockAlign,
                            ) && *final(source) == *old(source)
                            &&& wf.block_align > 0 ==> {
                                let n = read_size(
                                    wf.average_bytes_per_second as int,
                                    wf.block_align as int,
                                    p0.riff.bytes_remaining as int,
                                );
                                let d = p0.riff.stream.data@;
                                &&& (p0.riff.stream.pos + n > d.len()) ==> r is Err
                                &&& (p0.riff.stream.pos + n <= d.len()) ==> {
                                    &&& r matches Ok(s) && is_sample_of(
                                        s,
                                        old(self).descriptor.stream_type,
                                        d.subrange(
                                            p0.riff.stream.pos as int,
                                            p0.riff.stream.pos + n,
                                        ),
                                    )
                                    &&& final(source).parser matches Option::Some(p1)
                                    &&& p1.riff.bytes_remaining == p0.riff.bytes_remaining - n
                                    &&& p1.riff.stream.pos == p0.riff.stream.pos + n
                                    &&& p1.riff.stream.data == p0.riff.stream.data
                                    &&& p1.riff == (RIFFParser {
                                        stream: p1.riff.stream,
                                        bytes_remaining: p1.riff.bytes_remaining,
                                        ..p0.riff
                                    })
                                    &&& p1 == (WAVParser { riff: p1.riff, ..p0 })
                                    &&& *final(source) == (WAVSource {
                                        parser: final(source).parser,
                                        ..*old(source)
                                    })
                                }
                            }
                        },
                    },
                }
            }),
    {
        let (avg, ba) = match &source.parser {
            Some(parser) => match &parser.format {
                Format::Ex(format) => (format.average_bytes_per_second, format.block_align),
                Format::Extensible(format, _) => (
                    format.average_bytes_per_second,
                    format.block_align,
                ),
                Format::Unset => {
                    return Err(Fault::BadState);
                },
            },
            None => {
                return Err(Fault::BadState);
            },
        };

        if ba == 0 {
            // A zero block size cannot be aligned to.
            return Err(Fault::BadBlockAlign);
        }

        let aligned = block_align(avg as u64, ba as u64);

        let parser = match &mut source.parser {
            Some(parser) => parser,
            None => {
                return Err(Fault::BadState);
            },
        };

        let remaining = parser.riff.bytes_remaining as u64;
        let buffer_size: usize = if aligned <= remaining {
            aligned as usize
        } else {
            parser.riff.bytes_remaining
        };

        let bytes = parser.riff.read_data_from_chunk(buffer_size)?;

        let mut sample = Sample::new(self.descriptor.stream_type);
        sample.add_buffer(MemoryBuffer::from_bytes(bytes));

        Ok(sample)
    }

    /// Queues the sample as a sample event, then checks for the end of the
    /// stream.
    fn deliver_sample(&mut self, source: &WAVSource, sample: Sample) -> (r: Result<(), Fault>)
        ensures
            ({
                match source.parser {
                    Option::None => r == Err::<(), Fault>(Fault::BadState),
                    Option::Some(p) => match format_of(p.format) {
                        Option::None => r == Err::<(), Fault>(Fault::BadState),
                        Option::Some(wf) => {
                            &&& r is Ok
                            &&& p.riff.bytes_remaining >= wf.block_align ==> {
                                &&& final(self).event_queue.events@ == old(self).event_queue.events@.push(
                                    Event { event_type: EventType::Sample(sample), status: Ok(()) },
                                )
                                &&& final(self).end_of_stream == old(self).end_of_stream
                                &&& *final(self) == (WAVStreamSource {
                                    event_queue: final(self).event_queue,
                                    ..*old(self)
                                })
                            }
                            &&& p.riff.bytes_remaining < wf.block_align ==> {
                                &&& final(self).end_of_stream
                                &&& final(self).event_queue.events@.len() == old(self).event_queue.events@.len() + 2
                                &&& final(self).event_queue.events@.take(
                                    old(self).event_queue.events@.len() as int,
                                ) == old(self).event_queue.events@
                                &&& final(self).event_queue.events@[old(self).event_queue.events@.len() as int] == (Event {
                                    event_type: EventType::Sample(sample),
                                    status: Ok(()),
                                })
                                &&& is_eos_event(final(self).event_queue.events@.last())
                                &&& *final(self) == (WAVStreamSource {
                                    end_of_stream: true,
                                    event_queue: final(self).event_queue,
                                    ..*old(self)
                                })
                            }
                        },
                    },
                }
            }),
    {
        let ghost pre = *self;
        match self.enqueue_event(Event::new(EventType::Sample(sample), Ok(()))) {
            Ok(_) => (),
            Err(e) => {
                return Err(e);
            },
        }
        let ghost mid = *self;

        let r = self.check_end_of_stream(source);
        proof {
            let pn = pre.event_queue.events@.len() as int;
            let mn = mid.event_queue.events@.len() as int;
            if self.event_queue.events@.len() == mn + 1 {
                assert(self.event_queue.events@.take(mn) == mid.event_queue.events@);
                assert(self.event_queue.events@[pn] == self.event_queue.events@.take(mn)[pn]);
                assert(self.event_queue.events@.take(pn) =~= pre.event_queue.events@);
            }
        }
        r
    }

    /// Pulls one sample's worth of bytes from the source's container. While
    /// the source is paused the sample waits on the internal queue;
    /// otherwise it is delivered as a sample event, followed by an
    /// end-of-stream event once less than one block is left. Fails with
    /// `Shutdown` after shutdown, with `EndOfStream` once the end was
    /// reached, with `BadState` when the source has nothing opened, and as
    /// the chunk read does when the container lies about its size.
    #[verifier::rlimit(100)]
    pub fn request_sample(&mut self, source: &mut WAVSource) -> (r: Result<(), Fault>)
        requires
            source_wf(old(source)),
        ensures
            ({
                &&& source_wf(final(source))
                &&& old(self).shutdown ==> {
                    &&& r == Err::<(), Fault>(Fault::Shutdown)
                    &&& *final(self) == *old(self)
                    &&& *final(source) == *old(source)
                }
                &&& (!old(self).shutdown && old(self).end_of_stream) ==> {
                    &&& r == Err::<(), Fault>(Fault::EndOfStream)
                    &&& *final(self) == *old(self)
                    &&& *final(source) == *old(source)
                }
                &&& (!old(self).shutdown && !old(self).end_of_stream) ==> match old(source).parser {
                    Option::None => {
                        &&& r == Err::<(), Fault>(Fault::BadState)
                        &&& *final(self) == *old(self)
                        &&& *final(source) == *old(source)
                    },
                    Option::Some(p0) => match format_of(p0.format) {
                        Option::None => {
                            &&& r == Err::<(), Fault>(Fault::BadState)
                            &&& *final(self) == *old(self)
                            &&& *final(source) == *old(source)
                        },
                        Option::Some(wf) => {
                            &&& wf.block_align == 0 ==> {
                                &&& r == Err::<(), Fault>(Fault::BadBlockAlign)
                                &&& *final(self) == *old(self)
                                &&& *final(source) == *old(source)
                            }
                            &&& wf.block_align > 0 ==> {
                                let n = read_size(
                                    wf.average_bytes_per_second as int,
                                    wf.block_align as int,
                                    p0.riff.bytes_remaining as int,
                                );
                                let d = p0.riff.stream.data@;
                                let bytes = d.subrange(
                                    p0.riff.stream.pos as int,
                                    p0.riff.stream.pos + n,
                                );
                                &&& (p0.riff.stream.pos + n > d.len()) ==> r is Err && *final(self)
                                    == *old(self)
                                &&& (p0.riff.stream.pos + n <= d.len()) ==> {
                                    &&& r is Ok
                                    &&& final(source).parser matches Option::Some(p1)
                                    &&& p1.riff.bytes_remaining == p0.riff.bytes_remaining - n
                                    &&& p1.riff.stream.pos == p0.riff.stream.pos + n
                                    &&& p1.riff.stream.data == p0.riff.stream.data
                                    &&& p1.riff == (RIFFParser {
                                        stream: p1.riff.stream,
                                        bytes_remaining: p1.riff.bytes_remaining,
                                        ..p0.riff
                                    })
                                    &&& p1 == (WAVParser { riff: p1.riff, ..p0 })
                                    &&& *final(source) == (WAVSource {
                                        parser: final(source).parser,
                                        ..*old(source)
                                    })
                                    &&& old(source).state == State::Paused ==> {
                                        &&& final(self).sample_queue.samples@.len() == old(self).sample_queue.samples@.len() + 1
                                        &&& final(self).sample_queue.samples@.take(
                                            old(self).sample_queue.samples@.len() as int,
                                        ) == old(self).sample_queue.samples@
                                        &&& is_sample_of(
                                            final(self).sample_queue.samples@.last(),
                                            old(self).descriptor.stream_type,
                                            bytes,
                                        )
                                        &&& !final(self).end_of_stream
                                        &&& *final(self) == (WAVStreamSource {
                                            sample_queue: final(self).sample_queue,
                                            ..*old(self)
                                        })
                                    }
                                    &&& old(source).state != State::Paused ==> {
                                        &&& final(self).event_queue.events@.len() > old(self).event_queue.events@.len()
                                        &&& final(self).event_queue.events@.take(
                                            old(self).event_queue.events@.len() as int,
                                        ) == old(self).event_queue.events@
                                        &&& is_sample_event(
                                            final(self).event_queue.events@[old(self).event_queue.events@.len() as int],
                                            old(self).descriptor.stream_type,
                                            bytes,
                                        )
                                        &&& (p0.riff.bytes_remaining - n >= wf.block_align) ==> {
                                            &&& final(self).event_queue.events@.len() == old(self).event_queue.events@.len() + 1
                                            &&& final(self).end_of_stream == old(self).end_of_stream
                                        }
                                        &&& (p0.riff.bytes_remaining - n < wf.block_align) ==> {
                                            &&& final(self).event_queue.events@.len() == old(self).event_queue.events@.len() + 2
                                            &&& is_eos_event(final(self).event_queue.events@.last())
                                            &&& final(self).end_of_stream
                                        }
                                        &&& *final(self) == (WAVStreamSource {
                                            event_queue: final(self).event_queue,
                                            end_of_stream: final(self).end_of_stream,
                                            ..*old(self)
                                        })
                                    }
                                }
                            }
                        },
                    },
                }
            }),
    {
        self.check_shutdown()?;

        if self.end_of_stream {
            return Err(Fault::EndOfStream);
        }

        let state = source.state;

        let sample = self.create_audio_sample(source)?;

        if state == State::Paused {
            self.sample_queue.enqueue_sample(sample);
            proof {
                assert(final(self).sample_queue.samples@.take(
                    old(self).sample_queue.samples@.len() as int,
                ) =~= old(self).sample_queue.samples@);
            }
            Ok(())
        } else {
            self.deliver_sample(source, sample)
        }
    }
}

} // verus!
