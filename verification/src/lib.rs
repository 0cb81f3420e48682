//! A small media pipeline library: RIFF/WAV container parsing, pull-based
//! source/sink stages driven by event queues, and PCM sample-format
//! conversion through an IEEE-754 double-precision intermediate, modelled
//! here at the bit level.

pub mod align;
pub mod bitstream;
pub mod buffers;
pub mod bytecodec;
pub mod byteswap;
pub mod bytestream;
pub mod events;
pub mod fault;
pub mod floatbits;
pub mod pcm;
pub mod refcount;
pub mod riff;
pub mod roundtrip;
pub mod samples;
pub mod samplestream;
pub mod sink;
pub mod source;
pub mod types;
pub mod wav;
pub mod wavsource;
