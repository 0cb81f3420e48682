//! Stream and sample format descriptors.

use vstd::prelude::*;

verus! {

/// Byte order of the samples inside a buffer.
#[derive(Clone, Copy, Debug, PartialEq, Eq, Structural)]
pub enum Endian {
    BigEndian,
    LittleEndian,
}

/// The encoding of one audio sample. The integer carried by `Float`,
/// `Signed` and `Unsigned` is the storage width in bits.
#[derive(Clone, Copy, Debug, PartialEq, Eq, Structural)]
pub enum SampleType {
    Float(u32),
    Signed(u32),
    Unsigned(u32),
    ALaw,
    MuLaw,
}

/// A PCM sample encoding: a sample type together with its byte order.
#[derive(Clone, Copy, Debug, PartialEq, Eq, Structural)]
pub struct PCMFormat {
    pub sample_type: SampleType,
    pub endian: Endian,
}

/// Codec-level description of an audio stream. Only PCM is implemented.
#[derive(Clone, Copy, Debug, PartialEq, Eq, Structural)]
pub enum AudioSubtype {
    PCMStream(PCMFormat),
    FLACStream,
}

/// Rate and channel layout shared by every audio subtype.
#[derive(Clone, Copy, Debug, PartialEq, Eq, Structural)]
pub struct AudioFormat {
    pub sample_rate: u32,
    pub channels: u32,
}

/// What flows through a stream. `BinaryStream` doubles as the
/// "not yet negotiated" sentinel.
#[derive(Clone, Copy, Debug, PartialEq, Eq, Structural)]
pub enum StreamType {
    AudioStream(AudioSubtype, AudioFormat),
    BinaryStream,
}

} // verus!
