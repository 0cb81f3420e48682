//! The error taxonomy shared by every pipeline stage.

use vstd::prelude::*;

verus! {

/// Why an operation failed. Every fallible operation of the library returns
/// `Result<_, Fault>`; no error carries a message. Structural corruption in a
/// container is unrecoverable for that parser instance; only `EndOfStream`
/// (expected termination) and `Busy` (transform backpressure) are meant to be
/// handled by a caller and retried or treated as normal control flow.
#[derive(Clone, Copy, Debug, PartialEq, Eq, Structural)]
pub enum Fault {
    /// A container structure sat at an odd byte offset.
    BadAlignment,
    /// A four-byte identifier did not match the one expected.
    IdMismatch,
    /// A RIFF container whose list type is not the one the caller expected.
    WrongContainerType,
    /// A chunk's declared size overflows the bytes left in its container.
    ChunkOverflow,
    /// The cursor moved past the last chunk of the container.
    EndOfContainer,
    /// The underlying byte stream ended before a structure was complete.
    Truncated,
    /// A read asked for more bytes than the current chunk still holds.
    OutOfRange,
    /// A format tag or sample encoding the library does not handle.
    UnsupportedFormat,
    /// A channel count other than one or two.
    UnsupportedChannels,
    /// A bit width not valid for the declared format tag.
    UnsupportedBits,
    /// A `block_align` field that is not `channels * bytes_per_sample`.
    BadBlockAlign,
    /// An `average_bytes_per_second` field that is not `rate * block_align`.
    BadByteRate,
    /// The operation is not permitted in the stage's current state.
    BadState,
    /// The stage was shut down; no further operation succeeds.
    Shutdown,
    /// The end of the sample data was already reached.
    EndOfStream,
    /// The stage holds a pending sample and accepts no more input now.
    Busy,
    /// A caller broke a documented obligation, such as registering the same
    /// stream twice or converting through an unset format.
    Precondition,
}

} // verus!
