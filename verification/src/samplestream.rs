//! A byte reader over queued samples: parsers can consume sample data as a
//! stream without it ever living in one flat buffer. Reads are served from
//! one buffer of the current sample; a read that would cross a buffer
//! boundary is not carried.

use vstd::prelude::*;

use crate::bytestream::{Read, ReadFailure};
use crate::samples::{Sample, SampleQueue};

verus! {

/// A read cursor over a queue of samples: `offset` counts the bytes handed
/// out so far, `buffer` names the buffer of the current sample being read.
pub struct SampleStream {
    pub offset: u64,
    pub buffer: usize,
    pub current_sample: Option<Sample>,
    pub sample_queue: SampleQueue,
}

impl SampleStream {
    /// An empty stream with nothing queued.
    pub fn new() -> (r: SampleStream)
        ensures
            r.offset == 0,
            r.buffer == 0,
            r.current_sample is None,
            r.sample_queue.samples@.len() == 0,
    {
        SampleStream { offset: 0, buffer: 0, current_sample: None, sample_queue: SampleQueue::new() }
    }

    /// Queues a sample behind the ones already waiting.
    pub fn enqueue_sample(&mut self, sample: Sample)
        ensures
            final(self).sample_queue.samples@ == old(self).sample_queue.samples@.push(sample),
            *final(self) == (SampleStream { sample_queue: final(self).sample_queue, ..*old(self) }),
    {
        self.sample_queue.enqueue_sample(sample);
    }
}

impl Read for SampleStream {
    /// Reads `length` bytes out of the current sample's buffer, pulling the
    /// next queued sample when none is current. The offset always advances
    /// by `length`, even on failure, as a consumed-byte count.
    ///
    /// Fails with `EndOfStream` when no sample is available (carrying the
    /// wrapped difference of the old and new offsets), and with
    /// `UnknownError` when the buffer index is out of the sample or the
    /// read would run past the buffer's end — reads across buffer
    /// boundaries are not carried.
    fn read(&mut self, length: usize) -> (r: Result<Vec<u8>, ReadFailure>)
        ensures
            ({
                let cur = if old(self).current_sample is Some {
                    old(self).current_sample
                } else if old(self).sample_queue.samples@.len() > 0 {
                    Option::Some(old(self).sample_queue.samples@[0])
                } else {
                    Option::None
                };
                &&& final(self).offset == if old(self).offset + length <= u64::MAX {
                    (old(self).offset + length) as u64
                } else {
                    u64::MAX
                }
                &&& final(self).buffer == old(self).buffer
                &&& final(self).current_sample == cur
                &&& final(self).sample_queue.samples@ == if old(self).current_sample is None && old(
                    self,
                ).sample_queue.samples@.len() > 0 {
                    old(self).sample_queue.samples@.skip(1)
                } else {
                    old(self).sample_queue.samples@
                }
                &&& match cur {
                    Option::None => r == Err::<Vec<u8>, ReadFailure>(
                        ReadFailure::EndOfStream(
                            if length == 0 {
                                0u64
                            } else {
                                (0x1_0000_0000_0000_0000 - length) as u64
                            },
                        ),
                    ),
                    Option::Some(s) => {
                        if old(self).buffer < s.buffers@.len() && old(self).offset + length
                            <= s.buffers@[old(self).buffer as int].data@.len() {
                            r matches Ok(bytes) && bytes@ == s.buffers@[old(
                                self,
                            ).buffer as int].data@.subrange(
                                old(self).offset as int,
                                old(self).offset + length,
                            )
                        } else {
                            r == Err::<Vec<u8>, ReadFailure>(ReadFailure::UnknownError)
                        }
                    },
                }
            }),
    {
        let offset = self.offset;

        if length as u64 > u64::MAX - self.offset {
            // A read this large cannot lie within any buffer; the offset
            // pins at the top as a saturated consumed-byte count.
            self.offset = u64::MAX;
        } else {
            self.offset = self.offset + (length as u64);
        }

        if self.current_sample.is_none() {
            self.current_sample = self.sample_queue.dequeue_sample();
        }

        let sample = match &self.current_sample {
            None => {
                let wrapped: u64 = if length == 0 {
                    0
                } else {
                    u64::MAX - (length as u64) + 1
                };
                return Err(ReadFailure::EndOfStream(wrapped));
            },
            Some(sample) => sample,
        };

        if self.buffer >= sample.buffers.len() {
            return Err(ReadFailure::UnknownError);
        }

        let buf = &sample.buffers[self.buffer];
        if length > buf.data.len() || offset > (buf.data.len() - length) as u64 {
            // The read would cross the buffer's end; that is not carried.
            return Err(ReadFailure::UnknownError);
        }

        let start = offset as usize;
        let mut bytes: Vec<u8> = Vec::new();
        let mut i: usize = 0;
        while i < length
            invariant
                i <= length,
                start + length <= buf.data@.len(),
                buf.data@.len() <= usize::MAX,
                bytes@ == buf.data@.subrange(start as int, start + i),
            decreases length - i,
        {
            bytes.push(buf.data[start + i]);
            i += 1;
            proof {
                assert(bytes@ =~= buf.data@.subrange(start as int, start + i));
            }
        }

        Ok(bytes)
    }
}

} // verus!
