//! Samples — the units of audio data the pipeline moves — and their FIFO
//! queue.

use vstd::prelude::*;

use crate::buffers::MemoryBuffer;
use crate::types::StreamType;

verus! {

/// One unit of audio data: an ordered list of buffers tagged with the format
/// of the stream it came from.
#[derive(Clone, Debug)]
pub struct Sample {
    pub stream_type: StreamType,
    pub buffers: Vec<MemoryBuffer>,
    pub end_of_stream: bool,
}

impl Sample {
    /// An empty sample of the given stream type.
    pub fn new(stream_type: StreamType) -> (r: Sample)
        ensures
            r.stream_type == stream_type,
            r.buffers@.len() == 0,
            !r.end_of_stream,
    {
        Sample { stream_type, buffers: Vec::new(), end_of_stream: false }
    }

    /// Appends a buffer to the sample.
    pub fn add_buffer(&mut self, buffer: MemoryBuffer)
        ensures
            final(self).buffers@ == old(self).buffers@.push(buffer),
            final(self).stream_type == old(self).stream_type,
            final(self).end_of_stream == old(self).end_of_stream,
    {
        self.buffers.push(buffer);
    }

    /// How many buffers the sample holds.
    pub fn length(&self) -> (r: usize)
        ensures
            r == self.buffers@.len(),
    {
        self.buffers.len()
    }

    /// The buffer at position `i`.
    pub fn buffer(&self, i: usize) -> (r: &MemoryBuffer)
        requires
            i < self.buffers@.len(),
        ensures
            r == &self.buffers@[i as int],
    {
        &self.buffers[i]
    }

    /// Drops every buffer, keeping the tag, for reuse patterns.
    pub fn remove_all_buffers(&mut self)
        ensures
            final(self).buffers@.len() == 0,
            final(self).stream_type == old(self).stream_type,
            final(self).end_of_stream == old(self).end_of_stream,
    {
        self.buffers.clear();
    }
}

/// A FIFO queue of samples: insertion order is removal order.
#[derive(Clone, Debug)]
pub struct SampleQueue {
    pub samples: Vec<Sample>,
}

impl SampleQueue {
    /// An empty queue.
    pub fn new() -> (r: SampleQueue)
        ensures
            r.samples@.len() == 0,
    {
        SampleQueue { samples: Vec::new() }
    }

    /// Removes and returns the oldest sample, or nothing when the queue is
    /// empty.
    pub fn dequeue_sample(&mut self) -> (r: Option<Sample>)
        ensures
            old(self).samples@.len() == 0 ==> {
                &&& r is None
                &&& *final(self) == *old(self)
            },
            old(self).samples@.len() > 0 ==> {
                &&& r == Some(old(self).samples@[0])
                &&& final(self).samples@ == old(self).samples@.skip(1)
            },
    {
        if self.samples.len() == 0 {
            None
        } else {
            let s = self.samples.remove(0);
            proof {
                assert(final(self).samples@ =~= old(self).samples@.skip(1));
            }
            Some(s)
        }
    }

    /// Appends a sample behind the newest one.
    pub fn enqueue_sample(&mut self, sample: Sample)
        ensures
            final(self).samples@ == old(self).samples@.push(sample),
    {
        self.samples.push(sample);
    }
}

} // verus!
