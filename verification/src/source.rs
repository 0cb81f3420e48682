//! Playback state, capability descriptors, and the stream descriptors a
//! source publishes.

use vstd::prelude::*;

use crate::types::StreamType;

verus! {

/// The playback state of a source: stopped initially, started on demand,
/// paused only from started.
#[derive(Clone, Copy, Debug, PartialEq, Eq, Structural)]
pub enum State {
    Started,
    Paused,
    Stopped,
}

/// What a source can do.
#[derive(Clone, Copy, Debug, PartialEq, Eq, Structural)]
pub struct SourceCharacteristics {
    pub live: bool,
    pub seek: bool,
    pub pause: bool,
}

/// One stream a source offers: whether it is selected for delivery, its
/// identifier, and what flows through it.
#[derive(Clone, Copy, Debug, PartialEq, Eq, Structural)]
pub struct StreamDescriptor {
    pub selected: bool,
    pub identifier: u32,
    pub stream_type: StreamType,
}

impl StreamDescriptor {
    /// A descriptor with the given fields.
    pub fn new(selected: bool, identifier: u32, stream_type: StreamType) -> (r: StreamDescriptor)
        ensures
            r.selected == selected,
            r.identifier == identifier,
            r.stream_type == stream_type,
    {
        StreamDescriptor { selected, identifier, stream_type }
    }
}

/// The ordered list of stream descriptors a source owns, mutated through
/// select and deselect.
#[derive(Clone, Debug)]
pub struct PresentationDescriptor {
    pub streams: Vec<StreamDescriptor>,
}

impl PresentationDescriptor {
    /// An empty descriptor list.
    pub fn new() -> (r: PresentationDescriptor)
        ensures
            r.streams@.len() == 0,
    {
        PresentationDescriptor { streams: Vec::new() }
    }

    /// Appends a stream descriptor.
    pub fn add_stream(&mut self, stream: StreamDescriptor)
        ensures
            final(self).streams@ == old(self).streams@.push(stream),
    {
        self.streams.push(stream);
    }

    /// Marks the stream at `index` selected.
    pub fn select_stream(&mut self, index: usize)
        requires
            index < old(self).streams@.len(),
        ensures
            final(self).streams@ == old(self).streams@.update(
                index as int,
                (StreamDescriptor { selected: true, ..old(self).streams@[index as int] }),
            ),
    {
        let d = self.streams[index];
        self.streams.set(index, StreamDescriptor { selected: true, ..d });
    }

    /// Marks the stream at `index` deselected.
    pub fn deselect_stream(&mut self, index: usize)
        requires
            index < old(self).streams@.len(),
        ensures
            final(self).streams@ == old(self).streams@.update(
                index as int,
                (StreamDescriptor { selected: false, ..old(self).streams@[index as int] }),
            ),
    {
        let d = self.streams[index];
        self.streams.set(index, StreamDescriptor { selected: false, ..d });
    }

    /// How many streams the descriptor lists.
    pub fn count(&self) -> (r: usize)
        ensures
            r == self.streams@.len(),
    {
        self.streams.len()
    }

    /// The descriptor at `index`.
    pub fn stream(&self, index: usize) -> (r: &StreamDescriptor)
        requires
            index < self.streams@.len(),
        ensures
            r == &self.streams@[index as int],
    {
        &self.streams[index]
    }
}

} // verus!
