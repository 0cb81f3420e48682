//! Typed events and the FIFO event queue every stage communicates through:
//! downstream stages learn of new data only by polling their own queue.

use vstd::prelude::*;

use crate::fault::Fault;
use crate::samples::Sample;

verus! {

/// What an event announces.
#[derive(Debug)]
pub enum EventType {
    FatalError,
    NonFatalError,
    RequestSample,
    Sample(Sample),
    StreamStarted,
    NewStream,
    EndOfStream,
    Unknown,
}

/// One event: its type and the status of the operation that raised it.
#[derive(Debug)]
pub struct Event {
    pub event_type: EventType,
    pub status: Result<(), Fault>,
}

impl Event {
    /// An event of the given type carrying the given status.
    pub fn new(event_type: EventType, status: Result<(), Fault>) -> (r: Event)
        ensures
            r.event_type == event_type,
            r.status == status,
    {
        Event { event_type, status }
    }
}

/// An unbounded FIFO queue of events: insertion order is dequeue order.
#[derive(Debug)]
pub struct EventQueue {
    pub events: Vec<Event>,
}

impl EventQueue {
    /// An empty queue.
    pub fn new() -> (r: EventQueue)
        ensures
            r.events@.len() == 0,
    {
        EventQueue { events: Vec::new() }
    }

    /// Removes and returns the oldest event; returns nothing, and never
    /// blocks, when the queue is empty.
    pub fn dequeue_event(&mut self) -> (r: Option<Event>)
        ensures
            old(self).events@.len() == 0 ==> r is None && *final(self) == *old(self),
            old(self).events@.len() > 0 ==> r == Some(old(self).events@[0]) && final(self).events@
                == old(self).events@.skip(1),
    {
        if self.events.len() == 0 {
            None
        } else {
            let e = self.events.remove(0);
            proof {
                assert(final(self).events@ =~= old(self).events@.skip(1));
            }
            Some(e)
        }
    }

    /// Appends an event behind the newest one.
    pub fn enqueue_event(&mut self, event: Event)
        ensures
            final(self).events@ == old(self).events@.push(event),
    {
        self.events.push(event);
    }
}

} // verus!
