//! Byte buffers that samples carry through the pipeline.

use vstd::prelude::*;

verus! {

/// A mutable byte region: how much of it is filled and how much is backing
/// it.
pub trait Buffer {
    /// How many bytes the buffer holds.
    fn get_current_length(&self) -> usize;

    /// How many bytes are allocated behind it.
    fn get_allocated_length(&self) -> usize;
}

/// A plain in-memory buffer; its allocation is exactly its contents.
#[derive(Clone, Debug)]
pub struct MemoryBuffer {
    pub data: Vec<u8>,
}

impl MemoryBuffer {
    /// A buffer of `length` zeroed bytes.
    pub fn new(length: usize) -> (r: MemoryBuffer)
        ensures
            r.data@.len() == length,
            forall|i: int| 0 <= i < length ==> r.data@[i] == 0u8,
    {
        let mut data: Vec<u8> = Vec::new();
        let mut i: usize = 0;
        while i < length
            invariant
                i <= length,
                data@.len() == i,
                forall|j: int| 0 <= j < i ==> data@[j] == 0u8,
            decreases length - i,
        {
            data.push(0u8);
            i += 1;
        }
        MemoryBuffer { data }
    }

    /// A buffer holding exactly `data`.
    pub fn from_bytes(data: Vec<u8>) -> (r: MemoryBuffer)
        ensures
            r.data == data,
    {
        MemoryBuffer { data }
    }

    /// The buffer's bytes.
    pub fn bytes(&self) -> (r: &Vec<u8>)
        ensures
            r == &self.data,
    {
        &self.data
    }
}

impl Buffer for MemoryBuffer {
    /// How many bytes the buffer holds.
    fn get_current_length(&self) -> (r: usize)
        ensures
            r == self.data@.len(),
    {
        self.data.len()
    }

    /// How many bytes are allocated behind it: for this buffer, exactly its
    /// contents.
    fn get_allocated_length(&self) -> (r: usize)
        ensures
            r == self.data@.len(),
    {
        self.data.len()
    }
}

} // verus!
