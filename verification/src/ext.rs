//! Socket buffer sizing for the pipeline's reader and writer halves.

use vstd::prelude::*;

verus! {

#[derive(Debug, Clone, Copy, PartialEq, Eq, Structural)]
pub struct BufferSize {
    pub read: usize,
    pub write: usize,
}

impl BufferSize {
    /// The same capacity for both halves.
    pub fn all(capacity: usize) -> (r: Self)
        ensures
            r.read == capacity,
            r.write == capacity,
    {
        Self { read: capacity, write: capacity }
    }

    pub fn new(read: usize, write: usize) -> (r: Self)
        ensures
            r.read == read,
            r.write == write,
    {
        Self { read, write }
    }
}

impl Default for BufferSize {
    /// The capacity used when none is configured.
    fn default() -> (r: Self)
        ensures
            r.read == 4096,
            r.write == 4096,
    {
        Self::all(4096)
    }
}

} // verus!
