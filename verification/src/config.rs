//! Configuration surface of the pipeline: the concurrency limit, the
//! per-task buffer byte budget, and the fixed chunk capacity from which
//! the channel depth is derived.

use vstd::prelude::*;

verus! {

/// Largest number of payload bytes a single chunk may carry.
pub const CHUNK_CAPACITY: usize = 2 * 1024 * 1024;

/// Values the core consumes; parsing them from the command line is the
/// caller's business.
pub struct Config {
    /// Largest number of producer workers in flight at once.
    pub parallel_count: usize,
    /// Byte budget one task may buffer ahead of the drain.
    pub buffer_size: usize,
}

impl Config {
    /// Both knobs must be positive; a zero limit would launch no task and a
    /// zero budget would buffer no byte.
    pub open spec fn wf(self) -> bool {
        self.parallel_count >= 1 && self.buffer_size >= 1
    }

    /// Rejects invalid configuration values at startup.
    pub fn new(parallel_count: usize, buffer_size: usize) -> (r: Option<Config>)
        ensures
            r is Some <==> parallel_count >= 1 && buffer_size >= 1,
            r matches Some(c) ==> c.parallel_count == parallel_count && c.buffer_size == buffer_size
                && c.wf(),
    {
        if parallel_count >= 1 && buffer_size >= 1 {
            Some(Config { parallel_count, buffer_size })
        } else {
            None
        }
    }

    /// How many chunks one task channel may hold: the byte budget divided
    /// by the chunk capacity, rounded down, but at least one so that a
    /// producer can always hand over its first chunk.
    pub fn channel_depth(&self) -> (r: usize)
        requires
            self.wf(),
        ensures
            r == self.spec_channel_depth(),
            r >= 1,
    {
        let d = self.buffer_size / CHUNK_CAPACITY;
        if d == 0 {
            1
        } else {
            d
        }
    }

    pub open spec fn spec_channel_depth(self) -> usize {
        if self.buffer_size / CHUNK_CAPACITY == 0 {
            1usize
        } else {
            self.buffer_size / CHUNK_CAPACITY
        }
    }
}

} // verus!
