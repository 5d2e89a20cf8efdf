//! The task channel: a bounded FIFO of chunks between one producer
//! worker and the drain loop. Its depth caps how many chunks a task may
//! buffer ahead of its consumer, which is what bounds the memory one
//! task can hold.

use vstd::prelude::*;
use crate::chunks::{chunk_views, sum_lens, lemma_sum_lens_bound};
use crate::config::{Config, CHUNK_CAPACITY};
use vstd::arithmetic::div_mod::{lemma_fundamental_div_mod, lemma_mod_bound};

verus! {

/// A bounded FIFO of byte chunks. The producer pushes, the drain pops;
/// a full queue is the backpressure that stalls a fast producer.
pub struct ChunkQueue {
    /// Buffered chunks, oldest first.
    pub chunks: Vec<Vec<u8>>,
    /// Largest number of chunks the queue may hold.
    pub depth: usize,
    /// Largest number of bytes one buffered chunk may hold.
    pub chunk_capacity: usize,
}

impl View for ChunkQueue {
    type V = Seq<Seq<u8>>;

    open spec fn view(&self) -> Seq<Seq<u8>> {
        chunk_views(self.chunks@)
    }
}

impl ChunkQueue {
    /// The queue never holds more than `depth` chunks, and never a chunk
    /// over `chunk_capacity` bytes.
    pub open spec fn wf(self) -> bool {
        &&& self.depth >= 1
        &&& self.chunks@.len() <= self.depth
        &&& forall|i: int|
            0 <= i < self.chunks@.len() ==> (#[trigger] self.chunks@[i])@.len()
                <= self.chunk_capacity
    }

    /// Bytes buffered and not yet drained.
    pub open spec fn buffered_bytes(self) -> nat {
        sum_lens(self@)
    }

    pub fn new(depth: usize, chunk_capacity: usize) -> (r: ChunkQueue)
        requires
            depth >= 1,
        ensures
            r.wf(),
            r@ =~= Seq::<Seq<u8>>::empty(),
            r.depth == depth,
            r.chunk_capacity == chunk_capacity,
    {
        ChunkQueue { chunks: Vec::new(), depth, chunk_capacity }
    }

    pub fn is_full(&self) -> (r: bool)
        ensures
            r == (self@.len() >= self.depth),
    {
        self.chunks.len() >= self.depth
    }

    pub fn is_empty(&self) -> (r: bool)
        ensures
            r == (self@.len() == 0),
    {
        self.chunks.len() == 0
    }

    /// The producer's handoff: appends one chunk. The caller must have
    /// seen the queue not full — the blocking wait of the real channel
    /// lives with the caller.
    pub fn push(&mut self, chunk: Vec<u8>)
        requires
            old(self).wf(),
            old(self)@.len() < old(self).depth,
            chunk@.len() <= old(self).chunk_capacity,
        ensures
            final(self).wf(),
            final(self)@ == old(self)@.push(chunk@),
            final(self).depth == old(self).depth,
            final(self).chunk_capacity == old(self).chunk_capacity,
    {
        proof {
            assert(chunk_views(self.chunks@.push(chunk)) =~= chunk_views(self.chunks@).push(
                chunk@,
            ));
        }
        self.chunks.push(chunk);
    }

    /// The drain's receive: removes and returns the oldest chunk.
    pub fn pop(&mut self) -> (r: Vec<u8>)
        requires
            old(self).wf(),
            old(self)@.len() > 0,
        ensures
            final(self).wf(),
            r@ == old(self)@[0],
            final(self)@ == old(self)@.drop_first(),
            final(self).depth == old(self).depth,
            final(self).chunk_capacity == old(self).chunk_capacity,
    {
        let r = self.chunks.remove(0);
        proof {
            assert(chunk_views(self.chunks@) =~= chunk_views(old(self).chunks@).drop_first());
        }
        r
    }

    /// Law: backpressure bounds memory. A well-formed queue never buffers
    /// more than `depth * chunk_capacity` bytes.
    pub proof fn lemma_backpressure_bound(self)
        requires
            self.wf(),
        ensures
            self.buffered_bytes() <= self.depth * self.chunk_capacity,
    {
        assert(forall|i: int|
            0 <= i < self@.len() ==> (#[trigger] self@[i]).len() <= self.chunk_capacity);
        lemma_sum_lens_bound(self@, self.chunk_capacity as nat);
        assert(self@.len() * self.chunk_capacity <= self.depth * self.chunk_capacity)
            by (nonlinear_arith)
            requires self@.len() <= self.depth;
    }

    /// Law: a queue sized from the configuration respects the per-task
    /// buffer byte budget, whenever the budget covers at least one chunk.
    /// (With a budget below the chunk capacity the depth is still one, so
    /// a single full chunk may exceed the budget — the price of always
    /// letting the producer hand over its first chunk.)
    pub proof fn lemma_buffer_budget(self, cfg: Config)
        requires
            self.wf(),
            cfg.wf(),
            cfg.buffer_size >= CHUNK_CAPACITY,
            self.depth == cfg.spec_channel_depth(),
            self.chunk_capacity == CHUNK_CAPACITY,
        ensures
            self.buffered_bytes() <= cfg.buffer_size,
    {
        self.lemma_backpressure_bound();
        lemma_fundamental_div_mod(cfg.buffer_size as int, CHUNK_CAPACITY as int);
        lemma_mod_bound(cfg.buffer_size as int, CHUNK_CAPACITY as int);
        assert(self.depth == cfg.buffer_size / CHUNK_CAPACITY);
        assert(CHUNK_CAPACITY * self.depth <= cfg.buffer_size);
        assert(self.depth * self.chunk_capacity == CHUNK_CAPACITY * self.depth)
            by (nonlinear_arith)
            requires self.chunk_capacity == CHUNK_CAPACITY;
    }
}

} // verus!
