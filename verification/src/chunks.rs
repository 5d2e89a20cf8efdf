//! The chunk model: a task's output is a sequence of bounded byte
//! buffers, and the stream it stands for is their concatenation.

use vstd::prelude::*;
use vstd::seq_lib::lemma_flatten_concat;

verus! {

/// All bytes of a sequence of chunks, in order.
pub open spec fn concat_bytes(chunks: Seq<Seq<u8>>) -> Seq<u8> {
    chunks.flatten()
}

/// The mathematical contents of a vector of chunks.
pub open spec fn chunk_views(cs: Seq<Vec<u8>>) -> Seq<Seq<u8>> {
    cs.map_values(|c: Vec<u8>| c@)
}

/// Total byte count of a sequence of chunks.
pub open spec fn sum_lens(chunks: Seq<Seq<u8>>) -> nat
    decreases chunks.len(),
{
    if chunks.len() == 0 {
        0
    } else {
        chunks[0].len() + sum_lens(chunks.drop_first())
    }
}

/// Concatenation loses no byte and invents none: its length is the sum
/// of the chunk lengths.
pub proof fn lemma_concat_len(chunks: Seq<Seq<u8>>)
    ensures
        concat_bytes(chunks).len() == sum_lens(chunks),
    decreases chunks.len(),
{
    if chunks.len() == 0 {
    } else {
        lemma_concat_len(chunks.drop_first());
    }
}

/// A sequence of chunks each no longer than `cap` holds at most
/// `len * cap` bytes in all.
pub proof fn lemma_sum_lens_bound(chunks: Seq<Seq<u8>>, cap: nat)
    requires
        forall|i: int| 0 <= i < chunks.len() ==> (#[trigger] chunks[i]).len() <= cap,
    ensures
        sum_lens(chunks) <= chunks.len() * cap,
    decreases chunks.len(),
{
    if chunks.len() == 0 {
    } else {
        assert(forall|i: int|
            0 <= i < chunks.drop_first().len() ==> (#[trigger] chunks.drop_first()[i]).len()
                <= cap) by {
            assert(forall|i: int|
                0 <= i < chunks.drop_first().len() ==> chunks.drop_first()[i] == chunks[i + 1]);
        }
        lemma_sum_lens_bound(chunks.drop_first(), cap);
        assert((chunks.len() - 1) * cap + cap == chunks.len() * cap) by (nonlinear_arith);
    }
}

/// Concatenation splits around any boundary between two chunk runs.
pub proof fn lemma_concat_split(a: Seq<Seq<u8>>, b: Seq<Seq<u8>>)
    ensures
        concat_bytes(a + b) == concat_bytes(a) + concat_bytes(b),
{
    lemma_flatten_concat(a, b);
}

/// Copies a byte range out of a buffer.
pub fn copy_range(src: &Vec<u8>, from: usize, to: usize) -> (r: Vec<u8>)
    requires
        from <= to <= src@.len(),
    ensures
        r@ == src@.subrange(from as int, to as int),
{
    let mut r: Vec<u8> = Vec::new();
    let mut j: usize = from;
    while j < to
        invariant
            from <= j <= to <= src@.len(),
            r@ == src@.subrange(from as int, j as int),
        decreases to - j,
    {
        r.push(src[j]);
        assert(src@.subrange(from as int, j + 1 as int) =~= src@.subrange(
            from as int,
            j as int,
        ).push(src@[j as int]));
        j += 1;
    }
    r
}

/// Splits a byte stream into chunks: every chunk holds at least one byte
/// and at most `cap`, every chunk but the last is full, and concatenating
/// the chunks gives back the input exactly — the producer worker's
/// assembly step, and the round trip the drain later relies on.
pub fn chunk_bytes(data: &Vec<u8>, cap: usize) -> (r: Vec<Vec<u8>>)
    requires
        cap >= 1,
    ensures
        concat_bytes(chunk_views(r@)) == data@,
        forall|i: int| 0 <= i < r@.len() ==> 1 <= (#[trigger] r@[i])@.len() <= cap,
        forall|i: int| 0 <= i < r@.len() - 1 ==> (#[trigger] r@[i])@.len() == cap,
    {
    let mut r: Vec<Vec<u8>> = Vec::new();
    let mut pos: usize = 0;
    while pos < data.len()
        invariant
            cap >= 1,
            pos <= data@.len(),
            concat_bytes(chunk_views(r@)) == data@.subrange(0, pos as int),
            forall|i: int| 0 <= i < r@.len() ==> 1 <= (#[trigger] r@[i])@.len() <= cap,
            forall|i: int| 0 <= i < r@.len() ==> pos < data@.len() ==> (#[trigger] r@[i])@.len()
                == cap,
            forall|i: int| 0 <= i < r@.len() - 1 ==> (#[trigger] r@[i])@.len() == cap,
        decreases data@.len() - pos,
    {
        let take: usize = if data.len() - pos < cap {
            data.len() - pos
        } else {
            cap
        };
        let chunk = copy_range(data, pos, pos + take);
        proof {
            assert(chunk_views(r@.push(chunk)) =~= chunk_views(r@).push(chunk@));
            chunk_views(r@).lemma_flatten_push(chunk@);
            assert(data@.subrange(0, pos as int) + data@.subrange(
                pos as int,
                (pos + take) as int,
            ) =~= data@.subrange(0, (pos + take) as int));
        }
        r.push(chunk);
        pos = pos + take;
    }
    proof {
        assert(data@.subrange(0, pos as int) =~= data@);
    }
    r
}

/// Builds chunks on the producer side from successive reads: bytes
/// accumulate until the fixed chunk capacity is reached, and the worker
/// hands the gathered chunk off when the buffer fills or the source
/// ends — never holding more than one chunk un-pushed.
pub struct ChunkAssembler {
    /// Bytes gathered for the chunk under assembly.
    pub buf: Vec<u8>,
    /// The fixed chunk capacity.
    pub capacity: usize,
}

impl ChunkAssembler {
    /// The gathered bytes never exceed the capacity.
    pub open spec fn wf(self) -> bool {
        self.capacity >= 1 && self.buf@.len() <= self.capacity
    }

    pub fn new(capacity: usize) -> (r: ChunkAssembler)
        requires
            capacity >= 1,
        ensures
            r.wf(),
            r.capacity == capacity,
            r.buf@ =~= Seq::<u8>::empty(),
    {
        ChunkAssembler { buf: Vec::new(), capacity }
    }

    /// How many bytes the next read may ask for without overfilling the
    /// chunk under assembly.
    pub fn space(&self) -> (r: usize)
        requires
            self.wf(),
        ensures
            r == self.capacity - self.buf@.len(),
    {
        self.capacity - self.buf.len()
    }

    /// Whether the chunk is full and must be handed off before more
    /// bytes can be gathered.
    pub fn is_full(&self) -> (r: bool)
        ensures
            r == (self.buf@.len() >= self.capacity),
    {
        self.buf.len() >= self.capacity
    }

    /// Whether nothing has been gathered — at the source's end, an
    /// empty assembler means no final chunk is owed.
    pub fn is_empty(&self) -> (r: bool)
        ensures
            r == (self.buf@.len() == 0),
    {
        self.buf.len() == 0
    }

    /// Adds one read's bytes to the chunk under assembly.
    pub fn accept(&mut self, data: &Vec<u8>)
        requires
            old(self).wf(),
            data@.len() <= old(self).capacity - old(self).buf@.len(),
        ensures
            final(self).wf(),
            final(self).buf@ == old(self).buf@ + data@,
            final(self).capacity == old(self).capacity,
    {
        crate::writer::write_chunk(&mut self.buf, data);
    }

    /// Hands off the gathered chunk, leaving the assembler empty for
    /// the next one.
    pub fn take(&mut self) -> (r: Vec<u8>)
        requires
            old(self).wf(),
        ensures
            final(self).wf(),
            r@ == old(self).buf@,
            final(self).buf@ =~= Seq::<u8>::empty(),
            final(self).capacity == old(self).capacity,
    {
        let r = self.buf.split_off(0);
        proof {
            assert(r@ =~= old(self).buf@);
        }
        r
    }
}

} // verus!
