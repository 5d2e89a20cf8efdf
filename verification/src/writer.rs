//! The output sink model. A chunk handed to the writer is appended to
//! the destination whole; the zero-copy pipe path may accept it in
//! several partial transfers, tracked by `WriteProgress`.

use vstd::prelude::*;

verus! {

/// Appends every byte of `chunk` to `out` — the writer's contract:
/// a chunk is fully written before the call returns.
pub fn write_chunk(out: &mut Vec<u8>, chunk: &Vec<u8>)
    ensures
        final(out)@ == old(out)@ + chunk@,
{
    let mut j: usize = 0;
    while j < chunk.len()
        invariant
            j <= chunk@.len(),
            out@ == old(out)@ + chunk@.subrange(0, j as int),
        decreases chunk@.len() - j,
    {
        out.push(chunk[j]);
        proof {
            assert(chunk@.subrange(0, j + 1 as int) =~= chunk@.subrange(0, j as int).push(
                chunk@[j as int],
            ));
            assert(old(out)@ + chunk@.subrange(0, j + 1 as int) =~= (old(out)@ + chunk@.subrange(
                0,
                j as int,
            )).push(chunk@[j as int]));
        }
        j += 1;
    }
    proof {
        assert(chunk@.subrange(0, chunk@.len() as int) =~= chunk@);
    }
}

/// The retry state of a partial-transfer sink (a pipe): the underlying
/// primitive may accept fewer bytes than offered per call, so the caller
/// advances an offset until the whole chunk is accepted.
pub struct WriteProgress {
    /// Bytes of the chunk the sink has accepted so far.
    pub accepted: usize,
    /// Size of the chunk being transferred.
    pub total: usize,
}

impl WriteProgress {
    pub open spec fn wf(self) -> bool {
        self.accepted <= self.total
    }

    /// Whether the whole chunk has been accepted.
    pub open spec fn done(self) -> bool {
        self.accepted == self.total
    }

    pub fn start(total: usize) -> (r: WriteProgress)
        ensures
            r.wf(),
            r.accepted == 0,
            r.total == total,
    {
        WriteProgress { accepted: 0, total }
    }

    /// Bytes still to offer, from the current offset.
    pub fn remaining(&self) -> (r: usize)
        requires
            self.wf(),
        ensures
            r == self.total - self.accepted,
    {
        self.total - self.accepted
    }

    /// Records one partial transfer of `n` bytes. A transfer never
    /// exceeds what was offered, so progress stays within the chunk.
    pub fn advance(&mut self, n: usize)
        requires
            old(self).wf(),
            n <= old(self).total - old(self).accepted,
        ensures
            final(self).wf(),
            final(self).accepted == old(self).accepted + n,
            final(self).total == old(self).total,
    {
        self.accepted = self.accepted + n;
    }
}

} // verus!
