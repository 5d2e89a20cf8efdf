//! The drain loop and the run outcome: tasks' chunks are forwarded to
//! the writer strictly in submission order, one task fully drained
//! before the next, and the first failing task ends the run.

use vstd::prelude::*;
use crate::channel::ChunkQueue;
use crate::chunks::{chunk_views, concat_bytes, sum_lens, lemma_concat_len, lemma_concat_split};
use crate::config::{Config, CHUNK_CAPACITY};
use crate::scheduler::Scheduler;
use crate::writer::write_chunk;

verus! {

/// What one producer worker delivered: the chunks it pushed into its
/// channel, in order, and whether its byte source finished successfully.
pub struct TaskResult {
    /// Chunks the worker handed over before finishing or failing.
    pub chunks: Vec<Vec<u8>>,
    /// Whether the byte source completed without error.
    pub ok: bool,
}

impl TaskResult {
    /// Producers assemble chunks no larger than the fixed chunk
    /// capacity (see `chunks::chunk_bytes`).
    pub open spec fn wf(self) -> bool {
        forall|i: int|
            0 <= i < self.chunks@.len() ==> (#[trigger] self.chunks@[i])@.len() <= CHUNK_CAPACITY
    }

    /// The byte stream the task contributes to the output.
    pub open spec fn bytes(self) -> Seq<u8> {
        concat_bytes(chunk_views(self.chunks@))
    }
}

/// The byte streams of a run of tasks, in submission order.
pub open spec fn task_bytes_seq(rs: Seq<TaskResult>) -> Seq<Seq<u8>> {
    rs.map_values(|t: TaskResult| t.bytes())
}

/// Bytes the drain emits for tasks `m .. n`.
pub open spec fn between_bytes(rs: Seq<TaskResult>, m: int, n: int) -> Seq<u8> {
    task_bytes_seq(rs.subrange(m, n)).flatten()
}

/// Bytes the drain has emitted once tasks `0 .. n` are drained.
pub open spec fn drained_bytes(rs: Seq<TaskResult>, n: int) -> Seq<u8> {
    between_bytes(rs, 0, n)
}

/// The first `n` tasks all succeeded.
pub open spec fn all_ok(rs: Seq<TaskResult>, n: int) -> bool {
    forall|j: int| 0 <= j < n ==> (#[trigger] rs[j]).ok
}

/// The outcome of a run.
pub struct RunReport {
    /// Bytes the writer received, in order.
    pub output: Vec<u8>,
    /// `None` for an all-success run; `Some(k)` when task `k`
    /// (1-indexed) was the first to fail.
    pub failed_task: Option<usize>,
}

/// What a finished run must report for the task results `rs`: either
/// every task succeeded and the output is the full ordered
/// concatenation, or the first failing task is named and the output
/// holds exactly the tasks before it plus what the failing task itself
/// delivered — and nothing of any later task.
pub open spec fn report_matches(r: RunReport, rs: Seq<TaskResult>) -> bool {
    &&& (r.failed_task is None ==> all_ok(rs, rs.len() as int) && r.output@ == drained_bytes(
        rs,
        rs.len() as int,
    ))
    &&& (r.failed_task matches Some(k) ==> {
        &&& 1 <= k <= rs.len()
        &&& !rs[k - 1].ok
        &&& all_ok(rs, k - 1)
        &&& r.output@ == drained_bytes(rs, k as int)
    })
}

/// Draining one more task extends the emitted bytes by exactly that
/// task's stream.
pub proof fn lemma_drained_snoc(rs: Seq<TaskResult>, n: int)
    requires
        0 <= n < rs.len(),
    ensures
        drained_bytes(rs, n + 1) == drained_bytes(rs, n) + rs[n].bytes(),
{
    assert(rs.subrange(0, n + 1) =~= rs.subrange(0, n).push(rs[n]));
    assert(task_bytes_seq(rs.subrange(0, n).push(rs[n])) =~= task_bytes_seq(
        rs.subrange(0, n),
    ).push(rs[n].bytes()));
    task_bytes_seq(rs.subrange(0, n)).lemma_flatten_push(rs[n].bytes());
}

/// The emitted bytes split cleanly at any task boundary.
pub proof fn lemma_drained_split(rs: Seq<TaskResult>, m: int, n: int)
    requires
        0 <= m <= n <= rs.len(),
    ensures
        drained_bytes(rs, n) == drained_bytes(rs, m) + between_bytes(rs, m, n),
{
    assert(task_bytes_seq(rs.subrange(0, n)) =~= task_bytes_seq(rs.subrange(0, m))
        + task_bytes_seq(rs.subrange(m, n)));
    lemma_concat_split(task_bytes_seq(rs.subrange(0, m)), task_bytes_seq(rs.subrange(m, n)));
}

/// Law: order invariant. In any drained prefix, task `i`'s bytes stand
/// as one contiguous block, after everything of tasks before `i` and
/// before everything of tasks after `i` — whatever the relative
/// completion timing of the workers was.
pub proof fn lemma_output_order(rs: Seq<TaskResult>, i: int, n: int)
    requires
        0 <= i < n <= rs.len(),
    ensures
        drained_bytes(rs, i).len() + rs[i].bytes().len() <= drained_bytes(rs, n).len(),
        drained_bytes(rs, n).subrange(
            drained_bytes(rs, i).len() as int,
            drained_bytes(rs, i).len() + rs[i].bytes().len() as int,
        ) == rs[i].bytes(),
        drained_bytes(rs, n).subrange(0, drained_bytes(rs, i).len() as int) == drained_bytes(
            rs,
            i,
        ),
{
    lemma_drained_snoc(rs, i);
    lemma_drained_split(rs, i + 1, n);
    assert(drained_bytes(rs, n) == (drained_bytes(rs, i) + rs[i].bytes()) + between_bytes(
        rs,
        i + 1,
        n,
    ));
    assert(drained_bytes(rs, n).subrange(
        drained_bytes(rs, i).len() as int,
        drained_bytes(rs, i).len() + rs[i].bytes().len() as int,
    ) =~= rs[i].bytes());
    assert(drained_bytes(rs, n).subrange(0, drained_bytes(rs, i).len() as int) =~= drained_bytes(
        rs,
        i,
    ));
}

/// Law: completeness. A full drain emits exactly the sum of the tasks'
/// byte counts — no byte lost, none invented.
pub proof fn lemma_completeness(rs: Seq<TaskResult>)
    ensures
        drained_bytes(rs, rs.len() as int).len() == sum_lens(task_bytes_seq(rs)),
{
    assert(rs.subrange(0, rs.len() as int) =~= rs);
    lemma_concat_len(task_bytes_seq(rs));
}

/// Law: round trip. When each task's chunks carry a known byte stream
/// (as `chunks::chunk_bytes` guarantees of the streams it splits), a
/// full drain emits exactly those streams concatenated in submission
/// order — feeding the known outputs back and concatenating by hand
/// gives the run's output, byte for byte.
pub proof fn lemma_round_trip(rs: Seq<TaskResult>, streams: Seq<Seq<u8>>)
    requires
        rs.len() == streams.len(),
        forall|i: int| 0 <= i < rs.len() ==> (#[trigger] rs[i]).bytes() == streams[i],
    ensures
        drained_bytes(rs, rs.len() as int) == streams.flatten(),
{
    assert(task_bytes_seq(rs.subrange(0, rs.len() as int)) =~= streams);
}

/// Law: the run outcome is a function of the task results alone. Any
/// two reports that a run may produce for the same results — whatever
/// concurrency limit or buffer budget each ran under — agree on the
/// output bytes and on the failing task.
pub proof fn lemma_outcome_unique(r1: RunReport, r2: RunReport, rs: Seq<TaskResult>)
    requires
        report_matches(r1, rs),
        report_matches(r2, rs),
    ensures
        r1.output@ == r2.output@,
        r1.failed_task == r2.failed_task,
{
    match (r1.failed_task, r2.failed_task) {
        (Option::None, Option::None) => {
        },
        (Option::None, Option::Some(k)) => {
            assert(rs[k - 1].ok);
            assert(false);
        },
        (Option::Some(k), Option::None) => {
            assert(rs[k - 1].ok);
            assert(false);
        },
        (Option::Some(k1), Option::Some(k2)) => {
            if k1 < k2 {
                assert(rs[k1 - 1].ok);
                assert(false);
            }
            if k2 < k1 {
                assert(rs[k2 - 1].ok);
                assert(false);
            }
        },
    }
}

/// Moves one task's chunks through its bounded channel into the output,
/// producer and drain taking turns: push while a slot is free, hand the
/// oldest chunk to the writer when the channel is full, then drain the
/// tail. This is the backpressure discipline of one worker paired with
/// its turn of the drain loop.
pub fn transfer_task(chunks: &Vec<Vec<u8>>, queue: &mut ChunkQueue, out: &mut Vec<u8>)
    requires
        old(queue).wf(),
        old(queue)@.len() == 0,
        forall|i: int|
            0 <= i < chunks@.len() ==> (#[trigger] chunks@[i])@.len() <= old(queue).chunk_capacity,
    ensures
        final(queue).wf(),
        final(queue)@.len() == 0,
        final(queue).depth == old(queue).depth,
        final(queue).chunk_capacity == old(queue).chunk_capacity,
        final(out)@ == old(out)@ + concat_bytes(chunk_views(chunks@)),
{
    let mut p: usize = 0;
    while p < chunks.len()
        invariant
            p <= chunks@.len(),
            queue.wf(),
            queue.depth == old(queue).depth,
            queue.chunk_capacity == old(queue).chunk_capacity,
            forall|i: int|
                0 <= i < chunks@.len() ==> (#[trigger] chunks@[i])@.len() <= queue.chunk_capacity,
            out@ + concat_bytes(queue@) == old(out)@ + concat_bytes(
                chunk_views(chunks@.subrange(0, p as int)),
            ),
        decreases chunks@.len() - p, queue@.len(),
    {
        if queue.is_full() {
            let ghost q0 = queue@;
            let c = queue.pop();
            write_chunk(out, &c);
            proof {
                assert(concat_bytes(q0) == q0[0] + concat_bytes(q0.drop_first()));
                assert((out@ + concat_bytes(queue@)) =~= (old(out)@ + concat_bytes(
                    chunk_views(chunks@.subrange(0, p as int)),
                )));
            }
        } else {
            let chunk = &chunks[p];
            let c = crate::chunks::copy_range(chunk, 0, chunk.len());
            proof {
                assert(c@ =~= chunk@);
            }
            let ghost q0 = queue@;
            let ghost cv = chunk@;
            let ghost prefix = chunk_views(chunks@.subrange(0, p as int));
            queue.push(c);
            proof {
                assert(queue@ =~= q0.push(cv));
                q0.lemma_flatten_push(cv);
                assert(concat_bytes(queue@) == concat_bytes(q0) + cv);
                assert(chunks@.subrange(0, p + 1) =~= chunks@.subrange(0, p as int).push(
                    chunks@[p as int],
                ));
                assert(chunk_views(chunks@.subrange(0, p + 1)) =~= prefix.push(cv));
                prefix.lemma_flatten_push(cv);
                assert(concat_bytes(chunk_views(chunks@.subrange(0, p + 1))) == concat_bytes(
                    prefix,
                ) + cv);
                assert(out@ + (concat_bytes(q0) + cv) =~= (out@ + concat_bytes(q0)) + cv);
                assert((old(out)@ + concat_bytes(prefix)) + cv =~= old(out)@ + (concat_bytes(
                    prefix,
                ) + cv));
                assert((out@ + concat_bytes(queue@)) == (old(out)@ + concat_bytes(
                    chunk_views(chunks@.subrange(0, p + 1)),
                )));
            }
            p += 1;
        }
    }
    while !queue.is_empty()
        invariant
            queue.wf(),
            queue.depth == old(queue).depth,
            queue.chunk_capacity == old(queue).chunk_capacity,
            out@ + concat_bytes(queue@) == old(out)@ + concat_bytes(chunk_views(chunks@.subrange(0, chunks@.len() as int))),
        decreases queue@.len(),
    {
        let ghost q0 = queue@;
        let c = queue.pop();
        write_chunk(out, &c);
        proof {
            assert(concat_bytes(q0) == q0[0] + concat_bytes(q0.drop_first()));
            assert((out@ + concat_bytes(queue@)) =~= (old(out)@ + concat_bytes(
                chunk_views(chunks@.subrange(0, chunks@.len() as int)),
            )));
        }
    }
    proof {
        assert(chunks@.subrange(0, chunks@.len() as int) =~= chunks@);
        assert(concat_bytes(queue@) =~= Seq::<u8>::empty());
        assert(out@ + Seq::<u8>::empty() =~= out@);
    }
}

/// Runs the drain over the results the byte sources produced: workers
/// are launched through the scheduler window in submission order, each
/// task's channel is fully drained into the output before the next, the
/// first failure ends the run naming its task, and every already
/// launched worker is still joined.
pub fn run_tasks(results: &Vec<TaskResult>, cfg: &Config) -> (r: RunReport)
    requires
        cfg.wf(),
        forall|i: int| 0 <= i < results@.len() ==> (#[trigger] results@[i]).wf(),
    ensures
        report_matches(r, results@),
{
    let depth = cfg.channel_depth();
    let mut sched = Scheduler::new(results.len(), cfg.parallel_count);
    let mut queue = ChunkQueue::new(depth, CHUNK_CAPACITY);
    let mut output: Vec<u8> = Vec::new();
    let mut failed: Option<usize> = None;
    let mut i: usize = 0;
    proof {
        assert(task_bytes_seq(results@.subrange(0, 0)) =~= Seq::<Seq<u8>>::empty());
    }
    while i < results.len() && failed.is_none()
        invariant
            i <= results@.len(),
            cfg.wf(),
            forall|j: int| 0 <= j < results@.len() ==> (#[trigger] results@[j]).wf(),
            sched.wf(),
            sched.total == results@.len(),
            sched.limit == cfg.parallel_count,
            sched.joined == i,
            queue.wf(),
            queue@.len() == 0,
            queue.chunk_capacity == CHUNK_CAPACITY,
            failed is None ==> all_ok(results@, i as int) && output@ == drained_bytes(
                results@,
                i as int,
            ),
            failed matches Some(k) ==> i == k && 1 <= k <= results@.len() && !results@[k - 1].ok
                && all_ok(results@, k - 1) && output@ == drained_bytes(results@, k as int),
        decreases results@.len() - i,
    {
        while sched.can_launch()
            invariant
                sched.wf(),
                sched.total == results@.len(),
                sched.limit == cfg.parallel_count,
                sched.joined == i,
            decreases results@.len() - sched.launched,
        {
            sched.launch();
        }
        proof {
            assert(sched.launched > i);
        }
        let tr = &results[i];
        transfer_task(&tr.chunks, &mut queue, &mut output);
        sched.join();
        proof {
            lemma_drained_snoc(results@, i as int);
        }
        if !tr.ok {
            failed = Some(i + 1);
        }
        i += 1;
    }
    while sched.joined < sched.launched
        invariant
            sched.wf(),
        decreases sched.launched - sched.joined,
    {
        sched.join();
    }
    RunReport { output, failed_task: failed }
}

} // verus!
