//! Hands chunks to workers: a FIFO of chunks still to fetch plus per-chunk
//! attempt counters, progress and settlement.

use vstd::prelude::*;
use std::collections::VecDeque;
use super::planner::{Chunk, ChunkPlan, ChunkState, chunk_measurable, spec_chunk_state, spec_range_len};

verus! {

/// What the dispatcher hands out on a request for work.
#[derive(Debug, Clone, Copy, PartialEq, Eq, Structural)]
pub enum Take {
    /// Work on this chunk next.
    Next(usize),
    /// Every chunk is settled; the worker can stop.
    Exhausted,
    /// Nothing queued right now, but chunks in flight may still be requeued.
    Wait,
}

/// The dispatcher's state as mathematical values.
pub struct DispatcherView {
    pub chunks: Seq<Chunk>,
    pub pending: Seq<usize>,
    pub attempts: Seq<u64>,
    pub downloaded: Seq<u64>,
    pub completed: Seq<bool>,
    pub settled: nat,
    pub failed: nat,
}

pub struct ChunkDispatcher {
    plan: ChunkPlan,
    pending: VecDeque<usize>,
    attempts: Vec<u64>,
    downloaded: Vec<u64>,
    completed: Vec<bool>,
    settled: usize,
    failed: usize,
}

impl View for ChunkDispatcher {
    type V = DispatcherView;

    closed spec fn view(&self) -> DispatcherView {
        DispatcherView {
            chunks: self.plan.chunks@,
            pending: self.pending@,
            attempts: self.attempts@,
            downloaded: self.downloaded@,
            completed: self.completed@,
            settled: self.settled as nat,
            failed: self.failed as nat,
        }
    }
}

/// A chunk is already complete when at least its whole range is on disk.
pub open spec fn chunk_done(c: Chunk) -> bool {
    c.downloaded >= spec_range_len(c)
}

/// Every chunk's range length can be computed.
pub open spec fn all_measurable(chunks: Seq<Chunk>) -> bool {
    forall|i: int| 0 <= i < chunks.len() ==> chunk_measurable(#[trigger] chunks[i])
}

/// Indices `< n` of the chunks that still need work, in increasing order.
pub open spec fn incomplete_indices(chunks: Seq<Chunk>, n: int) -> Seq<usize>
    decreases n,
{
    if n <= 0 {
        Seq::empty()
    } else if chunk_done(chunks[n - 1]) {
        incomplete_indices(chunks, n - 1)
    } else {
        incomplete_indices(chunks, n - 1).push((n - 1) as usize)
    }
}

/// Number of chunks among the first `n` that are already complete.
pub open spec fn done_count(chunks: Seq<Chunk>, n: int) -> nat
    decreases n,
{
    if n <= 0 {
        0
    } else if chunk_done(chunks[n - 1]) {
        done_count(chunks, n - 1) + 1
    } else {
        done_count(chunks, n - 1)
    }
}

/// Number of `true` entries among the first `n` of `flags`.
pub open spec fn count_true(flags: Seq<bool>, n: int) -> nat
    decreases n,
{
    if n <= 0 {
        0
    } else if flags[n - 1] {
        count_true(flags, n - 1) + 1
    } else {
        count_true(flags, n - 1)
    }
}

/// The state of a dispatcher freshly made for `chunks`.
pub open spec fn fresh_dispatcher(chunks: Seq<Chunk>) -> DispatcherView {
    DispatcherView {
        chunks,
        pending: incomplete_indices(chunks, chunks.len() as int),
        attempts: Seq::new(chunks.len(), |_i: int| 0u64),
        downloaded: Seq::new(chunks.len(), |i: int| chunks[i].downloaded),
        completed: Seq::new(chunks.len(), |i: int| chunk_done(chunks[i])),
        settled: done_count(chunks, chunks.len() as int),
        failed: 0,
    }
}

/// What `take` gives and leaves.
pub open spec fn spec_take(d: DispatcherView) -> (Take, DispatcherView) {
    if d.pending.len() > 0 {
        (Take::Next(d.pending[0]), DispatcherView { pending: d.pending.drop_first(), ..d })
    } else {
        (if d.settled == d.chunks.len() { Take::Exhausted } else { Take::Wait }, d)
    }
}

/// What `settle_complete(index)` leaves.
pub open spec fn spec_settle_complete(d: DispatcherView, index: usize) -> DispatcherView {
    DispatcherView { completed: d.completed.update(index as int, true), settled: d.settled + 1, ..d }
}

/// A lone worker that takes chunks until none is queued and settles each one
/// complete: the indices it is handed, in order, and the dispatcher after.
pub open spec fn drain_settling(d: DispatcherView) -> (Seq<usize>, DispatcherView)
    decreases d.pending.len(),
{
    if d.pending.len() == 0 {
        (Seq::empty(), d)
    } else {
        let i = d.pending[0];
        let next = spec_settle_complete(spec_take(d).1, i);
        let (rest, end) = drain_settling(next);
        (seq![i] + rest, end)
    }
}

impl ChunkDispatcher {
    /// The dispatcher's internal consistency: one counter of each kind per
    /// chunk and only valid indices queued.
    pub closed spec fn wf(&self) -> bool {
        &&& self.attempts@.len() == self.plan.chunks@.len()
        &&& self.downloaded@.len() == self.plan.chunks@.len()
        &&& self.completed@.len() == self.plan.chunks@.len()
        &&& forall|i: int| 0 <= i < self.pending@.len() ==> #[trigger] self.pending@[i] < self.plan.chunks@.len()
    }

    /// Queues every chunk that is not complete yet, in plan order; complete
    /// chunks count as settled from the start.
    pub fn new(plan: ChunkPlan) -> (d: ChunkDispatcher)
        requires
            all_measurable(plan.chunks@),
        ensures
            d.wf(),
            d@ == fresh_dispatcher(plan.chunks@),
    {
        let total = plan.chunks.len();
        let mut pending: VecDeque<usize> = VecDeque::new();
        let mut attempts: Vec<u64> = Vec::new();
        let mut downloaded: Vec<u64> = Vec::new();
        let mut completed: Vec<bool> = Vec::new();
        let mut settled: usize = 0;
        let mut index: usize = 0;
        while index < total
            invariant
                total == plan.chunks@.len(),
                index <= total,
                all_measurable(plan.chunks@),
                pending@ == incomplete_indices(plan.chunks@, index as int),
                settled == done_count(plan.chunks@, index as int),
                settled <= index,
                attempts@ == Seq::new(index as nat, |_i: int| 0u64),
                downloaded@ == Seq::new(index as nat, |i: int| plan.chunks@[i].downloaded),
                completed@ == Seq::new(index as nat, |i: int| chunk_done(plan.chunks@[i])),
                forall|i: int| 0 <= i < pending@.len() ==> #[trigger] pending@[i] < index,
            decreases total - index,
        {
            let chunk = plan.chunks[index];
            assert(chunk_measurable(plan.chunks@[index as int]));
            let done = chunk.downloaded >= chunk.range_len();
            attempts.push(0);
            downloaded.push(chunk.downloaded);
            completed.push(done);
            if done {
                settled = settled + 1;
            } else {
                pending.push_back(index);
            }
            index = index + 1;
            assert(attempts@ =~= Seq::new(index as nat, |_i: int| 0u64));
            assert(downloaded@ =~= Seq::new(index as nat, |i: int| plan.chunks@[i].downloaded));
            assert(completed@ =~= Seq::new(index as nat, |i: int| chunk_done(plan.chunks@[i])));
        }
        ChunkDispatcher { plan, pending, attempts, downloaded, completed, settled, failed: 0 }
    }

    /// Number of chunks in the plan.
    pub fn total(&self) -> (n: usize)
        ensures
            n == self@.chunks.len(),
    {
        self.plan.chunks.len()
    }

    /// The planned range of chunk `index`.
    pub fn chunk(&self, index: usize) -> (c: &Chunk)
        requires
            index < self@.chunks.len(),
        ensures
            *c == self@.chunks[index as int],
    {
        &self.plan.chunks[index]
    }

    /// The next queued chunk, or whether the worker should stop or wait.
    pub fn take(&mut self) -> (t: Take)
        requires
            old(self).wf(),
        ensures
            final(self).wf(),
            old(self)@.pending.len() > 0 ==> t == Take::Next(old(self)@.pending[0])
                && final(self)@ == (DispatcherView { pending: old(self)@.pending.drop_first(), ..old(self)@ }),
            old(self)@.pending.len() == 0 ==> final(self)@ == old(self)@ && t == (if old(self)@.settled
                == old(self)@.chunks.len() {
                Take::Exhausted
            } else {
                Take::Wait
            }),
            (t, final(self)@) == spec_take(old(self)@),
    {
        match self.pending.pop_front() {
            Some(index) => {
                assert(self.pending@ =~= old(self)@.pending.drop_first());
                Take::Next(index)
            },
            None => {
                if self.settled == self.plan.chunks.len() {
                    Take::Exhausted
                } else {
                    Take::Wait
                }
            },
        }
    }

    /// Counts one more attempt at chunk `index` and returns the new count.
    pub fn attempt(&mut self, index: usize) -> (n: u64)
        requires
            old(self).wf(),
            index < old(self)@.chunks.len(),
            old(self)@.attempts[index as int] < u64::MAX,
        ensures
            final(self).wf(),
            n == old(self)@.attempts[index as int] + 1,
            final(self)@ == (DispatcherView {
                attempts: old(self)@.attempts.update(index as int, n),
                ..old(self)@
            }),
    {
        let n = self.attempts[index] + 1;
        self.attempts.set(index, n);
        n
    }

    /// Forgets the progress of chunk `index` (a fresh attempt starts from zero).
    pub fn reset_progress(&mut self, index: usize)
        requires
            old(self).wf(),
            index < old(self)@.chunks.len(),
        ensures
            final(self).wf(),
            final(self)@ == (DispatcherView {
                downloaded: old(self)@.downloaded.update(index as int, 0),
                ..old(self)@
            }),
    {
        self.downloaded.set(index, 0);
    }

    /// Records that `written` bytes of chunk `index` are on disk.
    pub fn record_progress(&mut self, index: usize, written: u64)
        requires
            old(self).wf(),
            index < old(self)@.chunks.len(),
        ensures
            final(self).wf(),
            final(self)@ == (DispatcherView {
                downloaded: old(self)@.downloaded.update(index as int, written),
                ..old(self)@
            }),
    {
        self.downloaded.set(index, written);
    }

    /// Puts chunk `index` back at the end of the queue for another attempt.
    pub fn requeue(&mut self, index: usize)
        requires
            old(self).wf(),
            index < old(self)@.chunks.len(),
        ensures
            final(self).wf(),
            final(self)@ == (DispatcherView { pending: old(self)@.pending.push(index), ..old(self)@ }),
    {
        self.pending.push_back(index);
    }

    /// Marks chunk `index` complete.
    pub fn settle_complete(&mut self, index: usize)
        requires
            old(self).wf(),
            index < old(self)@.chunks.len(),
            old(self)@.settled < usize::MAX,
        ensures
            final(self).wf(),
            final(self)@ == (DispatcherView {
                completed: old(self)@.completed.update(index as int, true),
                settled: old(self)@.settled + 1,
                ..old(self)@
            }),
            final(self)@ == spec_settle_complete(old(self)@, index),
    {
        self.completed.set(index, true);
        self.settled = self.settled + 1;
    }

    /// Gives up on chunk `index` after its attempts ran out.
    pub fn settle_failed(&mut self, _index: usize)
        requires
            old(self).wf(),
            old(self)@.settled < usize::MAX,
            old(self)@.failed < usize::MAX,
        ensures
            final(self).wf(),
            final(self)@ == (DispatcherView {
                settled: old(self)@.settled + 1,
                failed: old(self)@.failed + 1,
                ..old(self)@
            }),
    {
        self.failed = self.failed + 1;
        self.settled = self.settled + 1;
    }

    /// Number of chunks given up on.
    pub fn failed_count(&self) -> (n: usize)
        ensures
            n == self@.failed,
    {
        self.failed
    }

    /// Number of chunks marked complete.
    pub fn completed_count(&self) -> (n: usize)
        requires
            self.wf(),
        ensures
            n == count_true(self@.completed, self@.completed.len() as int),
    {
        let mut n: usize = 0;
        let mut i: usize = 0;
        while i < self.completed.len()
            invariant
                i <= self.completed.len(),
                n == count_true(self.completed@, i as int),
                n <= i,
            decreases self.completed.len() - i,
        {
            if self.completed[i] {
                n = n + 1;
            }
            i = i + 1;
        }
        n
    }

    /// Whether every chunk has been settled one way or the other.
    pub fn is_fully_settled(&self) -> (b: bool)
        ensures
            b == (self@.settled == self@.chunks.len()),
    {
        self.settled == self.plan.chunks.len()
    }

    /// Bytes on disk per chunk, in plan order.
    pub fn downloaded_counts(&self) -> (counts: Vec<u64>)
        ensures
            counts@ == self@.downloaded,
            self.wf() ==> counts@.len() == self@.chunks.len(),
    {
        self.downloaded.clone()
    }
}

proof fn lemma_incomplete_indices(chunks: Seq<Chunk>, n: int)
    requires
        0 <= n <= chunks.len(),
        chunks.len() <= usize::MAX,
    ensures
        incomplete_indices(chunks, n).len() + done_count(chunks, n) == n,
        forall|i: int, j: int|
            0 <= i < j < incomplete_indices(chunks, n).len() ==> incomplete_indices(chunks, n)[i]
                < incomplete_indices(chunks, n)[j],
        forall|k: int|
            0 <= k < n ==> (incomplete_indices(chunks, n).contains(k as usize) <==> !chunk_done(
                #[trigger] chunks[k],
            )),
        forall|i: int|
            0 <= i < incomplete_indices(chunks, n).len() ==> #[trigger] incomplete_indices(chunks, n)[i]
                < n,
    decreases n,
{
    if n > 0 {
        lemma_incomplete_indices(chunks, n - 1);
        let prev = incomplete_indices(chunks, n - 1);
        if !chunk_done(chunks[n - 1]) {
            let cur = prev.push((n - 1) as usize);
            assert forall|k: int| 0 <= k < n implies (cur.contains(k as usize) <==> !chunk_done(
                #[trigger] chunks[k],
            )) by {
                if k < n - 1 {
                    if cur.contains(k as usize) {
                        let w = choose|w: int| 0 <= w < cur.len() && cur[w] == k as usize;
                        if w < prev.len() {
                            assert(prev.contains(k as usize));
                        }
                    }
                    if prev.contains(k as usize) {
                        let w = choose|w: int| 0 <= w < prev.len() && prev[w] == k as usize;
                        assert(cur[w] == k as usize);
                    }
                } else {
                    assert(cur[cur.len() - 1] == k as usize);
                }
            }
        } else {
            assert forall|k: int| 0 <= k < n implies (prev.contains(k as usize) <==> !chunk_done(
                #[trigger] chunks[k],
            )) by {
                if k == n - 1 && prev.contains(k as usize) {
                    let w = choose|w: int| 0 <= w < prev.len() && prev[w] == k as usize;
                }
            }
        }
    }
}

/// A fresh dispatcher queues each incomplete chunk exactly once, in plan
/// order, and nothing else; complete chunks count as settled. So the queued
/// and the settled chunks together account for the whole plan, and a
/// dispatcher is fully settled once every queued chunk has been settled once.
pub proof fn lemma_fresh_dispatcher_queues_each_incomplete_chunk_once(chunks: Seq<Chunk>)
    requires
        chunks.len() <= usize::MAX,
    ensures
        ({
            let d = fresh_dispatcher(chunks);
            &&& forall|i: int, j: int| 0 <= i < j < d.pending.len() ==> d.pending[i] < d.pending[j]
            &&& forall|k: int|
                0 <= k < chunks.len() ==> (d.pending.contains(k as usize) <==> !chunk_done(
                    #[trigger] chunks[k],
                ))
            &&& d.settled + d.pending.len() == chunks.len()
            &&& d.failed == 0
        }),
{
    lemma_incomplete_indices(chunks, chunks.len() as int);
}


/// Taking and settling drains the queue in order: a lone worker that settles
/// every chunk it takes is handed exactly the queued indices, first to last
/// (a requeued index comes again, at its place at the end), each queued chunk
/// ends complete, every handed-out chunk counts as settled, and `take` then
/// says the worker may stop exactly when all chunks are settled.
pub proof fn lemma_draining_hands_out_the_queue(d: DispatcherView)
    requires
        d.completed.len() <= usize::MAX,
        forall|k: int| 0 <= k < d.pending.len() ==> #[trigger] d.pending[k] < d.completed.len(),
    ensures
        ({
            let (taken, end) = drain_settling(d);
            &&& taken == d.pending
            &&& end.pending.len() == 0
            &&& end.chunks == d.chunks
            &&& end.settled == d.settled + d.pending.len()
            &&& end.completed.len() == d.completed.len()
            &&& forall|j: int| 0 <= j < d.completed.len() ==> #[trigger] end.completed[j]
                == (d.completed[j] || d.pending.contains(j as usize))
            &&& spec_take(end).0 == (if end.settled == end.chunks.len() { Take::Exhausted } else { Take::Wait })
        }),
    decreases d.pending.len(),
{
    if d.pending.len() > 0 {
        let i = d.pending[0];
        let next = spec_settle_complete(spec_take(d).1, i);
        assert(next.pending == d.pending.drop_first());
        assert forall|k: int| 0 <= k < next.pending.len() implies #[trigger] next.pending[k] < next.completed.len() by {
            assert(next.pending[k] == d.pending[k + 1]);
        }
        lemma_draining_hands_out_the_queue(next);
        let (rest, end) = drain_settling(next);
        assert(seq![i] + rest =~= d.pending);
        assert forall|j: int| 0 <= j < d.completed.len() implies #[trigger] end.completed[j]
            == (d.completed[j] || d.pending.contains(j as usize)) by {
            assert(next.completed[j] == (d.completed[j] || j == i as int));
            assert(end.completed[j] == (next.completed[j] || next.pending.contains(j as usize)));
            assert(d.pending.contains(j as usize) == (next.pending.contains(j as usize) || j == i as int)) by {
                if d.pending.contains(j as usize) {
                    let w = choose|w: int| 0 <= w < d.pending.len() && d.pending[w] == j as usize;
                    if w > 0 {
                        assert(next.pending[w - 1] == j as usize);
                        assert(next.pending.contains(j as usize));
                    } else {
                        assert(i == j as usize);
                    }
                }
                if next.pending.contains(j as usize) {
                    let w = choose|w: int| 0 <= w < next.pending.len() && next.pending[w] == j as usize;
                    assert(d.pending[w + 1] == j as usize);
                    assert(d.pending.contains(j as usize));
                }
                if j == i as int {
                    assert(d.pending[0] == j as usize);
                    assert(d.pending.contains(j as usize));
                }
            }
        }
    }
}

proof fn lemma_count_true_all(flags: Seq<bool>, n: int)
    requires
        0 <= n <= flags.len(),
        forall|j: int| 0 <= j < n ==> #[trigger] flags[j],
    ensures
        count_true(flags, n) == n,
    decreases n,
{
    if n > 0 {
        lemma_count_true_all(flags, n - 1);
    }
}

/// From a fresh dispatcher, a lone worker that settles every chunk it takes
/// is handed each incomplete chunk exactly once, in plan order; afterwards
/// every chunk is settled and complete and `take` says to stop.
pub proof fn lemma_each_incomplete_chunk_is_handed_out_once(chunks: Seq<Chunk>)
    requires
        chunks.len() <= usize::MAX,
    ensures
        ({
            let (taken, end) = drain_settling(fresh_dispatcher(chunks));
            &&& taken == incomplete_indices(chunks, chunks.len() as int)
            &&& end.settled == chunks.len()
            &&& count_true(end.completed, chunks.len() as int) == chunks.len()
            &&& spec_take(end).0 == Take::Exhausted
        }),
{
    let d = fresh_dispatcher(chunks);
    lemma_incomplete_indices(chunks, chunks.len() as int);
    assert forall|k: int| 0 <= k < d.pending.len() implies #[trigger] d.pending[k] < d.completed.len() by {}
    lemma_draining_hands_out_the_queue(d);
    let (taken, end) = drain_settling(d);
    assert forall|j: int| 0 <= j < chunks.len() implies #[trigger] end.completed[j] by {
        assert(end.completed[j] == (d.completed[j] || d.pending.contains(j as usize)));
        assert(d.completed[j] == chunk_done(chunks[j]));
    }
    lemma_count_true_all(end.completed, chunks.len() as int);
}


/// A chunk's state follows the bytes written for it: none is `Pending`, at
/// least its whole inclusive range `start..=end` is `Complete` (exactly the
/// chunks the dispatcher counts as done), anything in between is `Partial`.
pub proof fn lemma_chunk_state_follows_bytes_written(c: Chunk)
    requires
        chunk_measurable(c),
    ensures
        (spec_chunk_state(c) == ChunkState::Complete) <==> c.downloaded >= c.end - c.start + 1,
        (spec_chunk_state(c) == ChunkState::Complete) <==> chunk_done(c),
        (spec_chunk_state(c) == ChunkState::Pending) <==> c.downloaded == 0,
        (spec_chunk_state(c) == ChunkState::Partial) <==> (0 < c.downloaded && c.downloaded < c.end - c.start + 1),
{
}

} // verus!
