//! Bookkeeping of progress events per chunk and per worker.

use vstd::prelude::*;
use std::collections::HashMap;
use crate::engine::progress::ProgressEvent;
use crate::engine::planner::{chunk_count_for, planned_chunk};

verus! {

broadcast use vstd::std_specs::hash::group_hash_axioms;

/// The tracker's state as mathematical values. `worker_written[w][i]` is what
/// worker `w` last reported for chunk `i` (zero when it never reported).
pub struct TrackerView {
    pub total: Option<u64>,
    pub chunk_size: Option<u64>,
    pub written: Seq<u64>,
    pub done: Seq<bool>,
    pub started: Seq<bool>,
    pub chunk_worker: Map<usize, usize>,
    pub worker_written: Seq<Seq<u64>>,
    pub worker_active_chunk: Seq<Option<usize>>,
}

/// Progress of one download as reported by its workers.
pub struct ProgressTracker {
    pub total: Option<u64>,
    chunk_size: Option<u64>,
    written: Vec<u64>,
    done: Vec<bool>,
    started: Vec<bool>,
    chunk_worker: HashMap<usize, usize>,
    worker_written: Vec<Vec<u64>>,
    worker_active_chunk: Vec<Option<usize>>,
}

impl View for ProgressTracker {
    type V = TrackerView;

    closed spec fn view(&self) -> TrackerView {
        TrackerView {
            total: self.total,
            chunk_size: self.chunk_size,
            written: self.written@,
            done: self.done@,
            started: self.started@,
            chunk_worker: self.chunk_worker@,
            worker_written: self.worker_written@.map_values(|row: Vec<u64>| row@),
            worker_active_chunk: self.worker_active_chunk@,
        }
    }
}

/// `s` extended with `fill` to at least `len` entries.
pub open spec fn grown<T>(s: Seq<T>, len: int, fill: T) -> Seq<T> {
    if s.len() >= len {
        s
    } else {
        s + Seq::new((len - s.len()) as nat, |_i: int| fill)
    }
}

pub open spec fn max_u64(a: u64, b: u64) -> u64 {
    if a >= b { a } else { b }
}

/// The tracker after `event` (events for a worker the tracker does not know
/// are not allowed, see `handle`).
pub open spec fn spec_handle(v: TrackerView, event: ProgressEvent) -> TrackerView {
    match event {
        ProgressEvent::Start { total, chunk_size } => TrackerView {
            total: Some(total),
            chunk_size: Some(chunk_size),
            ..v
        },
        ProgressEvent::ChunkStarted { worker, index } => TrackerView {
            written: grown(v.written, index + 1, 0u64),
            done: grown(v.done, index + 1, false),
            started: grown(v.started, index + 1, false).update(index as int, true),
            chunk_worker: v.chunk_worker.insert(index, worker),
            worker_written: v.worker_written.update(
                worker as int,
                grown(v.worker_written[worker as int], index + 1, 0u64),
            ),
            worker_active_chunk: v.worker_active_chunk.update(worker as int, Some(index)),
            ..v
        },
        ProgressEvent::ChunkAdvanced { worker, index, written } => {
            let w = grown(v.written, index + 1, 0u64);
            TrackerView {
                written: w.update(index as int, max_u64(w[index as int], written)),
                done: grown(v.done, index + 1, false),
                started: grown(v.started, index + 1, false),
                chunk_worker: v.chunk_worker.insert(index, worker),
                worker_written: v.worker_written.update(
                    worker as int,
                    grown(v.worker_written[worker as int], index + 1, 0u64).update(index as int, written),
                ),
                ..v
            }
        },
        ProgressEvent::ChunkComplete { worker, index } => TrackerView {
            written: grown(v.written, index + 1, 0u64),
            done: grown(v.done, index + 1, false).update(index as int, true),
            started: grown(v.started, index + 1, false),
            worker_active_chunk: if v.worker_active_chunk[worker as int] == Some(index) {
                v.worker_active_chunk.update(worker as int, None)
            } else {
                v.worker_active_chunk
            },
            ..v
        },
        ProgressEvent::Finite { .. } => v,
    }
}

/// The worker and chunk an event names, when it names them.
pub open spec fn event_target(event: ProgressEvent) -> Option<(usize, usize)> {
    match event {
        ProgressEvent::ChunkStarted { worker, index } => Some((worker, index)),
        ProgressEvent::ChunkAdvanced { worker, index, .. } => Some((worker, index)),
        ProgressEvent::ChunkComplete { worker, index } => Some((worker, index)),
        _ => None,
    }
}

/// Sum of a sequence of counters.
pub open spec fn sum_u64(s: Seq<u64>) -> int
    decreases s.len(),
{
    if s.len() == 0 {
        0
    } else {
        sum_u64(s.drop_last()) + s.last()
    }
}

/// Number of `true` entries.
pub open spec fn count_flags(s: Seq<bool>) -> nat
    decreases s.len(),
{
    if s.len() == 0 {
        0
    } else {
        count_flags(s.drop_last()) + if s.last() { 1nat } else { 0nat }
    }
}

/// Number of `Some` entries.
pub open spec fn count_active(s: Seq<Option<usize>>) -> nat
    decreases s.len(),
{
    if s.len() == 0 {
        0
    } else {
        count_active(s.drop_last()) + if s.last() is Some { 1nat } else { 0nat }
    }
}

/// `ceil(total / size)` chunks, at least one, once size and total are known.
pub open spec fn spec_planned_chunk_count(v: TrackerView) -> usize {
    match (v.total, v.chunk_size) {
        (Some(total), Some(size)) => if size > 0 {
            let c = (total + size - 1) / (size as int);
            if c >= 1 { c as usize } else { 1 }
        } else {
            0
        },
        _ => 0,
    }
}

pub open spec fn spec_chunk_for_offset(v: TrackerView, offset: u64) -> Option<usize> {
    match v.chunk_size {
        None => None,
        Some(size) => if size == 0 {
            None
        } else {
            let index = (offset / size) as usize;
            let planned = spec_planned_chunk_count(v);
            let last: usize = if planned == 0 { 0 } else { (planned - 1) as usize };
            Some(if index <= last { index } else { last })
        },
    }
}

proof fn lemma_div_ceil(total: int, size: int)
    requires
        total >= 0,
        size > 0,
    ensures
        (total + size - 1) / size == total / size + if total % size == 0 { 0int } else { 1int },
{
    assert((total + size - 1) / size == total / size + if total % size == 0 { 0int } else { 1int })
        by (nonlinear_arith)
        requires
            total >= 0,
            size > 0,
    {
        let q = total / size;
        let r = total % size;
        assert(total == q * size + r);
        assert(0 <= r < size);
        if r == 0 {
            assert(total + size - 1 == q * size + (size - 1));
        } else {
            assert(total + size - 1 == (q + 1) * size + (r - 1));
        }
    }
}

proof fn lemma_sum_prefix_bounded(s: Seq<u64>, k: int)
    requires
        0 <= k <= s.len(),
    ensures
        0 <= sum_u64(s.take(k)) <= sum_u64(s),
    decreases s.len(),
{
    if s.len() > 0 {
        if k < s.len() {
            assert(s.drop_last().take(k) =~= s.take(k));
            lemma_sum_prefix_bounded(s.drop_last(), k);
        } else {
            assert(s.take(k) =~= s);
            lemma_sum_prefix_bounded(s.drop_last(), k - 1);
        }
    } else {
        assert(s.take(k) =~= s);
    }
}

/// Whether the counters in `v` sum to a value that fits a `u64`.
pub fn sum_fits(v: &Vec<u64>) -> (b: bool)
    ensures
        b == (sum_u64(v@) <= u64::MAX),
{
    let mut n: u64 = 0;
    let mut i: usize = 0;
    while i < v.len()
        invariant
            i <= v.len(),
            n == sum_u64(v@.take(i as int)),
        decreases v.len() - i,
    {
        proof {
            assert(v@.take(i + 1).drop_last() =~= v@.take(i as int));
            lemma_sum_prefix_bounded(v@, i + 1);
        }
        match n.checked_add(v[i]) {
            Some(m) => n = m,
            None => return false,
        }
        i = i + 1;
    }
    assert(v@.take(i as int) =~= v@);
    true
}

/// Sum of the counters in `v`.
pub fn sum_vec(v: &Vec<u64>) -> (n: u64)
    requires
        sum_u64(v@) <= u64::MAX,
    ensures
        n == sum_u64(v@),
{
    let mut n: u64 = 0;
    let mut i: usize = 0;
    while i < v.len()
        invariant
            i <= v.len(),
            n == sum_u64(v@.take(i as int)),
            sum_u64(v@) <= u64::MAX,
        decreases v.len() - i,
    {
        proof {
            assert(v@.take(i + 1).drop_last() =~= v@.take(i as int));
            lemma_sum_prefix_bounded(v@, i + 1);
        }
        n = n + v[i];
        i = i + 1;
    }
    assert(v@.take(i as int) =~= v@);
    n
}

impl ProgressTracker {
    /// Lengths of the per-chunk and per-worker tables agree.
    pub closed spec fn wf(&self) -> bool {
        &&& self.done@.len() == self.written@.len()
        &&& self.started@.len() == self.written@.len()
        &&& self.worker_written@.len() == self.worker_active_chunk@.len()
    }

    /// Number of workers the tracker keeps tables for.
    pub closed spec fn workers(&self) -> nat {
        self.worker_active_chunk@.len()
    }

    /// An empty tracker for `workers` workers.
    pub fn new(workers: usize) -> (t: ProgressTracker)
        ensures
            t.wf(),
            t.workers() == workers,
            t@ == (TrackerView {
                total: None,
                chunk_size: None,
                written: Seq::empty(),
                done: Seq::empty(),
                started: Seq::empty(),
                chunk_worker: Map::empty(),
                worker_written: Seq::new(workers as nat, |_i: int| Seq::<u64>::empty()),
                worker_active_chunk: Seq::new(workers as nat, |_i: int| None),
            }),
    {
        let mut worker_written: Vec<Vec<u64>> = Vec::new();
        let mut worker_active_chunk: Vec<Option<usize>> = Vec::new();
        let mut i: usize = 0;
        while i < workers
            invariant
                i <= workers,
                worker_written@.len() == i,
                worker_active_chunk@ == Seq::new(i as nat, |_i: int| None::<usize>),
                forall|k: int| 0 <= k < i ==> (#[trigger] worker_written@[k])@ == Seq::<u64>::empty(),
            decreases workers - i,
        {
            worker_written.push(Vec::new());
            worker_active_chunk.push(None);
            i = i + 1;
            assert(worker_active_chunk@ =~= Seq::new(i as nat, |_i: int| None::<usize>));
        }
        let t = ProgressTracker {
            total: None,
            chunk_size: None,
            written: Vec::new(),
            done: Vec::new(),
            started: Vec::new(),
            chunk_worker: HashMap::new(),
            worker_written,
            worker_active_chunk,
        };
        assert(t@.worker_written =~= Seq::new(workers as nat, |_i: int| Seq::<u64>::empty()));
        t
    }

    /// Records one progress event.
    pub fn handle(&mut self, event: ProgressEvent)
        requires
            old(self).wf(),
            event_target(event) matches Some((worker, index)) ==> worker < old(self).workers()
                && index < usize::MAX,
        ensures
            final(self).wf(),
            final(self).workers() == old(self).workers(),
            final(self)@ == spec_handle(old(self)@, event),
    {
        match event {
            ProgressEvent::Start { total, chunk_size } => {
                self.total = Some(total);
                self.chunk_size = Some(chunk_size);
            },
            ProgressEvent::ChunkStarted { worker, index } => {
                self.ensure_index(index);
                self.started.set(index, true);
                self.chunk_worker.insert(index, worker);
                self.worker_active_chunk.set(worker, Some(index));
                grow_row(&mut self.worker_written[worker], index);
                assert(self@.worker_written =~= spec_handle(old(self)@, event).worker_written);
            },
            ProgressEvent::ChunkAdvanced { worker, index, written } => {
                self.ensure_index(index);
                let prev = self.written[index];
                self.written.set(index, if prev >= written { prev } else { written });
                self.chunk_worker.insert(index, worker);
                grow_row(&mut self.worker_written[worker], index);
                self.worker_written[worker].set(index, written);
                assert(self@.worker_written =~= spec_handle(old(self)@, event).worker_written);
            },
            ProgressEvent::ChunkComplete { worker, index } => {
                self.ensure_index(index);
                self.done.set(index, true);
                if self.worker_active_chunk[worker] == Some(index) {
                    self.worker_active_chunk.set(worker, None);
                }
            },
            ProgressEvent::Finite { .. } => {},
        }
    }

    /// The announced size, if the start was announced.
    pub fn total(&self) -> (t: Option<u64>)
        ensures
            t == self@.total,
    {
        self.total
    }

    /// Whether `done_bytes` can count the bytes written in a `u64`.
    pub fn done_bytes_fit(&self) -> (b: bool)
        ensures
            b == (sum_u64(self@.written) <= u64::MAX),
    {
        sum_fits(&self.written)
    }

    /// Bytes written, summed over chunks (the best report per chunk).
    pub fn done_bytes(&self) -> (n: u64)
        requires
            sum_u64(self@.written) <= u64::MAX,
        ensures
            n == sum_u64(self@.written),
    {
        sum_vec(&self.written)
    }

    /// Number of chunks heard of so far.
    pub fn chunk_count(&self) -> (n: usize)
        ensures
            n == (if self@.chunk_worker.len() >= self@.written.len() {
                self@.chunk_worker.len()
            } else {
                self@.written.len()
            }),
    {
        let a = self.chunk_worker.len();
        let b = self.written.len();
        if a >= b { a } else { b }
    }

    /// Number of chunks the announced size and chunk size make (at least
    /// one), or zero before the start was announced.
    pub fn planned_chunk_count(&self) -> (n: usize)
        ensures
            n == spec_planned_chunk_count(self@),
    {
        match (self.total, self.chunk_size) {
            (Some(total), Some(size)) => {
                if size > 0 {
                    let q = total / size;
                    proof {
                        if total % size != 0 {
                            assert(size >= 2);
                            assert(q <= total / 2) by (nonlinear_arith)
                                requires size >= 2, q == total / size, total >= 0;
                        }
                    }
                    let count = if total % size == 0 { q } else { q + 1 };
                    proof {
                        lemma_div_ceil(total as int, size as int);
                    }
                    if count >= 1 { count as usize } else { 1 }
                } else {
                    0
                }
            },
            _ => 0,
        }
    }

    /// The chunk that byte `offset` belongs to, clamped to the last planned chunk.
    pub fn chunk_for_offset(&self, offset: u64) -> (r: Option<usize>)
        ensures
            r == spec_chunk_for_offset(self@, offset),
    {
        let size = match self.chunk_size {
            Some(size) => size,
            None => return None,
        };
        if size == 0 {
            return None;
        }
        let index = (offset / size) as usize;
        let planned = self.planned_chunk_count();
        let last = if planned == 0 { 0 } else { planned - 1 };
        Some(if index <= last { index } else { last })
    }

    /// The worker that last reported on chunk `index`.
    pub fn chunk_worker(&self, index: usize) -> (r: Option<usize>)
        ensures
            r == (if self@.chunk_worker.contains_key(index) {
                Some(self@.chunk_worker[index])
            } else {
                None
            }),
    {
        match self.chunk_worker.get(&index) {
            Some(worker) => Some(*worker),
            None => None,
        }
    }

    /// Number of chunks reported complete.
    pub fn finished_chunks(&self) -> (n: usize)
        ensures
            n == count_flags(self@.done),
    {
        let mut n: usize = 0;
        let mut i: usize = 0;
        while i < self.done.len()
            invariant
                i <= self.done.len(),
                n == count_flags(self.done@.take(i as int)),
                n <= i,
            decreases self.done.len() - i,
        {
            assert(self.done@.take(i + 1).drop_last() =~= self.done@.take(i as int));
            if self.done[i] {
                n = n + 1;
            }
            i = i + 1;
        }
        assert(self.done@.take(i as int) =~= self.done@);
        n
    }

    /// Number of workers currently on a chunk.
    pub fn active_worker_count(&self) -> (n: usize)
        ensures
            n == count_active(self@.worker_active_chunk),
    {
        let mut n: usize = 0;
        let mut i: usize = 0;
        while i < self.worker_active_chunk.len()
            invariant
                i <= self.worker_active_chunk.len(),
                n == count_active(self.worker_active_chunk@.take(i as int)),
                n <= i,
            decreases self.worker_active_chunk.len() - i,
        {
            assert(self.worker_active_chunk@.take(i + 1).drop_last()
                =~= self.worker_active_chunk@.take(i as int));
            if self.worker_active_chunk[i].is_some() {
                n = n + 1;
            }
            i = i + 1;
        }
        assert(self.worker_active_chunk@.take(i as int) =~= self.worker_active_chunk@);
        n
    }

    /// Whether `worker_bytes(worker)` can count that worker's bytes in a `u64`.
    pub fn worker_bytes_fit(&self, worker: usize) -> (b: bool)
        requires
            self.wf(),
        ensures
            b == (worker < self.workers() ==> sum_u64(self@.worker_written[worker as int]) <= u64::MAX),
    {
        if worker < self.worker_written.len() {
            sum_fits(&self.worker_written[worker])
        } else {
            true
        }
    }

    /// Bytes reported by `worker`, summed over the chunks it worked on
    /// (zero for an unknown worker).
    pub fn worker_bytes(&self, worker: usize) -> (n: u64)
        requires
            self.wf(),
            worker < self.workers() ==> sum_u64(self@.worker_written[worker as int]) <= u64::MAX,
        ensures
            n == (if worker < self.workers() {
                sum_u64(self@.worker_written[worker as int])
            } else {
                0
            }),
    {
        if worker < self.worker_written.len() {
            sum_vec(&self.worker_written[worker])
        } else {
            0
        }
    }

    /// The chunk `worker` is on, if any.
    pub fn worker_active_chunk(&self, worker: usize) -> (r: Option<usize>)
        ensures
            r == (if worker < self@.worker_active_chunk.len() {
                self@.worker_active_chunk[worker as int]
            } else {
                None
            }),
    {
        if worker < self.worker_active_chunk.len() {
            self.worker_active_chunk[worker]
        } else {
            None
        }
    }

    fn ensure_index(&mut self, index: usize)
        requires
            old(self).wf(),
            index < usize::MAX,
        ensures
            final(self).wf(),
            final(self)@ == (TrackerView {
                written: grown(old(self)@.written, index + 1, 0u64),
                done: grown(old(self)@.done, index + 1, false),
                started: grown(old(self)@.started, index + 1, false),
                ..old(self)@
            }),
    {
        let ghost w0 = self.written@;
        let ghost d0 = self.done@;
        let ghost s0 = self.started@;
        while self.written.len() <= index
            invariant
                self.wf(),
                self.written@.len() >= w0.len(),
                self.written@.len() <= index + 1 || self.written@.len() == w0.len(),
                self.written@ == grown(w0, self.written@.len() as int, 0u64),
                self.done@ == grown(d0, self.written@.len() as int, false),
                self.started@ == grown(s0, self.written@.len() as int, false),
                self.total == old(self).total,
                self.chunk_size == old(self).chunk_size,
                self.chunk_worker == old(self).chunk_worker,
                self.worker_written == old(self).worker_written,
                self.worker_active_chunk == old(self).worker_active_chunk,
                w0 == old(self)@.written,
                d0 == old(self)@.done,
                s0 == old(self)@.started,
            decreases index + 1 - self.written@.len(),
        {
            self.written.push(0);
            self.done.push(false);
            self.started.push(false);
            assert(self.written@ =~= grown(w0, self.written@.len() as int, 0u64));
            assert(self.done@ =~= grown(d0, self.written@.len() as int, false));
            assert(self.started@ =~= grown(s0, self.written@.len() as int, false));
        }
        assert(self.written@ =~= grown(w0, index + 1, 0u64));
        assert(self.done@ =~= grown(d0, index + 1, false));
        assert(self.started@ =~= grown(s0, index + 1, false));
    }
}

fn grow_row(row: &mut Vec<u64>, index: usize)
    requires
        index < usize::MAX,
    ensures
        final(row)@ == grown(old(row)@, index + 1, 0u64),
{
    let ghost r0 = row@;
    while row.len() <= index
        invariant
            row@.len() >= r0.len(),
            row@.len() <= index + 1 || row@.len() == r0.len(),
            row@ == grown(r0, row@.len() as int, 0u64),
            r0 == old(row)@,
        decreases index + 1 - row@.len(),
    {
        row.push(0);
        assert(row@ =~= grown(r0, row@.len() as int, 0u64));
    }
    assert(row@ =~= grown(r0, index + 1, 0u64));
}

/// Progress only grows: after any event every chunk the tracker knew keeps
/// at least the bytes it had, a finished chunk stays finished, and no chunk
/// is forgotten.
pub proof fn lemma_progress_never_goes_back(v: TrackerView, event: ProgressEvent, i: int)
    requires
        0 <= i < v.written.len(),
        v.done.len() == v.written.len(),
        event_target(event) matches Some((worker, _)) ==> worker < v.worker_written.len(),
    ensures
        spec_handle(v, event).written.len() >= v.written.len(),
        spec_handle(v, event).written[i] >= v.written[i],
        v.done[i] ==> spec_handle(v, event).done[i],
{
}

/// The bytes counted as done never shrink across any event, provided the
/// event names a known worker.
pub proof fn lemma_done_bytes_never_shrink(v: TrackerView, event: ProgressEvent)
    requires
        event_target(event) matches Some((worker, _)) ==> worker < v.worker_written.len(),
    ensures
        sum_u64(spec_handle(v, event).written) >= sum_u64(v.written),
{
    let w = spec_handle(v, event).written;
    assert forall|i: int| 0 <= i < v.written.len() implies w[i] >= v.written[i] by {
        assert(w.len() >= v.written.len());
    }
    lemma_sum_dominated(v.written, w);
}

/// A sequence that is at least as long and entrywise no smaller has a sum
/// at least as large.
proof fn lemma_sum_dominated(a: Seq<u64>, b: Seq<u64>)
    requires
        b.len() >= a.len(),
        forall|i: int| 0 <= i < a.len() ==> b[i] >= a[i],
    ensures
        sum_u64(b) >= sum_u64(a),
    decreases b.len(),
{
    if b.len() == 0 {
    } else if a.len() == b.len() {
        assert forall|i: int| 0 <= i < a.drop_last().len() implies b.drop_last()[i] >= a.drop_last()[i] by {
        }
        lemma_sum_dominated(a.drop_last(), b.drop_last());
    } else {
        lemma_sum_dominated(a, b.drop_last());
    }
}

/// The tracker and the planner agree on where a byte lives: once the start
/// of a download of `total` bytes in chunks of `size` bytes is announced,
/// the chunk the tracker names for any byte offset is the planned chunk
/// whose range holds that byte.
pub proof fn lemma_offsets_map_to_their_planned_chunk(v: TrackerView, offset: u64)
    requires
        v.total matches Some(total) && offset < total,
        v.chunk_size matches Some(size) && size > 0,
        v.total->0 <= usize::MAX,
    ensures
        ({
            let total = v.total->0 as int;
            let size = v.chunk_size->0 as int;
            let i = spec_chunk_for_offset(v, offset)->0 as int;
            &&& spec_chunk_for_offset(v, offset) is Some
            &&& i < chunk_count_for(total, size)
            &&& planned_chunk(i, total, size).start <= offset <= planned_chunk(i, total, size).end
        }),
{
    let total = v.total->0 as int;
    let size = v.chunk_size->0 as int;
    let q = offset as int / size;
    vstd::arithmetic::div_mod::lemma_fundamental_div_mod(offset as int, size);
    lemma_div_ceil(total, size);
    vstd::arithmetic::div_mod::lemma_fundamental_div_mod(total, size);
    let c = (total + size - 1) / size;
    assert(q < c) by (nonlinear_arith)
        requires
            offset as int == size * q + offset as int % size,
            0 <= offset as int % size < size,
            total == size * (total / size) + total % size,
            0 <= total % size < size,
            c == total / size + if total % size == 0 { 0int } else { 1int },
            offset < total,
            size > 0;
    assert(q * size <= offset as int) by (nonlinear_arith)
        requires
            offset as int == size * q + offset as int % size,
            0 <= offset as int % size;
    assert((offset as int) < (q + 1) * size) by (nonlinear_arith)
        requires
            offset as int == size * q + offset as int % size,
            offset as int % size < size;
    assert(q <= offset) by (nonlinear_arith)
        requires
            q * size <= offset as int,
            size >= 1,
            q >= 0;
    assert(c <= total) by (nonlinear_arith)
        requires
            c == total / size + if total % size == 0 { 0int } else { 1int },
            total == size * (total / size) + total % size,
            0 <= total % size < size,
            size >= 1,
            total >= 1;
    assert(spec_planned_chunk_count(v) == c);
    assert((offset / v.chunk_size->0) as int == q);
    assert(spec_chunk_for_offset(v, offset)->0 as int == q);
}


/// The tracker `ProgressTracker::new(workers)` gives.
pub open spec fn fresh_tracker(workers: nat) -> TrackerView {
    TrackerView {
        total: None,
        chunk_size: None,
        written: Seq::empty(),
        done: Seq::empty(),
        started: Seq::empty(),
        chunk_worker: Map::empty(),
        worker_written: Seq::new(workers, |_i: int| Seq::<u64>::empty()),
        worker_active_chunk: Seq::new(workers, |_i: int| None),
    }
}

/// The tracker after handling `events` in order, starting from `v`.
pub open spec fn handle_all(v: TrackerView, events: Seq<ProgressEvent>) -> TrackerView
    decreases events.len(),
{
    if events.len() == 0 {
        v
    } else {
        spec_handle(handle_all(v, events.drop_last()), events.last())
    }
}

/// Every event of `events` that names a worker names one below `workers`.
pub open spec fn events_name_workers_below(events: Seq<ProgressEvent>, workers: nat) -> bool {
    forall|k: int| 0 <= k < events.len() ==> (event_target(#[trigger] events[k]) matches Some((w, _)) ==> w < workers)
}

/// One more than the largest chunk index any of `events` names (0 when none does).
pub open spec fn chunk_span(events: Seq<ProgressEvent>) -> nat
    decreases events.len(),
{
    if events.len() == 0 {
        0
    } else {
        let s = chunk_span(events.drop_last());
        match event_target(events.last()) {
            Some((_, i)) => if i + 1 > s { (i + 1) as nat } else { s },
            None => s,
        }
    }
}

/// The largest byte count reported for chunk `i` among `events` (0 when none).
pub open spec fn best_written(events: Seq<ProgressEvent>, i: int) -> u64
    decreases events.len(),
{
    if events.len() == 0 {
        0
    } else {
        let b = best_written(events.drop_last(), i);
        match events.last() {
            ProgressEvent::ChunkAdvanced { index, written, .. } => if index == i { max_u64(b, written) } else { b },
            _ => b,
        }
    }
}

/// Whether some event of `events` completes chunk `i`.
pub open spec fn was_completed(events: Seq<ProgressEvent>, i: int) -> bool
    decreases events.len(),
{
    if events.len() == 0 {
        false
    } else {
        was_completed(events.drop_last(), i) || (events.last() matches ProgressEvent::ChunkComplete { index, .. } && index == i)
    }
}

/// The worker of the last start or advance of chunk `i` among `events`.
pub open spec fn last_worker(events: Seq<ProgressEvent>, i: usize) -> Option<usize>
    decreases events.len(),
{
    if events.len() == 0 {
        None
    } else {
        match events.last() {
            ProgressEvent::ChunkStarted { worker, index } => if index == i { Some(worker) } else { last_worker(events.drop_last(), i) },
            ProgressEvent::ChunkAdvanced { worker, index, .. } => if index == i { Some(worker) } else { last_worker(events.drop_last(), i) },
            _ => last_worker(events.drop_last(), i),
        }
    }
}

/// The chunk worker `w` last started, unless a completion of that chunk by
/// `w` came after it.
pub open spec fn active_chunk_of(events: Seq<ProgressEvent>, w: int) -> Option<usize>
    decreases events.len(),
{
    if events.len() == 0 {
        None
    } else {
        let a = active_chunk_of(events.drop_last(), w);
        match events.last() {
            ProgressEvent::ChunkStarted { worker, index } => if worker == w { Some(index) } else { a },
            ProgressEvent::ChunkComplete { worker, index } => if worker == w && a == Some(index) { None } else { a },
            _ => a,
        }
    }
}

/// The total and chunk size of the last `Start` among `events`.
pub open spec fn last_start(events: Seq<ProgressEvent>) -> Option<(u64, u64)>
    decreases events.len(),
{
    if events.len() == 0 {
        None
    } else {
        match events.last() {
            ProgressEvent::Start { total, chunk_size } => Some((total, chunk_size)),
            _ => last_start(events.drop_last()),
        }
    }
}

/// What a fresh tracker holds after `events`, field by field.
proof fn lemma_tracker_fold(workers: nat, events: Seq<ProgressEvent>)
    requires
        events_name_workers_below(events, workers),
    ensures
        ({
            let v = handle_all(fresh_tracker(workers), events);
            let span = chunk_span(events);
            &&& v.written =~= Seq::new(span, |i: int| best_written(events, i))
            &&& v.done =~= Seq::new(span, |i: int| was_completed(events, i))
            &&& v.started.len() == span
            &&& forall|i: int| #![auto] i >= span ==> best_written(events, i) == 0 && !was_completed(events, i)
            &&& v.total == (match last_start(events) { Some(s) => Some(s.0), None => None::<u64> })
            &&& v.chunk_size == (match last_start(events) { Some(s) => Some(s.1), None => None::<u64> })
            &&& forall|i: usize| #![auto] (if v.chunk_worker.contains_key(i) { Some(v.chunk_worker[i]) } else { None })
                == last_worker(events, i)
            &&& v.worker_active_chunk.len() == workers
            &&& v.worker_written.len() == workers
            &&& forall|w: int| 0 <= w < workers ==> #[trigger] v.worker_active_chunk[w] == active_chunk_of(events, w)
        }),
    decreases events.len(),
{
    if events.len() > 0 {
        let prev = events.drop_last();
        assert forall|k: int| 0 <= k < prev.len() implies (event_target(#[trigger] prev[k]) matches Some((w, _))
            ==> w < workers) by {
            assert(prev[k] == events[k]);
        }
        lemma_tracker_fold(workers, prev);
        let e = events.last();
        assert(events[events.len() - 1] == e);
        let v0 = handle_all(fresh_tracker(workers), prev);
        let v = handle_all(fresh_tracker(workers), events);
        assert(v == spec_handle(v0, e));
        let s0 = chunk_span(prev);
        let span = chunk_span(events);
        match e {
            ProgressEvent::Start { .. } => {
                assert(span == s0);
                assert(v.written =~= Seq::new(span, |i: int| best_written(events, i)));
                assert(v.done =~= Seq::new(span, |i: int| was_completed(events, i)));
            },
            ProgressEvent::Finite { .. } => {
                assert(span == s0);
                assert(v.written =~= Seq::new(span, |i: int| best_written(events, i)));
                assert(v.done =~= Seq::new(span, |i: int| was_completed(events, i)));
            },
            ProgressEvent::ChunkStarted { worker, index } => {
                assert(worker < workers);
                assert(span == if index + 1 > s0 { (index + 1) as nat } else { s0 });
                assert(v.written =~= Seq::new(span, |i: int| best_written(events, i))) by {
                    assert forall|i: int| 0 <= i < span implies #[trigger] v.written[i] == best_written(events, i) by {
                        if i < s0 {
                            assert(v0.written[i] == best_written(prev, i));
                        } else {
                            assert(best_written(prev, i) == 0);
                        }
                    }
                }
                assert(v.done =~= Seq::new(span, |i: int| was_completed(events, i))) by {
                    assert(v0.done.len() == s0);
                    assert forall|i: int| 0 <= i < span implies #[trigger] v.done[i] == was_completed(events, i) by {
                        assert(was_completed(events, i) == (was_completed(prev, i)
                            || (e matches ProgressEvent::ChunkComplete { index, .. } && index == i)));
                        if i < s0 {
                            assert(v0.done[i] == was_completed(prev, i));
                        } else {
                            assert(!was_completed(prev, i));
                        }
                    }
                }
                assert forall|w: int| 0 <= w < workers implies #[trigger] v.worker_active_chunk[w]
                    == active_chunk_of(events, w) by {}
            },
            ProgressEvent::ChunkAdvanced { worker, index, written } => {
                assert(worker < workers);
                assert(span == if index + 1 > s0 { (index + 1) as nat } else { s0 });
                assert(v.written =~= Seq::new(span, |i: int| best_written(events, i))) by {
                    assert forall|i: int| 0 <= i < span implies #[trigger] v.written[i] == best_written(events, i) by {
                        if i < s0 {
                            assert(v0.written[i] == best_written(prev, i));
                        } else {
                            assert(best_written(prev, i) == 0);
                        }
                    }
                }
                assert(v.done =~= Seq::new(span, |i: int| was_completed(events, i))) by {
                    assert(v0.done.len() == s0);
                    assert forall|i: int| 0 <= i < span implies #[trigger] v.done[i] == was_completed(events, i) by {
                        assert(was_completed(events, i) == (was_completed(prev, i)
                            || (e matches ProgressEvent::ChunkComplete { index, .. } && index == i)));
                        if i < s0 {
                            assert(v0.done[i] == was_completed(prev, i));
                        } else {
                            assert(!was_completed(prev, i));
                        }
                    }
                }
            },
            ProgressEvent::ChunkComplete { worker, index } => {
                assert(worker < workers);
                assert(span == if index + 1 > s0 { (index + 1) as nat } else { s0 });
                assert(v.written =~= Seq::new(span, |i: int| best_written(events, i))) by {
                    assert forall|i: int| 0 <= i < span implies #[trigger] v.written[i] == best_written(events, i) by {
                        if i < s0 {
                            assert(v0.written[i] == best_written(prev, i));
                        } else {
                            assert(best_written(prev, i) == 0);
                        }
                    }
                }
                assert(v.done =~= Seq::new(span, |i: int| was_completed(events, i))) by {
                    assert(v0.done.len() == s0);
                    assert forall|i: int| 0 <= i < span implies #[trigger] v.done[i] == was_completed(events, i) by {
                        assert(was_completed(events, i) == (was_completed(prev, i)
                            || (e matches ProgressEvent::ChunkComplete { index, .. } && index == i)));
                        if i < s0 {
                            assert(v0.done[i] == was_completed(prev, i));
                        } else {
                            assert(!was_completed(prev, i));
                        }
                    }
                }
                assert forall|w: int| 0 <= w < workers implies #[trigger] v.worker_active_chunk[w]
                    == active_chunk_of(events, w) by {}
            },
        }
        assert(v.started.len() == span);
        assert forall|i: int| #![auto] i >= span implies best_written(events, i) == 0 && !was_completed(events, i) by {
            assert(i >= s0);
            assert(best_written(prev, i) == 0 && !was_completed(prev, i));
            match e {
                ProgressEvent::ChunkAdvanced { index, .. } => assert(index != i),
                ProgressEvent::ChunkComplete { index, .. } => assert(index != i),
                _ => {},
            }
        }
        assert(v.total == (match last_start(events) { Some(s) => Some(s.0), None => None::<u64> }));
        assert(v.chunk_size == (match last_start(events) { Some(s) => Some(s.1), None => None::<u64> }));
        assert forall|i: usize| #![auto] (if v.chunk_worker.contains_key(i) { Some(v.chunk_worker[i]) } else { None })
                == last_worker(events, i) by {
            assert((if v0.chunk_worker.contains_key(i) { Some(v0.chunk_worker[i]) } else { None })
                == last_worker(prev, i));
        }
        assert(v.worker_active_chunk.len() == workers);
        assert(v.worker_written.len() == workers);
        assert(forall|w: int| 0 <= w < workers ==> #[trigger] v.worker_active_chunk[w] == active_chunk_of(events, w));
    } else {
        let v = handle_all(fresh_tracker(workers), events);
        assert(v.written =~= Seq::new(0, |i: int| best_written(events, i)));
        assert(v.done =~= Seq::new(0, |i: int| was_completed(events, i)));
    }
}

/// Done bytes over any run of events: each chunk counts the largest byte
/// count reported for it (a later, smaller report never lowers it), and the
/// chunks the tracker lists are those the events named.
pub proof fn lemma_done_bytes_are_the_best_reports(workers: nat, events: Seq<ProgressEvent>)
    requires
        events_name_workers_below(events, workers),
    ensures
        handle_all(fresh_tracker(workers), events).written
            == Seq::new(chunk_span(events), |i: int| best_written(events, i)),
        sum_u64(handle_all(fresh_tracker(workers), events).written)
            == sum_u64(Seq::new(chunk_span(events), |i: int| best_written(events, i))),
        forall|i: int| i >= chunk_span(events) ==> #[trigger] best_written(events, i) == 0,
{
    lemma_tracker_fold(workers, events);
}

/// The planned chunk count follows the last `Start`: none yet, or a zero
/// chunk size, plans none; else `max(1, ceil(total / chunk_size))`.
pub proof fn lemma_planned_count_follows_last_start(workers: nat, events: Seq<ProgressEvent>)
    requires
        events_name_workers_below(events, workers),
    ensures
        spec_planned_chunk_count(handle_all(fresh_tracker(workers), events)) == match last_start(events) {
            None => 0usize,
            Some((total, size)) => if size == 0 {
                0usize
            } else {
                let c = (total + size - 1) / (size as int);
                if c >= 1 { c as usize } else { 1usize }
            },
        },
{
    lemma_tracker_fold(workers, events);
}

/// A chunk's worker is the one of its last start or advance (a completion
/// leaves it), and none before any.
pub proof fn lemma_chunk_worker_is_the_last_reporter(workers: nat, events: Seq<ProgressEvent>, i: usize)
    requires
        events_name_workers_below(events, workers),
    ensures
        ({
            let v = handle_all(fresh_tracker(workers), events);
            (if v.chunk_worker.contains_key(i) { Some(v.chunk_worker[i]) } else { None }) == last_worker(events, i)
        }),
{
    lemma_tracker_fold(workers, events);
}

/// A worker's active chunk is the one it last started, until it completes
/// that chunk; workers the tracker was not made for have none.
pub proof fn lemma_active_chunk_is_the_last_started(workers: nat, events: Seq<ProgressEvent>, w: int)
    requires
        events_name_workers_below(events, workers),
        0 <= w < workers,
    ensures
        handle_all(fresh_tracker(workers), events).worker_active_chunk.len() == workers,
        handle_all(fresh_tracker(workers), events).worker_active_chunk[w] == active_chunk_of(events, w),
{
    lemma_tracker_fold(workers, events);
}

/// The finished chunks are exactly the chunks some event completed, each
/// counted once however often it was completed.
pub proof fn lemma_finished_chunks_are_the_completed_ones(workers: nat, events: Seq<ProgressEvent>)
    requires
        events_name_workers_below(events, workers),
    ensures
        handle_all(fresh_tracker(workers), events).done
            == Seq::new(chunk_span(events), |i: int| was_completed(events, i)),
        count_flags(handle_all(fresh_tracker(workers), events).done)
            == count_flags(Seq::new(chunk_span(events), |i: int| was_completed(events, i))),
        forall|i: int| #[trigger] was_completed(events, i) ==> 0 <= i < chunk_span(events),
{
    lemma_tracker_fold(workers, events);
    assert forall|i: int| #[trigger] was_completed(events, i) implies 0 <= i < chunk_span(events) by {
        lemma_completed_index_is_named(events, i);
    }
}

proof fn lemma_completed_index_is_named(events: Seq<ProgressEvent>, i: int)
    requires
        was_completed(events, i),
    ensures
        0 <= i,
    decreases events.len(),
{
    if events.len() > 0 && was_completed(events.drop_last(), i) {
        lemma_completed_index_is_named(events.drop_last(), i);
    }
}

} // verus!
