//! Splitting a remote file into contiguous byte ranges.

use vstd::prelude::*;

verus! {

/// Where a chunk stands relative to its byte range.
#[derive(Debug, Clone, Copy, PartialEq, Eq, Structural)]
pub enum ChunkState {
    Pending,
    Partial,
    Complete,
}

/// One inclusive byte range `start..=end` of the remote file and how many of
/// its bytes have been written so far.
#[derive(Debug, Clone, Copy, PartialEq, Eq, Structural)]
pub struct Chunk {
    pub start: u64,
    pub end: u64,
    pub downloaded: u64,
}

/// A chunk whose range length can be computed without overflow.
pub open spec fn chunk_measurable(c: Chunk) -> bool {
    c.start <= c.end && c.end - c.start < u64::MAX
}

/// Number of bytes in the chunk's inclusive range.
pub open spec fn spec_range_len(c: Chunk) -> int {
    c.end - c.start + 1
}

pub open spec fn spec_chunk_state(c: Chunk) -> ChunkState {
    if c.downloaded == 0 {
        ChunkState::Pending
    } else if c.downloaded >= spec_range_len(c) {
        ChunkState::Complete
    } else {
        ChunkState::Partial
    }
}

impl Chunk {
    pub fn range_len(&self) -> (len: u64)
        requires
            chunk_measurable(*self),
        ensures
            len == spec_range_len(*self),
    {
        self.end - self.start + 1
    }

    pub fn state(&self) -> (s: ChunkState)
        requires
            chunk_measurable(*self),
        ensures
            s == spec_chunk_state(*self),
    {
        if self.downloaded == 0 {
            ChunkState::Pending
        } else if self.downloaded >= self.range_len() {
            ChunkState::Complete
        } else {
            ChunkState::Partial
        }
    }
}

/// The ordered list of chunks that make up one download.
#[derive(Debug, Clone)]
pub struct ChunkPlan {
    pub chunks: Vec<Chunk>,
}

/// `ceil(total / size)`: how many chunks of `size` bytes cover `total` bytes.
pub open spec fn chunk_count_for(total: int, size: int) -> int {
    (total + size - 1) / size
}

/// The `i`-th chunk of a fresh plan over `total` bytes in `size`-byte pieces.
pub open spec fn planned_chunk(i: int, total: int, size: int) -> Chunk {
    Chunk {
        start: (i * size) as u64,
        end: (if (i + 1) * size < total { (i + 1) * size } else { total } - 1) as u64,
        downloaded: 0,
    }
}

/// The chunk list of a fresh plan.
pub open spec fn spec_build(total: int, size: int) -> Seq<Chunk> {
    Seq::new(chunk_count_for(total, size) as nat, |i: int| planned_chunk(i, total, size))
}

/// Sum of the range lengths of `chunks`.
pub open spec fn covered_bytes(chunks: Seq<Chunk>) -> int
    decreases chunks.len(),
{
    if chunks.len() == 0 {
        0
    } else {
        covered_bytes(chunks.drop_last()) + spec_range_len(chunks.last())
    }
}

/// Sum of the `downloaded` counters of `chunks`.
pub open spec fn downloaded_bytes(chunks: Seq<Chunk>) -> int
    decreases chunks.len(),
{
    if chunks.len() == 0 {
        0
    } else {
        downloaded_bytes(chunks.drop_last()) + chunks.last().downloaded
    }
}

/// The chunks tile `[chunks[0].start, chunks.last().end]` with no gap and no overlap.
pub open spec fn contiguous(chunks: Seq<Chunk>) -> bool {
    &&& forall|i: int| 0 <= i < chunks.len() ==> #[trigger] chunks[i].start <= chunks[i].end
    &&& forall|i: int| 0 <= i < chunks.len() - 1 ==> #[trigger] chunks[i].end + 1 == chunks[i + 1].start
}

proof fn lemma_ceil_div(n: int, total: int, size: int)
    requires
        size > 0,
        n >= 1,
        (n - 1) * size < total <= n * size,
    ensures
        chunk_count_for(total, size) == n,
{
    assert((total + size - 1) / size == n) by (nonlinear_arith)
        requires
            size > 0,
            n >= 1,
            (n - 1) * size < total,
            total <= n * size,
    {
        let q = (total + size - 1) / size;
        let r = (total + size - 1) % size;
        assert(total + size - 1 == q * size + r);
        assert(0 <= r < size);
        assert((n - 1) * size + size <= total + size - 1);
        assert(total + size - 1 < n * size + size);
        assert(q * size + r >= n * size);
        assert(q * size + r < (n + 1) * size);
        if q < n {
            assert(q * size <= (n - 1) * size);
        }
        if q > n {
            assert(q * size >= (n + 1) * size);
        }
    }
}

impl ChunkPlan {
    /// Plan `total_size` bytes as consecutive chunks of `chunk_size` bytes,
    /// the last one possibly shorter.
    pub fn build(total_size: u64, chunk_size: u64) -> (plan: ChunkPlan)
        requires
            chunk_size > 0,
        ensures
            plan.chunks@ == spec_build(total_size as int, chunk_size as int),
    {
        let mut chunks: Vec<Chunk> = Vec::new();
        let mut start: u64 = 0;
        assert(0 * chunk_size == 0) by (nonlinear_arith);
        while start < total_size
            invariant
                chunk_size > 0,
                start <= total_size,
                start == (if chunks.len() * chunk_size < total_size {
                    chunks.len() * chunk_size
                } else {
                    total_size as int
                }),
                forall|i: int|
                    0 <= i < chunks.len() ==> #[trigger] chunks[i] == planned_chunk(
                        i,
                        total_size as int,
                        chunk_size as int,
                    ),
                chunks.len() > 0 ==> (chunks.len() - 1) * chunk_size < total_size,
            decreases total_size - start,
        {
            let ghost n = chunks.len() as int;
            assert(start == n * chunk_size);
            let end: u64 = if chunk_size >= total_size - start {
                total_size - 1
            } else {
                start + chunk_size - 1
            };
            assert((n + 1) * chunk_size == n * chunk_size + chunk_size) by (nonlinear_arith);
            chunks.push(Chunk { start, end, downloaded: 0 });
            start = end + 1;
        }
        proof {
            let n = chunks.len() as int;
            if n == 0 {
                assert(total_size == 0);
                assert((chunk_size - 1) / (chunk_size as int) == 0) by (nonlinear_arith)
                    requires chunk_size > 0;
            } else {
                assert(n * chunk_size >= total_size);
                lemma_ceil_div(n, total_size as int, chunk_size as int);
            }
            assert(chunks@ =~= spec_build(total_size as int, chunk_size as int));
        }
        ChunkPlan { chunks }
    }

    /// Take an explicit chunk list (for instance one restored from a sidecar).
    pub fn from_chunks(chunks: Vec<Chunk>) -> (plan: ChunkPlan)
        ensures
            plan.chunks@ == chunks@,
    {
        ChunkPlan { chunks }
    }

    /// Bytes written so far, summed over all chunks.
    pub fn progress(&self) -> (total: u64)
        requires
            downloaded_bytes(self.chunks@) <= u64::MAX,
        ensures
            total == downloaded_bytes(self.chunks@),
    {
        let mut total: u64 = 0;
        let mut i: usize = 0;
        while i < self.chunks.len()
            invariant
                i <= self.chunks.len(),
                total == downloaded_bytes(self.chunks@.take(i as int)),
                downloaded_bytes(self.chunks@) <= u64::MAX,
            decreases self.chunks.len() - i,
        {
            proof {
                assert(self.chunks@.take(i + 1).drop_last() =~= self.chunks@.take(i as int));
                lemma_downloaded_prefix_bounded(self.chunks@, i + 1);
            }
            total = total + self.chunks[i].downloaded;
            i = i + 1;
        }
        proof {
            assert(self.chunks@.take(i as int) =~= self.chunks@);
        }
        total
    }
}

proof fn lemma_count_bounds(total: int, size: int)
    requires
        size > 0,
        total > 0,
    ensures
        chunk_count_for(total, size) >= 1,
        (chunk_count_for(total, size) - 1) * size < total,
        total <= chunk_count_for(total, size) * size,
{
    let n = chunk_count_for(total, size);
    assert(n >= 1 && (n - 1) * size < total && total <= n * size) by (nonlinear_arith)
        requires
            size > 0,
            total > 0,
            n == (total + size - 1) / size,
    {
        let r = (total + size - 1) % size;
        assert(total + size - 1 == n * size + r);
        assert(0 <= r < size);
        assert((n - 1) * size == n * size - size);
    }
}

proof fn lemma_covered_contiguous(chunks: Seq<Chunk>)
    requires
        chunks.len() > 0,
        contiguous(chunks),
    ensures
        covered_bytes(chunks) == chunks.last().end - chunks[0].start + 1,
    decreases chunks.len(),
{
    if chunks.len() > 1 {
        let prefix = chunks.drop_last();
        assert(contiguous(prefix)) by {
            assert forall|i: int| 0 <= i < prefix.len() - 1 implies #[trigger] prefix[i].end + 1
                == prefix[i + 1].start by {
                assert(chunks[i].end + 1 == chunks[i + 1].start);
            }
        }
        lemma_covered_contiguous(prefix);
        assert(prefix[0] == chunks[0]);
        assert(prefix.last() == chunks[chunks.len() - 2]);
        assert(chunks[chunks.len() - 2].end + 1 == chunks[chunks.len() - 1].start);
        assert(covered_bytes(chunks) == covered_bytes(prefix) + spec_range_len(chunks.last()));
    } else {
        assert(chunks.drop_last().len() == 0);
        assert(covered_bytes(chunks.drop_last()) == 0);
        assert(chunks.last() == chunks[0]);
    }
}

proof fn lemma_index_in_plan(i: int, n: int, total: int, size: int)
    requires
        0 <= i < n,
        size > 0,
        (n - 1) * size < total,
    ensures
        i * size < total,
        (i + 1) * size == i * size + size,
{
    assert(i * size <= (n - 1) * size) by (nonlinear_arith)
        requires 0 <= i <= n - 1, size > 0;
    assert((i + 1) * size == i * size + size) by (nonlinear_arith);
}

/// A fresh plan covers every byte of the file exactly once: its chunks are
/// contiguous non-empty ranges, the first starts at byte 0, the last ends at
/// byte `total - 1`, no chunk is longer than `size`, nothing is downloaded
/// yet, and the range lengths add up to `total`.
pub proof fn lemma_plan_covers_every_byte(total: u64, size: u64)
    requires
        size > 0,
    ensures
        ({
            let chunks = spec_build(total as int, size as int);
            &&& contiguous(chunks)
            &&& covered_bytes(chunks) == total
            &&& forall|i: int| 0 <= i < chunks.len() ==> spec_range_len(#[trigger] chunks[i]) <= size
            &&& forall|i: int| 0 <= i < chunks.len() ==> (#[trigger] chunks[i]).downloaded == 0
            &&& total > 0 ==> chunks[0].start == 0 && chunks.last().end == total - 1
            &&& total == 0 ==> chunks.len() == 0
        }),
{
    let chunks = spec_build(total as int, size as int);
    if total == 0 {
        assert((size - 1) / (size as int) == 0) by (nonlinear_arith)
            requires size > 0;
        return;
    }
    lemma_count_bounds(total as int, size as int);
    let n = chunk_count_for(total as int, size as int);
    assert forall|i: int| 0 <= i < chunks.len() implies #[trigger] chunks[i].start <= chunks[i].end
        && spec_range_len(chunks[i]) <= size && chunks[i].downloaded == 0 by {
        lemma_index_in_plan(i, n, total as int, size as int);
    }
    assert forall|i: int| 0 <= i < chunks.len() - 1 implies #[trigger] chunks[i].end + 1
        == chunks[i + 1].start by {
        lemma_index_in_plan(i, n, total as int, size as int);
        lemma_index_in_plan(i + 1, n, total as int, size as int);
    }
    assert(0 * size == 0) by (nonlinear_arith);
    assert(chunks[0].start == 0);
    lemma_index_in_plan(n - 1, n, total as int, size as int);
    assert(chunks.last().end == total - 1);
    lemma_covered_contiguous(chunks);
}

proof fn lemma_downloaded_prefix_bounded(chunks: Seq<Chunk>, k: int)
    requires
        0 <= k <= chunks.len(),
    ensures
        downloaded_bytes(chunks.take(k)) <= downloaded_bytes(chunks),
    decreases chunks.len(),
{
    if k < chunks.len() {
        assert(chunks.drop_last().take(k) =~= chunks.take(k));
        lemma_downloaded_prefix_bounded(chunks.drop_last(), k);
    } else {
        assert(chunks.take(k) =~= chunks);
    }
}

} // verus!
