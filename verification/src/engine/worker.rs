//! The decisions a worker makes around one ranged request: whether the
//! server answered the range that was asked for, and what becomes of a chunk
//! after an attempt at it.

use vstd::prelude::*;
use super::dispatch::{ChunkDispatcher, DispatcherView};
use super::error::DownloadError;
use super::retry::RetryPolicy;
use crate::text::{chars_of, find_char, parse_u64, spec_parse_u64, split_once, starts_with_str, sub_vec};

verus! {

/// How many chunks are fetched at once and how often each is tried.
#[derive(Debug, Clone, Copy)]
pub struct PoolConfig {
    pub connections: usize,
    pub retry: RetryPolicy,
}

/// How one attempt at a chunk ended.
#[derive(Debug, Clone, Copy, PartialEq, Eq, Structural)]
pub enum AttemptResult {
    /// Every byte of the chunk was written.
    Succeeded,
    /// The server ignored or mangled the range request.
    RangesRejected,
    /// Anything else went wrong (network, disk, a cancelled body).
    Errored,
}

/// Why a worker leaves a chunk.
#[derive(Debug, Clone, Copy, PartialEq, Eq, Structural)]
pub enum ChunkExit {
    /// The chunk is done, or queued again for another attempt.
    Completed,
    /// The chunk ran out of attempts.
    Failed,
    /// The download was cancelled.
    Aborted,
    /// The server does not do ranges; ranged fetching must stop.
    RangesRejected,
}

impl ChunkExit {
    /// Whether the worker must stop taking chunks after this exit.
    pub fn is_aborting(&self) -> (b: bool)
        ensures
            b == (*self == ChunkExit::Aborted || *self == ChunkExit::RangesRejected),
    {
        match self {
            ChunkExit::Aborted | ChunkExit::RangesRejected => true,
            _ => false,
        }
    }
}

/// What an attempt leads to: `result` of the attempt, whether the download
/// was cancelled by then, the attempt's number and the attempts allowed.
pub open spec fn spec_chunk_exit(result: AttemptResult, cancelled: bool, attempts: u64, max_attempts: u32) -> ChunkExit {
    match result {
        AttemptResult::Succeeded => ChunkExit::Completed,
        AttemptResult::RangesRejected => ChunkExit::RangesRejected,
        AttemptResult::Errored => if cancelled {
            ChunkExit::Aborted
        } else if attempts < max_attempts {
            ChunkExit::Completed
        } else {
            ChunkExit::Failed
        },
    }
}

/// Attempts are bounded: a failed attempt is given another try only while
/// its number is below the allowed attempts, and never once the download is
/// cancelled.
pub proof fn lemma_failed_attempts_retry_only_while_allowed(cancelled: bool, attempts: u64, max_attempts: u32)
    ensures
        (spec_chunk_exit(AttemptResult::Errored, cancelled, attempts, max_attempts) == ChunkExit::Completed)
            <==> (!cancelled && attempts < max_attempts),
{
}

/// Starts attempt at chunk `index`: counts the attempt, forgets the progress
/// of earlier ones, and returns the attempt's number.
pub fn begin_attempt(dispatcher: &mut ChunkDispatcher, index: usize) -> (attempts: u64)
    requires
        old(dispatcher).wf(),
        index < old(dispatcher)@.chunks.len(),
        old(dispatcher)@.attempts[index as int] < u64::MAX,
    ensures
        final(dispatcher).wf(),
        attempts == old(dispatcher)@.attempts[index as int] + 1,
        final(dispatcher)@ == (DispatcherView {
            attempts: old(dispatcher)@.attempts.update(index as int, attempts),
            downloaded: old(dispatcher)@.downloaded.update(index as int, 0),
            ..old(dispatcher)@
        }),
{
    let attempts = dispatcher.attempt(index);
    dispatcher.reset_progress(index);
    attempts
}

/// Settles chunk `index` after attempt number `attempts` ended with `result`:
/// a finished chunk is marked complete, a failed one is queued again while
/// attempts remain and given up on otherwise; a cancelled download or a
/// server that rejects ranges leaves the dispatcher as it is.
pub fn finish_attempt(
    dispatcher: &mut ChunkDispatcher,
    index: usize,
    result: AttemptResult,
    cancelled: bool,
    attempts: u64,
    max_attempts: u32,
) -> (exit: ChunkExit)
    requires
        old(dispatcher).wf(),
        index < old(dispatcher)@.chunks.len(),
        old(dispatcher)@.settled < usize::MAX,
        old(dispatcher)@.failed < usize::MAX,
    ensures
        final(dispatcher).wf(),
        exit == spec_chunk_exit(result, cancelled, attempts, max_attempts),
        result == AttemptResult::Succeeded ==> final(dispatcher)@ == (DispatcherView {
            completed: old(dispatcher)@.completed.update(index as int, true),
            settled: old(dispatcher)@.settled + 1,
            ..old(dispatcher)@
        }),
        (result == AttemptResult::RangesRejected || (result == AttemptResult::Errored && cancelled))
            ==> final(dispatcher)@ == old(dispatcher)@,
        (result == AttemptResult::Errored && !cancelled && attempts < max_attempts)
            ==> final(dispatcher)@ == (DispatcherView {
            pending: old(dispatcher)@.pending.push(index),
            ..old(dispatcher)@
        }),
        (result == AttemptResult::Errored && !cancelled && attempts >= max_attempts)
            ==> final(dispatcher)@ == (DispatcherView {
            settled: old(dispatcher)@.settled + 1,
            failed: old(dispatcher)@.failed + 1,
            ..old(dispatcher)@
        }),
{
    match result {
        AttemptResult::Succeeded => {
            dispatcher.settle_complete(index);
            ChunkExit::Completed
        },
        AttemptResult::RangesRejected => ChunkExit::RangesRejected,
        AttemptResult::Errored => {
            if cancelled {
                ChunkExit::Aborted
            } else if attempts < max_attempts as u64 {
                dispatcher.requeue(index);
                ChunkExit::Completed
            } else {
                dispatcher.settle_failed(index);
                ChunkExit::Failed
            }
        },
    }
}

/// How the pool as a whole ended, once every worker has stopped.
pub open spec fn spec_pool_result(ranges_rejected: bool, failed: nat) -> Result<(), DownloadError> {
    if ranges_rejected {
        Err(DownloadError::RangeUnsupported)
    } else if failed > 0 {
        Err(DownloadError::ChunksFailed(failed as usize))
    } else {
        Ok(())
    }
}

/// The pool's result: a rejected range wins over failed chunks, and failed
/// chunks over success.
pub fn pool_result(ranges_rejected: bool, dispatcher: &ChunkDispatcher) -> (r: Result<(), DownloadError>)
    ensures
        r == spec_pool_result(ranges_rejected, dispatcher@.failed),
{
    let failed = dispatcher.failed_count();
    if ranges_rejected {
        Err(DownloadError::RangeUnsupported)
    } else if failed > 0 {
        Err(DownloadError::ChunksFailed(failed))
    } else {
        Ok(())
    }
}

/// Whether `<start>-<end>/<total>` names a range that starts at
/// `expected_start` of a file of `total` bytes.
pub open spec fn range_spec_matches(s: Seq<char>, expected_start: u64, total: u64) -> bool {
    match split_once(s, '/') {
        None => false,
        Some((range, declared)) => match split_once(range, '-') {
            None => false,
            Some((start, _)) => spec_parse_u64(start) == Some(expected_start as int)
                && spec_parse_u64(declared) == Some(total as int),
        },
    }
}

/// Whether a `Content-Range` value announces the range that starts at
/// `expected_start` of a file of `total` bytes: `bytes <start>-<end>/<total>`.
pub open spec fn content_range_matches(value: Option<Seq<char>>, expected_start: u64, total: u64) -> bool {
    match value {
        None => false,
        Some(v) => {
            let p = "bytes "@;
            &&& p.len() <= v.len()
            &&& v.subrange(0, p.len() as int) == p
            &&& range_spec_matches(v.skip(p.len() as int), expected_start, total)
        },
    }
}

fn check_range_spec(s: &[char], expected_start: u64, total: u64) -> (b: bool)
    ensures
        b == range_spec_matches(s@, expected_start, total),
{
    let slash = match find_char(s, '/') {
        Some(i) => i,
        None => return false,
    };
    assert(slash < s.len());
    let range = sub_vec(s, 0, slash);
    let declared = sub_vec(s, slash + 1, s.len());
    assert(split_once(s@, '/') == Some((range@, declared@)));
    let dash = match find_char(range.as_slice(), '-') {
        Some(i) => i,
        None => return false,
    };
    let start = sub_vec(range.as_slice(), 0, dash);
    let ghost rest_of_range = range@.subrange(dash + 1, range@.len() as int);
    assert(split_once(range@, '-') == Some((start@, rest_of_range)));
    let start_ok = match parse_u64(start.as_slice()) {
        Some(v) => v == expected_start,
        None => false,
    };
    let total_ok = match parse_u64(declared.as_slice()) {
        Some(v) => v == total,
        None => false,
    };
    start_ok && total_ok
}

/// Checks the `Content-Range` header of a ranged answer (`None` when the
/// header is missing or not text).
pub fn validate_content_range(header: Option<&str>, expected_start: u64, total: u64) -> (r: Result<(), DownloadError>)
    ensures
        r == (if content_range_matches(
            match header {
                Some(h) => Some(h@),
                None => None,
            },
            expected_start,
            total,
        ) {
            Ok(())
        } else {
            Err(DownloadError::RangeUnsupported)
        }),
{
    let value = match header {
        Some(h) => h,
        None => return Err(DownloadError::RangeUnsupported),
    };
    let cs = chars_of(value);
    if !starts_with_str(cs.as_slice(), "bytes ") {
        return Err(DownloadError::RangeUnsupported);
    }
    let prefix_len = chars_of("bytes ").len();
    let rest = sub_vec(cs.as_slice(), prefix_len, cs.len());
    assert(rest@ =~= cs@.skip("bytes "@.len() as int));
    if check_range_spec(rest.as_slice(), expected_start, total) {
        Ok(())
    } else {
        Err(DownloadError::RangeUnsupported)
    }
}

} // verus!
