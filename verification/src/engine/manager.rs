//! The decisions that drive one download from start to finish: whether to
//! fetch by ranges or in one stream, whether a sidecar lets the download
//! continue, how the chunk plan is made, what follows the worker pool, and
//! what the finished download reports.

use vstd::prelude::*;
use super::error::DownloadError;
use super::manifest::{
    ChunkEntry, Manifest, ManifestTemplate, RemoteSnapshot, ResumeVerdict, judge_resume,
    spec_judge_resume,
};
use super::dispatch::all_measurable;
use super::planner::{Chunk, ChunkPlan, chunk_measurable, spec_build};
use super::resolve::{DownloadOptions, RemoteMetadata};
use super::retry::{RetryPolicy, spec_next_delay};
use crate::paths::{path_file_name, path_file_name_of};
use crate::text::string_from_str;

verus! {

/// The retry policy a download's options ask for.
pub fn retry_policy(options: &DownloadOptions) -> (p: RetryPolicy)
    ensures
        p == (RetryPolicy {
            max_attempts: options.max_attempts,
            base_delay_ms: options.retry_base_delay_ms,
            max_delay_ms: options.retry_max_delay_ms,
        }),
{
    RetryPolicy::new(options.max_attempts).with_delays(
        options.retry_base_delay_ms,
        options.retry_max_delay_ms,
    )
}

/// How a download ended without an error.
#[derive(Debug, Clone, Copy, PartialEq, Eq, Structural)]
pub enum OutcomeStatus {
    Completed,
    Cancelled,
}

/// What a download reports when it ends without an error.
#[derive(Debug, Clone)]
pub struct DownloadOutcome {
    pub final_url: String,
    pub size: u64,
    /// Hex SHA-256 of the file; empty for a cancelled download.
    pub sha256: String,
    pub dest_path: String,
    pub status: OutcomeStatus,
}

/// The outcome of a download that finished with digest `sha256`.
pub fn completed_outcome(remote: &RemoteMetadata, dest: &str, sha256: String) -> (o: DownloadOutcome)
    ensures
        o.final_url@ == remote.final_url@,
        o.size == remote.size,
        o.sha256 == sha256,
        o.dest_path@ == dest@,
        o.status == OutcomeStatus::Completed,
{
    DownloadOutcome {
        final_url: remote.final_url.clone(),
        size: remote.size,
        sha256,
        dest_path: string_from_str(dest),
        status: OutcomeStatus::Completed,
    }
}

/// The outcome of a download the user cancelled.
pub fn cancelled_outcome(remote: &RemoteMetadata, dest: &str) -> (o: DownloadOutcome)
    ensures
        o.final_url@ == remote.final_url@,
        o.size == remote.size,
        o.sha256@ == Seq::<char>::empty(),
        o.dest_path@ == dest@,
        o.status == OutcomeStatus::Cancelled,
{
    DownloadOutcome {
        final_url: remote.final_url.clone(),
        size: remote.size,
        sha256: String::new(),
        dest_path: string_from_str(dest),
        status: OutcomeStatus::Cancelled,
    }
}

/// The remote's identity as a sidecar records it.
pub fn remote_snapshot(remote: &RemoteMetadata) -> (s: RemoteSnapshot)
    ensures
        s.size == remote.size,
        s.etag == remote.etag,
        s.last_modified == remote.last_modified,
{
    RemoteSnapshot {
        size: remote.size,
        etag: remote.etag.clone(),
        last_modified: remote.last_modified.clone(),
    }
}

/// The sidecar fields fixed for the whole download: the requested and final
/// URLs, the destination's file name (empty when it has none), the remote's
/// identity and the chunk size.
pub fn manifest_template(
    options: &DownloadOptions,
    remote: &RemoteMetadata,
    dest: &str,
    chunk_size: u64,
) -> (t: ManifestTemplate)
    ensures
        t.url@ == options.url@,
        t.final_url@ == remote.final_url@,
        t.filename@ == (match path_file_name_of(dest@) {
            Some(n) => n,
            None => Seq::<char>::empty(),
        }),
        t.remote.size == remote.size,
        t.remote.etag == remote.etag,
        t.remote.last_modified == remote.last_modified,
        t.chunk_size == chunk_size,
{
    let filename = match path_file_name(dest) {
        Some(n) => n,
        None => String::new(),
    };
    ManifestTemplate {
        url: options.url.clone(),
        final_url: remote.final_url.clone(),
        filename,
        remote: remote_snapshot(remote),
        chunk_size,
    }
}

/// How the bytes of a remote file are fetched.
#[derive(Debug, Clone, Copy, PartialEq, Eq, Structural)]
pub enum FetchMode {
    /// Several ranged requests, one per chunk.
    Ranged,
    /// One plain request for the whole body.
    SingleStream,
}

/// Ranged fetching needs a server that accepts byte ranges.
pub fn fetch_mode(remote: &RemoteMetadata) -> (m: FetchMode)
    ensures
        m == (if remote.accepts_ranges { FetchMode::Ranged } else { FetchMode::SingleStream }),
{
    if remote.accepts_ranges {
        FetchMode::Ranged
    } else {
        FetchMode::SingleStream
    }
}

/// What `prepare_resume` decides for the inputs it was handed; a refusal
/// carries its reason.
pub open spec fn spec_prepare_resume(
    resume: bool,
    loaded: Option<Manifest>,
    local_len: Option<u64>,
    remote: RemoteMetadata,
) -> Result<Option<Manifest>, Seq<char>> {
    if !resume {
        Ok(None)
    } else {
        match loaded {
            None => Ok(None),
            Some(manifest) => match local_len {
                None => Ok(None),
                Some(len) => {
                    let current = RemoteSnapshot {
                        size: remote.size,
                        etag: remote.etag,
                        last_modified: remote.last_modified,
                    };
                    let (ok, reason) = spec_judge_resume(manifest, current, len);
                    if ok {
                        Ok(Some(manifest))
                    } else {
                        Err(reason)
                    }
                },
            },
        }
    }
}

/// Decides whether a sidecar lets the download continue: `loaded` is the
/// sidecar read from disk (if any) and `local_len` the length of the partial
/// file (if it could be read). With resuming off, with no sidecar or with no
/// readable partial file the download starts over; otherwise the sidecar is
/// judged against the remote as it is now, and a refusal is an error that
/// carries the reason.
pub fn prepare_resume(
    resume: bool,
    loaded: Option<Manifest>,
    local_len: Option<u64>,
    remote: &RemoteMetadata,
) -> (r: Result<Option<Manifest>, DownloadError>)
    ensures
        match (r, spec_prepare_resume(resume, loaded, local_len, *remote)) {
            (Ok(a), Ok(b)) => a == b,
            (Err(DownloadError::ResumeRefused(reason)), Err(text)) => reason@ == text,
            _ => false,
        },
{
    if !resume {
        return Ok(None);
    }
    let manifest = match loaded {
        Some(m) => m,
        None => return Ok(None),
    };
    let len = match local_len {
        Some(l) => l,
        None => return Ok(None),
    };
    let current = remote_snapshot(remote);
    match judge_resume(&manifest, &current, len) {
        ResumeVerdict::Continue => Ok(Some(manifest)),
        ResumeVerdict::Refuse(reason) => Err(DownloadError::ResumeRefused(reason)),
    }
}

/// Whether every chunk's range can be measured: its start is not past its
/// end and its length fits a `u64`.
pub fn plan_is_measurable(plan: &ChunkPlan) -> (b: bool)
    ensures
        b == all_measurable(plan.chunks@),
{
    let mut i: usize = 0;
    while i < plan.chunks.len()
        invariant
            i <= plan.chunks@.len(),
            forall|j: int| 0 <= j < i ==> chunk_measurable(#[trigger] plan.chunks@[j]),
        decreases plan.chunks.len() - i,
    {
        let c = plan.chunks[i];
        if !(c.start <= c.end && c.end - c.start < u64::MAX) {
            assert(!chunk_measurable(plan.chunks@[i as int]));
            return false;
        }
        i = i + 1;
    }
    true
}

/// The chunks and chunk size `build_plan` gives.
pub open spec fn planned_layout(options: DownloadOptions, remote: RemoteMetadata, resumed: Option<Manifest>) -> (Seq<Chunk>, u64) {
    match resumed {
        Some(m) => (m.chunks@.map_values(|e: ChunkEntry| entry_chunk(e)), m.layout.chunk_size),
        None => (spec_build(remote.size as int, options.chunk_size as int), options.chunk_size),
    }
}

/// The plan to download with, refused where it cannot be worked: a fresh
/// plan needs a positive chunk size, and every chunk of the plan (a
/// restored one too) must have a measurable range.
pub fn checked_plan(options: &DownloadOptions, remote: &RemoteMetadata, resumed: Option<&Manifest>) -> (r: Result<(ChunkPlan, u64), DownloadError>)
    ensures
        resumed is None && options.chunk_size == 0 ==> (r matches Err(DownloadError::InvalidArgument(m))
            && m@ == "chunk size must be positive"@),
        !(resumed is None && options.chunk_size == 0) ==> ({
            let (chunks, size) = planned_layout(*options, *remote, match resumed { Some(m) => Some(*m), None => None });
            if all_measurable(chunks) {
                r matches Ok((p, z)) && p.chunks@ == chunks && z == size
            } else {
                r matches Err(DownloadError::InvalidArgument(m)) && m@ == "sidecar holds an invalid chunk range"@
            }
        }),
{
    if resumed.is_none() && options.chunk_size == 0 {
        return Err(DownloadError::InvalidArgument(string_from_str("chunk size must be positive")));
    }
    let (plan, size) = build_plan(options, remote, resumed);
    proof {
        let (chunks, _) = planned_layout(*options, *remote, match resumed { Some(m) => Some(*m), None => None });
        assert(plan.chunks@ =~= chunks);
    }
    if !plan_is_measurable(&plan) {
        return Err(DownloadError::InvalidArgument(string_from_str("sidecar holds an invalid chunk range")));
    }
    Ok((plan, size))
}

/// The chunk that a sidecar entry describes.
pub open spec fn entry_chunk(e: ChunkEntry) -> Chunk {
    Chunk { start: e.start, end: e.end, downloaded: e.downloaded }
}

/// The chunk plan and chunk size to download with: those recorded in the
/// sidecar when resuming, else a fresh plan with the configured chunk size.
pub fn build_plan(options: &DownloadOptions, remote: &RemoteMetadata, resumed: Option<&Manifest>) -> (r: (
    ChunkPlan,
    u64,
))
    requires
        resumed is None ==> options.chunk_size > 0,
    ensures
        match resumed {
            Some(m) => r.1 == m.layout.chunk_size && r.0.chunks@.len() == m.chunks@.len() && forall|i: int|
                0 <= i < m.chunks@.len() ==> #[trigger] r.0.chunks@[i] == entry_chunk(m.chunks@[i]),
            None => r.1 == options.chunk_size && r.0.chunks@ == spec_build(
                remote.size as int,
                options.chunk_size as int,
            ),
        },
{
    match resumed {
        Some(manifest) => {
            let mut chunks: Vec<Chunk> = Vec::new();
            let mut i: usize = 0;
            while i < manifest.chunks.len()
                invariant
                    i <= manifest.chunks@.len(),
                    chunks@.len() == i,
                    forall|j: int| 0 <= j < i ==> #[trigger] chunks@[j] == entry_chunk(manifest.chunks@[j]),
                decreases manifest.chunks.len() - i,
            {
                let e = manifest.chunks[i];
                chunks.push(Chunk { start: e.start, end: e.end, downloaded: e.downloaded });
                i = i + 1;
            }
            (ChunkPlan::from_chunks(chunks), manifest.layout.chunk_size)
        },
        None => (ChunkPlan::build(remote.size, options.chunk_size), options.chunk_size),
    }
}

/// What follows once the worker pool has stopped.
#[derive(Debug, Clone, PartialEq, Eq)]
pub enum FollowUp {
    /// The user cancelled: write the final sidecar and report a cancelled download.
    ReportCancelled,
    /// Every chunk arrived: hash the file, record the digest, report completion.
    HashAndComplete,
    /// The server refused ranges after all: fetch the whole body in one stream.
    FallBackToSingleStream,
    /// Report the pool's error.
    Fail(DownloadError),
}

/// Decides what follows the pool, from its result and whether the user
/// cancelled.
pub fn follow_pool(pool: Result<(), DownloadError>, cancelled: bool) -> (f: FollowUp)
    ensures
        f == (match pool {
            Ok(()) => if cancelled { FollowUp::ReportCancelled } else { FollowUp::HashAndComplete },
            Err(DownloadError::RangeUnsupported) => FollowUp::FallBackToSingleStream,
            Err(e) => FollowUp::Fail(e),
        }),
{
    match pool {
        Ok(()) => if cancelled {
            FollowUp::ReportCancelled
        } else {
            FollowUp::HashAndComplete
        },
        Err(DownloadError::RangeUnsupported) => FollowUp::FallBackToSingleStream,
        Err(e) => FollowUp::Fail(e),
    }
}

/// The sidecar written after a single-stream download: one chunk covering
/// the whole file, fully downloaded, with its digest; the chunk size recorded
/// is the file size (at least one).
pub fn single_stream_manifest(
    options: &DownloadOptions,
    remote: &RemoteMetadata,
    dest: &str,
    sha256: String,
) -> (m: Manifest)
    ensures
        m.url@ == options.url@,
        m.final_url@ == remote.final_url@,
        m.filename@ == (match path_file_name_of(dest@) {
            Some(n) => n,
            None => Seq::<char>::empty(),
        }),
        m.remote.size == remote.size,
        m.remote.etag == remote.etag,
        m.remote.last_modified == remote.last_modified,
        m.layout.chunk_size == (if remote.size > 1 { remote.size } else { 1 }),
        m.chunks@ == seq![ChunkEntry {
            start: 0,
            end: (if remote.size > 0 { remote.size - 1 } else { 0 }) as u64,
            downloaded: remote.size,
        }],
        m.integrity.sha256 == Some(sha256),
{
    let chunk_size: u64 = if remote.size > 1 { remote.size } else { 1 };
    let template = manifest_template(options, remote, dest, chunk_size);
    let end: u64 = if remote.size > 0 { remote.size - 1 } else { 0 };
    let mut chunks: Vec<ChunkEntry> = Vec::new();
    chunks.push(ChunkEntry { start: 0, end, downloaded: remote.size });
    template.into_manifest(chunks, Some(sha256))
}

/// What a single-stream download fetches: the URL, the size it announced
/// and how failed attempts are retried.
#[derive(Debug, Clone)]
pub struct SingleStreamSpec {
    pub url: String,
    pub size: u64,
    pub policy: RetryPolicy,
}

/// The single-stream request for `remote` under `options`.
pub fn single_stream_spec(options: &DownloadOptions, remote: &RemoteMetadata) -> (spec: SingleStreamSpec)
    ensures
        spec.url@ == remote.final_url@,
        spec.size == remote.size,
        spec.policy == (RetryPolicy {
            max_attempts: options.max_attempts,
            base_delay_ms: options.retry_base_delay_ms,
            max_delay_ms: options.retry_max_delay_ms,
        }),
{
    SingleStreamSpec { url: remote.final_url.clone(), size: remote.size, policy: retry_policy(options) }
}

/// What the single-stream loop does after one attempt.
#[derive(Debug, Clone, Copy, PartialEq, Eq, Structural)]
pub enum StreamStep {
    /// The body arrived in full.
    Done,
    /// Give up with the attempt's error.
    Stop,
    /// Wait this many milliseconds, then try again.
    RetryAfter(u64),
}

/// After an attempt that `succeeded` or not, with `failures` failures before
/// it: stop on cancellation, retry while fewer than `max_attempts - 1`
/// failures have been seen, and give up after that.
pub fn single_stream_step(succeeded: bool, cancelled: bool, failures: u32, policy: &RetryPolicy) -> (s: StreamStep)
    ensures
        s == (if succeeded {
            StreamStep::Done
        } else if cancelled {
            StreamStep::Stop
        } else if failures + 1 < policy.max_attempts {
            StreamStep::RetryAfter(spec_next_delay(*policy, (failures + 1) as u32) as u64)
        } else {
            StreamStep::Stop
        }),
{
    if succeeded {
        StreamStep::Done
    } else if cancelled {
        StreamStep::Stop
    } else if policy.max_attempts > 0 && failures < policy.max_attempts - 1 {
        StreamStep::RetryAfter(policy.next_delay(failures + 1))
    } else {
        StreamStep::Stop
    }
}

} // verus!
