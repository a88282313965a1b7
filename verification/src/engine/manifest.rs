//! The resume sidecar: what it records about a download and when a recorded
//! download may be continued.

use vstd::prelude::*;
use crate::paths::{path_file_name, path_file_name_of, path_with_file_name, path_with_file_name_of};
use crate::text::{decimal, push_decimal, push_str, str_equal};

verus! {

/// Layout version written into every sidecar.
pub const MANIFEST_VERSION: u32 = 1;

/// Identity of the remote file when the download started.
#[derive(Debug, Clone)]
pub struct RemoteSnapshot {
    pub size: u64,
    pub etag: Option<String>,
    pub last_modified: Option<String>,
}

#[derive(Debug, Clone, Copy)]
pub struct LayoutSnapshot {
    pub chunk_size: u64,
}

/// One chunk's range and how much of it is on disk.
#[derive(Debug, Clone, Copy, PartialEq, Eq, Structural)]
pub struct ChunkEntry {
    pub start: u64,
    pub end: u64,
    pub downloaded: u64,
}

#[derive(Debug, Clone)]
pub struct IntegritySnapshot {
    pub sha256: Option<String>,
}

/// The whole sidecar.
#[derive(Debug, Clone)]
pub struct Manifest {
    pub version: u32,
    pub url: String,
    pub final_url: String,
    pub filename: String,
    pub remote: RemoteSnapshot,
    pub layout: LayoutSnapshot,
    pub chunks: Vec<ChunkEntry>,
    pub integrity: IntegritySnapshot,
}

/// Everything in a sidecar except the per-chunk progress and the digest.
#[derive(Debug, Clone)]
pub struct ManifestTemplate {
    pub url: String,
    pub final_url: String,
    pub filename: String,
    pub remote: RemoteSnapshot,
    pub chunk_size: u64,
}

pub open spec fn opt_view(o: Option<String>) -> Option<Seq<char>> {
    match o {
        Some(s) => Some(s@),
        None => None,
    }
}

impl ManifestTemplate {
    /// Completes the template with chunk progress and an optional digest.
    pub fn into_manifest(self, chunks: Vec<ChunkEntry>, sha256: Option<String>) -> (m: Manifest)
        ensures
            m.version == MANIFEST_VERSION,
            m.url == self.url,
            m.final_url == self.final_url,
            m.filename == self.filename,
            m.remote == self.remote,
            m.layout.chunk_size == self.chunk_size,
            m.chunks@ == chunks@,
            m.integrity.sha256 == sha256,
    {
        Manifest {
            version: MANIFEST_VERSION,
            url: self.url,
            final_url: self.final_url,
            filename: self.filename,
            remote: self.remote,
            layout: LayoutSnapshot { chunk_size: self.chunk_size },
            chunks,
            integrity: IntegritySnapshot { sha256 },
        }
    }
}

/// `dest` with `suffix` appended to its file name.
pub open spec fn spec_with_suffix(dest: Seq<char>, suffix: Seq<char>) -> Seq<char> {
    let name = match path_file_name_of(dest) {
        Some(n) => n,
        None => Seq::empty(),
    };
    path_with_file_name_of(dest, name + suffix)
}

fn with_suffix(dest: &str, suffix: &str) -> (p: String)
    ensures
        p@ == spec_with_suffix(dest@, suffix@),
{
    let mut name = match path_file_name(dest) {
        Some(n) => n,
        None => String::new(),
    };
    push_str(&mut name, suffix);
    path_with_file_name(dest, name.as_str())
}

/// Where the sidecar of the download saved at `dest` lives: `<dest>.shard`.
pub fn sidecar_path(dest: &str) -> (p: String)
    ensures
        p@ == spec_with_suffix(dest@, ".shard"@),
{
    with_suffix(dest, ".shard")
}

/// Scratch file used while replacing the sidecar: `<dest>.shard.tmp`.
pub fn tmp_path(dest: &str) -> (p: String)
    ensures
        p@ == spec_with_suffix(dest@, ".shard.tmp"@),
{
    with_suffix(dest, ".shard.tmp")
}

/// Whether a recorded download may be continued.
#[derive(Debug, Clone, PartialEq, Eq)]
pub enum ResumeVerdict {
    Continue,
    Refuse(String),
}

/// The remote still identifies as the same file: equal ETags when either
/// side has one; otherwise equal Last-Modified stamps when either side has
/// one; otherwise (neither side has either) the size alone decides.
pub open spec fn identity_matches(before: RemoteSnapshot, now: RemoteSnapshot) -> bool {
    match (opt_view(before.etag), opt_view(now.etag)) {
        (Some(a), Some(b)) => a == b,
        (None, None) => match (opt_view(before.last_modified), opt_view(now.last_modified)) {
            (Some(a), Some(b)) => a == b,
            (None, None) => true,
            _ => false,
        },
        _ => false,
    }
}

pub open spec fn local_size_text(local: u64, remote: u64) -> Seq<char> {
    "local file is "@ + decimal(local as nat) + " bytes but the remote is "@ + decimal(
        remote as nat,
    )
}

pub open spec fn remote_size_text(before: u64, now: u64) -> Seq<char> {
    "remote changed size from "@ + decimal(before as nat) + " to "@ + decimal(now as nat)
        + " since the download started"@
}

pub open spec fn identity_text() -> Seq<char> {
    "remote identity (etag/last-modified) changed"@
}

/// The verdict for resuming `manifest` given the remote as it is now and the
/// length of the local file: refused when the local file does not have the
/// recorded size, when the remote changed size, or when its identity changed.
pub open spec fn spec_judge_resume(manifest: Manifest, current: RemoteSnapshot, local_len: u64) -> (
    bool,
    Seq<char>,
) {
    if local_len != manifest.remote.size {
        (false, local_size_text(local_len, manifest.remote.size))
    } else if current.size != manifest.remote.size {
        (false, remote_size_text(manifest.remote.size, current.size))
    } else if identity_matches(manifest.remote, current) {
        (true, Seq::empty())
    } else {
        (false, identity_text())
    }
}

fn same_text(a: &Option<String>, b: &Option<String>) -> (r: Option<bool>)
    ensures
        match (opt_view(*a), opt_view(*b)) {
            (Some(x), Some(y)) => r == Some(x == y),
            (None, None) => r is None,
            _ => r == Some(false),
        },
{
    match (a, b) {
        (Some(x), Some(y)) => Some(str_equal(x.as_str(), y.as_str())),
        (None, None) => None,
        _ => Some(false),
    }
}

/// Decides whether the download recorded in `manifest` may be continued.
pub fn judge_resume(manifest: &Manifest, current: &RemoteSnapshot, local_len: u64) -> (v:
    ResumeVerdict)
    ensures
        ({
            let (ok, reason) = spec_judge_resume(*manifest, *current, local_len);
            match v {
                ResumeVerdict::Continue => ok,
                ResumeVerdict::Refuse(r) => !ok && r@ == reason,
            }
        }),
{
    if local_len != manifest.remote.size {
        let mut reason = String::new();
        push_str(&mut reason, "local file is ");
        push_decimal(&mut reason, local_len);
        push_str(&mut reason, " bytes but the remote is ");
        push_decimal(&mut reason, manifest.remote.size);
        assert(reason@ =~= local_size_text(local_len, manifest.remote.size));
        return ResumeVerdict::Refuse(reason);
    }
    if current.size != manifest.remote.size {
        let mut reason = String::new();
        push_str(&mut reason, "remote changed size from ");
        push_decimal(&mut reason, manifest.remote.size);
        push_str(&mut reason, " to ");
        push_decimal(&mut reason, current.size);
        push_str(&mut reason, " since the download started");
        assert(reason@ =~= remote_size_text(manifest.remote.size, current.size));
        return ResumeVerdict::Refuse(reason);
    }
    let identity_ok = match same_text(&manifest.remote.etag, &current.etag) {
        Some(eq) => eq,
        None => match same_text(&manifest.remote.last_modified, &current.last_modified) {
            Some(eq) => eq,
            None => true,
        },
    };
    if identity_ok {
        ResumeVerdict::Continue
    } else {
        let mut reason = String::new();
        push_str(&mut reason, "remote identity (etag/last-modified) changed");
        assert(reason@ =~= identity_text());
        ResumeVerdict::Refuse(reason)
    }
}

/// A sidecar read back from disk is only used when it has the layout
/// version this library writes.
pub fn check_version(manifest: Manifest) -> (r: Result<Manifest, crate::engine::error::DownloadError>)
    ensures
        manifest.version == MANIFEST_VERSION ==> (r matches Ok(m) && m == manifest),
        manifest.version != MANIFEST_VERSION ==> (r matches Err(crate::engine::error::DownloadError::InvalidArgument(
            msg,
        )) && msg@ == "manifest version "@ + decimal(manifest.version as nat) + " is not supported"@),
{
    if manifest.version == MANIFEST_VERSION {
        Ok(manifest)
    } else {
        let mut msg = String::new();
        push_str(&mut msg, "manifest version ");
        push_decimal(&mut msg, manifest.version as u64);
        push_str(&mut msg, " is not supported");
        Err(crate::engine::error::DownloadError::InvalidArgument(msg))
    }
}

/// A download whose remote has not changed may always be continued: with
/// the local file at the recorded size, judging the sidecar against the very
/// snapshot it recorded gives `Continue`.
pub proof fn lemma_unchanged_remote_allows_resume(manifest: Manifest)
    ensures
        spec_judge_resume(manifest, manifest.remote, manifest.remote.size).0,
{
}

/// Any change of size, on disk or on the server, refuses the resume.
pub proof fn lemma_size_change_refuses_resume(manifest: Manifest, current: RemoteSnapshot, local_len: u64)
    requires
        local_len != manifest.remote.size || current.size != manifest.remote.size,
    ensures
        !spec_judge_resume(manifest, current, local_len).0,
{
}


/// The ETag decides when both sides carry one: with the sizes in order, the
/// resume goes on exactly when the recorded and the current ETag are equal,
/// whatever the Last-Modified stamps say, and a changed ETag is refused as a
/// changed identity.
pub proof fn lemma_etags_decide_identity(manifest: Manifest, current: RemoteSnapshot, local_len: u64)
    requires
        manifest.remote.etag is Some,
        current.etag is Some,
        local_len == manifest.remote.size,
        current.size == manifest.remote.size,
    ensures
        spec_judge_resume(manifest, current, local_len).0 <==> manifest.remote.etag->0@ == current.etag->0@,
        manifest.remote.etag->0@ != current.etag->0@ ==> spec_judge_resume(manifest, current, local_len).1
            == "remote identity (etag/last-modified) changed"@,
{
}

/// An ETag on one side only is a changed identity: the resume is refused.
pub proof fn lemma_etag_on_one_side_refuses_resume(manifest: Manifest, current: RemoteSnapshot, local_len: u64)
    requires
        manifest.remote.etag is Some != current.etag is Some,
    ensures
        !spec_judge_resume(manifest, current, local_len).0,
{
}

/// Without ETags the Last-Modified stamps decide: with the sizes in order,
/// the resume goes on exactly when both stamps are absent or both are present
/// and equal.
pub proof fn lemma_stamps_decide_without_etags(manifest: Manifest, current: RemoteSnapshot, local_len: u64)
    requires
        manifest.remote.etag is None,
        current.etag is None,
        local_len == manifest.remote.size,
        current.size == manifest.remote.size,
    ensures
        spec_judge_resume(manifest, current, local_len).0 <==> match (manifest.remote.last_modified, current.last_modified) {
            (Some(a), Some(b)) => a@ == b@,
            (None, None) => true,
            _ => false,
        },
{
}

} // verus!
