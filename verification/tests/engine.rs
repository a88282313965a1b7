use shard::engine::manifest::{
    judge_resume, ChunkEntry, Manifest, ManifestTemplate, RemoteSnapshot, ResumeVerdict,
};
use shard::engine::planner::{ChunkPlan, ChunkState};
use shard::engine::retry::RetryPolicy;

fn sample_manifest() -> Manifest {
    let template = ManifestTemplate {
        url: "https://example.com/file.ext".into(),
        final_url: "https://cdn.example.com/file.ext".into(),
        filename: "file.ext".into(),
        remote: RemoteSnapshot {
            size: 1000,
            etag: Some("\"abc\"".into()),
            last_modified: Some("Wed, 02 Sep 2026 14:21:00 GMT".into()),
        },
        chunk_size: 256,
    };
    template.into_manifest(
        vec![
            ChunkEntry { start: 0, end: 255, downloaded: 256 },
            ChunkEntry { start: 256, end: 511, downloaded: 128 },
            ChunkEntry { start: 512, end: 767, downloaded: 0 },
            ChunkEntry { start: 768, end: 999, downloaded: 0 },
        ],
        None,
    )
}

#[test]
fn identical_identity_allows_resume() {
    let manifest = sample_manifest();
    let current = RemoteSnapshot {
        size: 1000,
        etag: Some("\"abc\"".into()),
        last_modified: Some("Wed, 02 Sep 2026 14:21:00 GMT".into()),
    };
    assert_eq!(judge_resume(&manifest, &current, 1000), ResumeVerdict::Continue);
}

#[test]
fn changed_etag_refuses_resume() {
    let manifest = sample_manifest();
    let current = RemoteSnapshot {
        size: 1000,
        etag: Some("\"different\"".into()),
        last_modified: None,
    };
    assert!(matches!(judge_resume(&manifest, &current, 1000), ResumeVerdict::Refuse(_)));
}

#[test]
fn changed_last_modified_refuses_when_no_etag() {
    let mut manifest = sample_manifest();
    manifest.remote.etag = None;
    let current = RemoteSnapshot {
        size: 1000,
        etag: None,
        last_modified: Some("Thu, 03 Sep 2026 09:00:00 GMT".into()),
    };
    assert!(matches!(judge_resume(&manifest, &current, 1000), ResumeVerdict::Refuse(_)));
}

#[test]
fn size_only_identity_allows_resume() {
    let mut manifest = sample_manifest();
    manifest.remote.etag = None;
    manifest.remote.last_modified = None;
    let current = RemoteSnapshot { size: 1000, etag: None, last_modified: None };
    assert_eq!(judge_resume(&manifest, &current, 1000), ResumeVerdict::Continue);
}

#[test]
fn resized_local_file_refuses_resume() {
    let manifest = sample_manifest();
    let current = RemoteSnapshot {
        size: 1000,
        etag: Some("\"abc\"".into()),
        last_modified: None,
    };
    assert!(matches!(judge_resume(&manifest, &current, 512), ResumeVerdict::Refuse(_)));
}

#[test]
fn resized_remote_refuses_resume() {
    let manifest = sample_manifest();
    let current = RemoteSnapshot {
        size: 2000,
        etag: Some("\"abc\"".into()),
        last_modified: None,
    };
    assert!(matches!(judge_resume(&manifest, &current, 1000), ResumeVerdict::Refuse(_)));
}

#[test]
fn refusal_reasons_name_the_mismatch() {
    let manifest = sample_manifest();
    let local = RemoteSnapshot { size: 1000, etag: Some("\"abc\"".into()), last_modified: None };
    assert_eq!(
        judge_resume(&manifest, &local, 512),
        ResumeVerdict::Refuse("local file is 512 bytes but the remote is 1000".to_string())
    );
    let resized = RemoteSnapshot { size: 2000, etag: Some("\"abc\"".into()), last_modified: None };
    assert_eq!(
        judge_resume(&manifest, &resized, 1000),
        ResumeVerdict::Refuse("remote changed size from 1000 to 2000 since the download started".to_string())
    );
    let changed = RemoteSnapshot { size: 1000, etag: Some("\"x\"".into()), last_modified: None };
    assert_eq!(
        judge_resume(&manifest, &changed, 1000),
        ResumeVerdict::Refuse("remote identity (etag/last-modified) changed".to_string())
    );
}

#[test]
fn plan_covers_every_byte_exactly_once() {
    let total_size = 1_000_000_000u64;
    let chunk_size = 64u64 * 1024 * 1024;
    let plan = ChunkPlan::build(total_size, chunk_size);

    let covered: u64 = plan.chunks.iter().map(|c| c.range_len()).sum();
    assert_eq!(covered, total_size);

    for window in plan.chunks.windows(2) {
        assert_eq!(window[0].end + 1, window[1].start);
    }
    assert_eq!(plan.chunks[0].start, 0);
    assert_eq!(plan.chunks.last().unwrap().end, total_size - 1);
}

#[test]
fn exact_multiple_produces_no_remainder_chunk() {
    let plan = ChunkPlan::build(1024, 256);
    assert_eq!(plan.chunks.len(), 4);
    assert!(plan.chunks.iter().all(|c| c.state() == ChunkState::Pending));
}

#[test]
fn empty_file_plans_no_chunks() {
    let plan = ChunkPlan::build(0, 256);
    assert!(plan.chunks.is_empty());
    assert_eq!(plan.progress(), 0);
}

#[test]
fn remainder_chunk_is_shorter() {
    let plan = ChunkPlan::build(1000, 300);
    assert_eq!(plan.chunks.len(), 4);
    assert_eq!(plan.chunks[3].start, 900);
    assert_eq!(plan.chunks[3].end, 999);
    assert_eq!(plan.chunks[3].range_len(), 100);
}

#[test]
fn delay_grows_exponentially_until_capped() {
    let policy = RetryPolicy::new(10).with_delays(100, 2000);
    assert_eq!(policy.next_delay(1), 100);
    assert_eq!(policy.next_delay(2), 200);
    assert_eq!(policy.next_delay(3), 400);
    assert_eq!(policy.next_delay(5), 1600);
    assert_eq!(policy.next_delay(6), 2000);
    assert_eq!(policy.next_delay(100), 2000);
}

#[test]
fn base_delay_is_clamped_to_max_delay() {
    let policy = RetryPolicy::new(10).with_delays(5000, 2000);
    assert_eq!(policy.next_delay(1), 2000);
}

#[test]
fn default_policy_starts_at_half_a_second() {
    let policy = RetryPolicy::new(3);
    assert_eq!(policy.max_attempts, 3);
    assert_eq!(policy.next_delay(0), 500);
    assert_eq!(policy.next_delay(2), 1000);
    assert_eq!(policy.next_delay(30), 30_000);
}
