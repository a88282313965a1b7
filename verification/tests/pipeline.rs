use shard::engine::checkpoint::{settle_before_first_flush, snapshot};
use shard::engine::control::{answer_line, ControlState};
use shard::engine::dispatch::{ChunkDispatcher, Take};
use shard::engine::error::DownloadError;
use shard::engine::manager::{
    build_plan, cancelled_outcome, completed_outcome, fetch_mode, follow_pool, manifest_template,
    prepare_resume, retry_policy, single_stream_manifest, single_stream_step, FetchMode, FollowUp,
    OutcomeStatus, StreamStep,
};
use shard::engine::manifest::{ChunkEntry, ManifestTemplate, RemoteSnapshot};
use shard::engine::planner::{Chunk, ChunkPlan};
use shard::engine::resolve::{DownloadOptions, RemoteMetadata};
use shard::engine::verify::{hex_string, Sha256Hasher};
use shard::engine::worker::{
    begin_attempt, finish_attempt, pool_result, validate_content_range, AttemptResult, ChunkExit,
};

fn remote(size: u64) -> RemoteMetadata {
    RemoteMetadata {
        final_url: "https://cdn.example.com/file.bin".into(),
        size,
        etag: Some("\"abc\"".into()),
        last_modified: None,
        accepts_ranges: true,
        content_disposition: None,
    }
}

#[test]
fn every_chunk_is_dispensed_exactly_once() {
    let mut dispatcher = ChunkDispatcher::new(ChunkPlan::build(1024, 256));
    let mut dispensed = Vec::new();
    while let Take::Next(index) = dispatcher.take() {
        dispensed.push(index);
        dispatcher.settle_complete(index);
    }
    assert_eq!(dispensed.len(), 4);
    assert!(dispatcher.is_fully_settled());
    assert_eq!(dispatcher.completed_count(), 4);
    assert_eq!(dispatcher.failed_count(), 0);
    assert_eq!(dispatcher.take(), Take::Exhausted);
}

#[test]
fn requeued_chunk_is_dispensed_again_before_completion() {
    let mut dispatcher = ChunkDispatcher::new(ChunkPlan::build(512, 128));
    let failed_chunk = match dispatcher.take() {
        Take::Next(index) => index,
        other => panic!("expected a chunk, got {other:?}"),
    };
    dispatcher.requeue(failed_chunk);
    let mut dispensed_again = false;
    while let Take::Next(index) = dispatcher.take() {
        if index == failed_chunk {
            dispensed_again = true;
        }
        dispatcher.settle_complete(index);
    }
    assert!(dispensed_again);
    assert!(dispatcher.is_fully_settled());
    assert_eq!(dispatcher.completed_count(), 4);
    assert_eq!(dispatcher.failed_count(), 0);
}

#[test]
fn pre_completed_chunks_are_never_dispensed() {
    let plan = ChunkPlan::from_chunks(vec![
        Chunk { start: 0, end: 63, downloaded: 64 },
        Chunk { start: 64, end: 127, downloaded: 0 },
    ]);
    let mut dispatcher = ChunkDispatcher::new(plan);
    assert_eq!(dispatcher.completed_count(), 1);
    let mut dispensed = Vec::new();
    while let Take::Next(index) = dispatcher.take() {
        dispensed.push(index);
        dispatcher.settle_complete(index);
    }
    assert_eq!(dispensed, vec![1]);
    assert_eq!(dispatcher.completed_count(), 2);
}

#[test]
fn partial_chunks_are_queued_with_their_progress() {
    let plan = ChunkPlan::from_chunks(vec![
        Chunk { start: 0, end: 99, downloaded: 100 },
        Chunk { start: 100, end: 199, downloaded: 40 },
        Chunk { start: 200, end: 299, downloaded: 0 },
    ]);
    let mut dispatcher = ChunkDispatcher::new(plan);
    assert_eq!(dispatcher.take(), Take::Next(1));
    assert_eq!(dispatcher.take(), Take::Next(2));
    assert_eq!(dispatcher.take(), Take::Wait);
    assert_eq!(dispatcher.downloaded_counts(), vec![100, 40, 0]);
}

#[test]
fn failed_attempts_are_requeued_until_attempts_run_out() {
    let mut dispatcher = ChunkDispatcher::new(ChunkPlan::build(200, 100));
    assert_eq!(dispatcher.take(), Take::Next(0));
    let attempts = begin_attempt(&mut dispatcher, 0);
    assert_eq!(attempts, 1);
    assert_eq!(finish_attempt(&mut dispatcher, 0, AttemptResult::Errored, false, attempts, 2), ChunkExit::Completed);
    assert_eq!(dispatcher.take(), Take::Next(1));
    assert_eq!(dispatcher.take(), Take::Next(0));
    let attempts = begin_attempt(&mut dispatcher, 0);
    assert_eq!(attempts, 2);
    assert_eq!(finish_attempt(&mut dispatcher, 0, AttemptResult::Errored, false, attempts, 2), ChunkExit::Failed);
    assert_eq!(dispatcher.failed_count(), 1);
    assert_eq!(pool_result(false, &dispatcher), Err(DownloadError::ChunksFailed(1)));
    assert_eq!(pool_result(true, &dispatcher), Err(DownloadError::RangeUnsupported));
    let exit = finish_attempt(&mut dispatcher, 1, AttemptResult::Errored, true, 1, 5);
    assert_eq!(exit, ChunkExit::Aborted);
    assert!(exit.is_aborting());
    assert!(ChunkExit::RangesRejected.is_aborting());
    assert!(!ChunkExit::Failed.is_aborting());
}

#[test]
fn content_range_must_match_the_request() {
    assert_eq!(validate_content_range(Some("bytes 100-199/1000"), 100, 1000), Ok(()));
    assert_eq!(validate_content_range(Some("bytes 0-99/1000"), 100, 1000), Err(DownloadError::RangeUnsupported));
    assert_eq!(validate_content_range(Some("bytes 100-199/999"), 100, 1000), Err(DownloadError::RangeUnsupported));
    assert_eq!(validate_content_range(Some("items 100-199/1000"), 100, 1000), Err(DownloadError::RangeUnsupported));
    assert_eq!(validate_content_range(Some("bytes 100-199"), 100, 1000), Err(DownloadError::RangeUnsupported));
    assert_eq!(validate_content_range(None, 0, 10), Err(DownloadError::RangeUnsupported));
}

#[test]
fn resume_decisions_follow_the_sidecar() {
    let remote = remote(1000);
    let template = ManifestTemplate {
        url: "https://example.com/file.bin".into(),
        final_url: remote.final_url.clone(),
        filename: "file.bin".into(),
        remote: RemoteSnapshot { size: 1000, etag: Some("\"abc\"".into()), last_modified: None },
        chunk_size: 500,
    };
    let manifest = template.into_manifest(
        vec![ChunkEntry { start: 0, end: 499, downloaded: 500 }, ChunkEntry { start: 500, end: 999, downloaded: 10 }],
        None,
    );
    assert!(prepare_resume(false, Some(manifest.clone()), Some(1000), &remote).unwrap().is_none());
    assert!(prepare_resume(true, None, Some(1000), &remote).unwrap().is_none());
    assert!(prepare_resume(true, Some(manifest.clone()), None, &remote).unwrap().is_none());
    let kept = prepare_resume(true, Some(manifest.clone()), Some(1000), &remote).unwrap().unwrap();
    assert_eq!(kept.chunks.len(), 2);
    assert_eq!(
        prepare_resume(true, Some(manifest.clone()), Some(10), &remote).unwrap_err(),
        DownloadError::ResumeRefused("local file is 10 bytes but the remote is 1000".into())
    );
    let options = DownloadOptions { chunk_size: 300, ..Default::default() };
    let (plan, size) = build_plan(&options, &remote, Some(&kept));
    assert_eq!(size, 500);
    assert_eq!(plan.chunks[1].downloaded, 10);
    let (fresh, size) = build_plan(&options, &remote, None);
    assert_eq!(size, 300);
    assert_eq!(fresh.chunks.len(), 4);
}

#[test]
fn pool_results_decide_what_follows() {
    assert_eq!(follow_pool(Ok(()), true), FollowUp::ReportCancelled);
    assert_eq!(follow_pool(Ok(()), false), FollowUp::HashAndComplete);
    assert_eq!(follow_pool(Err(DownloadError::RangeUnsupported), false), FollowUp::FallBackToSingleStream);
    assert_eq!(follow_pool(Err(DownloadError::ChunksFailed(2)), false), FollowUp::Fail(DownloadError::ChunksFailed(2)));
    assert_eq!(fetch_mode(&remote(10)), FetchMode::Ranged);
    let plain = RemoteMetadata { accepts_ranges: false, ..remote(10) };
    assert_eq!(fetch_mode(&plain), FetchMode::SingleStream);
    assert_eq!(DownloadError::ChunksFailed(3).message(), "3 chunks failed after exhausting retry attempts");
}

#[test]
fn outcomes_and_manifests_describe_the_download() {
    let remote = remote(1000);
    let done = completed_outcome(&remote, "/tmp/file.bin", "beef".into());
    assert_eq!(done.status, OutcomeStatus::Completed);
    assert_eq!(done.sha256, "beef");
    let stopped = cancelled_outcome(&remote, "/tmp/file.bin");
    assert_eq!(stopped.status, OutcomeStatus::Cancelled);
    assert!(stopped.sha256.is_empty());
    let options = DownloadOptions { url: "https://example.com/file.bin".into(), ..Default::default() };
    let template = manifest_template(&options, &remote, "/tmp/dir/file.bin", 256);
    assert_eq!(template.filename, "file.bin");
    assert_eq!(template.chunk_size, 256);
    let manifest = single_stream_manifest(&options, &remote, "/tmp/dir/file.bin", "beef".into());
    assert_eq!(manifest.layout.chunk_size, 1000);
    assert_eq!(manifest.chunks, vec![ChunkEntry { start: 0, end: 999, downloaded: 1000 }]);
    assert_eq!(manifest.integrity.sha256.as_deref(), Some("beef"));
    let empty = single_stream_manifest(&options, &RemoteMetadata { size: 0, ..remote.clone() }, "/tmp/e", "x".into());
    assert_eq!(empty.layout.chunk_size, 1);
    assert_eq!(empty.chunks, vec![ChunkEntry { start: 0, end: 0, downloaded: 0 }]);
}

#[test]
fn single_stream_retries_with_backoff() {
    let options = DownloadOptions { max_attempts: 3, retry_base_delay_ms: 100, retry_max_delay_ms: 1000, ..Default::default() };
    let policy = retry_policy(&options);
    assert_eq!(single_stream_step(true, false, 0, &policy), StreamStep::Done);
    assert_eq!(single_stream_step(false, true, 0, &policy), StreamStep::Stop);
    assert_eq!(single_stream_step(false, false, 0, &policy), StreamStep::RetryAfter(100));
    assert_eq!(single_stream_step(false, false, 1, &policy), StreamStep::RetryAfter(200));
    assert_eq!(single_stream_step(false, false, 2, &policy), StreamStep::Stop);
}

#[test]
fn finish_writes_a_final_manifest_for_the_given_dispatcher_state() {
    let mut dispatcher = ChunkDispatcher::new(ChunkPlan::build(512, 128));
    dispatcher.record_progress(0, 128);
    dispatcher.record_progress(1, 128);
    dispatcher.settle_complete(0);
    dispatcher.settle_complete(1);
    let template = ManifestTemplate {
        url: "http://x".into(),
        final_url: "http://x/file.bin".into(),
        filename: "checkpoint-finish.bin".into(),
        remote: RemoteSnapshot { size: 512, etag: None, last_modified: None },
        chunk_size: 128,
    };
    let manifest = snapshot(&template, &dispatcher, None);
    assert_eq!(manifest.chunks.len(), 4);
    assert_eq!(manifest.chunks.iter().filter(|entry| entry.downloaded == 128).count(), 2);
    assert_eq!(settle_before_first_flush(3000), 1000);
    assert_eq!(settle_before_first_flush(250), 250);
}

#[test]
fn commands_control_the_controller_over_the_socket() {
    let mut state = ControlState::new();
    assert_eq!(answer_line(&mut state, "status\n"), "running\n");
    assert_eq!(answer_line(&mut state, "pause\n"), "ok\n");
    assert_eq!(answer_line(&mut state, "status\n"), "paused\n");
    assert_eq!(answer_line(&mut state, "resume\n"), "ok\n");
    assert_eq!(answer_line(&mut state, "cancel\n"), "ok\n");
    assert_eq!(answer_line(&mut state, "status\n"), "cancelled\n");
    assert_eq!(answer_line(&mut state, "resume\n"), "ok\n");
    assert_eq!(answer_line(&mut state, "status\n"), "cancelled\n");
    assert_eq!(answer_line(&mut state, "bogus\n"), "error unknown command \"bogus\"\n");
    assert!(state.is_cancelled());
    assert!(state.pause_is_over());
}

#[test]
fn sha256_matches_known_digests() {
    let mut hasher = Sha256Hasher::new();
    hasher.update(b"ab");
    hasher.update(b"c");
    assert_eq!(hasher.finish_hex(), "ba7816bf8f01cfea414140de5dae2223b00361a396177a9cb410ff61f20015ad");
    assert_eq!(
        Sha256Hasher::default().finish_hex(),
        "e3b0c44298fc1c149afbf4c8996fb92427ae41e4649b934ca495991b7852b855"
    );
    assert_eq!(hex_string(&[0x00, 0x0f, 0xa5, 0xff]), "000fa5ff");
}

#[test]
fn sidecars_sit_next_to_the_download() {
    assert_eq!(shard::engine::manifest::sidecar_path("/tmp/dir/file.bin"), "/tmp/dir/file.bin.shard");
    assert_eq!(shard::engine::manifest::tmp_path("/tmp/dir/file.bin"), "/tmp/dir/file.bin.shard.tmp");
    let spec = shard::engine::manager::single_stream_spec(
        &DownloadOptions { max_attempts: 4, ..Default::default() },
        &remote(77),
    );
    assert_eq!(spec.url, "https://cdn.example.com/file.bin");
    assert_eq!(spec.size, 77);
    assert_eq!(spec.policy.max_attempts, 4);
}

#[test]
fn later_routing_entries_override_earlier_ones() {
    let options = DownloadOptions {
        dest_path: "/base".into(),
        routing: Some(shard::engine::resolve::FiletypeRouting {
            dirs: vec![
                ("video".to_string(), "Old".to_string()),
                ("video".to_string(), "New".to_string()),
            ],
            other: "Other".to_string(),
        }),
        ..Default::default()
    };
    let metadata = RemoteMetadata { final_url: "http://x/clip.mkv".into(), ..remote(1) };
    assert_eq!(shard::engine::resolve::resolve_destination(&options, &metadata, false), "/base/New/clip.mkv");
}
