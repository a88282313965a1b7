//! Periodic sidecar snapshots of a running download.

use vstd::prelude::*;
use super::dispatch::ChunkDispatcher;
use super::manifest::{ChunkEntry, RemoteSnapshot, Manifest, ManifestTemplate, MANIFEST_VERSION};

verus! {

/// How long to wait before the first snapshot: the snapshot interval, but
/// never more than one second (all values in milliseconds).
pub fn settle_before_first_flush(interval_ms: u64) -> (wait_ms: u64)
    ensures
        wait_ms == (if interval_ms < 1000 { interval_ms } else { 1000 }),
{
    if interval_ms < 1000 {
        interval_ms
    } else {
        1000
    }
}

/// The sidecar describing the dispatcher's state right now: the template's
/// fixed fields, each planned chunk with the bytes recorded for it, and the
/// digest when one is known.
pub fn snapshot(template: &ManifestTemplate, dispatcher: &ChunkDispatcher, sha256: Option<String>) -> (m: Manifest)
    requires
        dispatcher.wf(),
    ensures
        m.version == MANIFEST_VERSION,
        m.url == template.url,
        m.final_url == template.final_url,
        m.filename == template.filename,
        m.remote == template.remote,
        m.layout.chunk_size == template.chunk_size,
        m.integrity.sha256 == sha256,
        m.chunks@.len() == dispatcher@.chunks.len(),
        forall|i: int|
            0 <= i < m.chunks@.len() ==> #[trigger] m.chunks@[i] == (ChunkEntry {
                start: dispatcher@.chunks[i].start,
                end: dispatcher@.chunks[i].end,
                downloaded: dispatcher@.downloaded[i],
            }),
{
    let counts = dispatcher.downloaded_counts();
    let mut chunks: Vec<ChunkEntry> = Vec::new();
    let mut index: usize = 0;
    while index < counts.len()
        invariant
            counts@ == dispatcher@.downloaded,
            counts@.len() == dispatcher@.chunks.len(),
            index <= counts@.len(),
            chunks@.len() == index,
            forall|i: int|
                0 <= i < index ==> #[trigger] chunks@[i] == (ChunkEntry {
                    start: dispatcher@.chunks[i].start,
                    end: dispatcher@.chunks[i].end,
                    downloaded: dispatcher@.downloaded[i],
                }),
        decreases counts.len() - index,
    {
        let chunk = dispatcher.chunk(index);
        chunks.push(ChunkEntry { start: chunk.start, end: chunk.end, downloaded: counts[index] });
        index = index + 1;
    }
    let fixed = ManifestTemplate {
        url: template.url.clone(),
        final_url: template.final_url.clone(),
        filename: template.filename.clone(),
        remote: RemoteSnapshot {
            size: template.remote.size,
            etag: template.remote.etag.clone(),
            last_modified: template.remote.last_modified.clone(),
        },
        chunk_size: template.chunk_size,
    };
    fixed.into_manifest(chunks, sha256)
}

} // verus!
