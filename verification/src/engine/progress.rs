//! Progress notifications sent from the engine to whoever draws progress.

use vstd::prelude::*;

verus! {

/// One progress notification.
#[derive(Debug, Clone, Copy, PartialEq, Eq, Structural)]
pub enum ProgressEvent {
    /// The download starts: `total` bytes in chunks of `chunk_size` bytes.
    Start { total: u64, chunk_size: u64 },
    /// `worker` began working on chunk `index`.
    ChunkStarted { worker: usize, index: usize },
    /// `worker` has written `written` bytes of chunk `index` in its current attempt.
    ChunkAdvanced { worker: usize, index: usize, written: u64 },
    /// `worker` finished chunk `index`.
    ChunkComplete { worker: usize, index: usize },
    /// A download of known size that is not split into chunks.
    Finite { total: u64, done: u64 },
}

} // verus!
