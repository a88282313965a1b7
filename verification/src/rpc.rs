//! The daemon protocol: its messages and their newline framing. Messages
//! travel as one JSON document per line; the codec lives with the callers,
//! the line discipline lives here.

use vstd::prelude::*;

verus! {

/// Wire protocol version. Peers reject other major versions before reading
/// anything else.
pub const PROTOCOL_VERSION: u32 = 1;

/// A request to the daemon.
#[derive(Debug, Clone, PartialEq, Eq)]
pub enum Request {
    Ping,
    Start { url: String, dest: Option<String>, connections: Option<u32> },
    List,
    Status { id: String },
    Pause { id: String },
    Resume { id: String },
    Cancel { id: String },
    /// Subscribe to snapshot broadcasts until the connection closes.
    Watch,
}

/// The daemon's answer to a request.
#[derive(Debug, Clone, PartialEq, Eq)]
pub enum Response {
    Pong,
    Started { id: String },
    List { downloads: Vec<DownloadInfo> },
    Status { download: Option<DownloadInfo> },
    /// Control request accepted for the given download.
    Ack { id: String },
    Error { code: String, message: String },
}

/// State pushed to watch subscribers.
#[derive(Debug, Clone, PartialEq, Eq)]
pub enum ServerEvent {
    Snapshot { downloads: Vec<DownloadInfo> },
}

/// One download as the protocol describes it.
#[derive(Debug, Clone, PartialEq, Eq)]
pub struct DownloadInfo {
    pub id: String,
    pub url: String,
    pub dest: String,
    pub status: DownloadStatus,
    pub size: u64,
    pub done_bytes: u64,
    pub sha256: String,
    pub error: Option<String>,
}

#[derive(Debug, Clone, Copy, PartialEq, Eq, Structural)]
pub enum DownloadStatus {
    Downloading,
    Paused,
    Completed,
    Cancelled,
    Failed,
}

/// The frame of an encoded message: its bytes and a closing newline.
pub open spec fn spec_frame(body: Seq<u8>) -> Seq<u8> {
    body.push(10u8)
}

/// The message bytes inside a received line: without its closing `\n`; a
/// line without one is taken whole. Of a `\r\n` ending the `\r` stays, which
/// JSON readers skip as whitespace.
pub open spec fn spec_frame_body(frame: Seq<u8>) -> Seq<u8> {
    if frame.len() >= 1 && frame.last() == 10u8 {
        frame.drop_last()
    } else {
        frame
    }
}

/// Closes an encoded message with the newline that ends its frame.
pub fn seal_frame(body: Vec<u8>) -> (frame: Vec<u8>)
    ensures
        frame@ == spec_frame(body@),
{
    let mut frame = body;
    frame.push(10u8);
    frame
}

/// The message bytes of a received frame, see `spec_frame_body`.
pub fn frame_body(frame: &[u8]) -> (body: &[u8])
    ensures
        body@ == spec_frame_body(frame@),
{
    let n = frame.len();
    if n >= 1 && frame[n - 1] == 10u8 {
        vstd::slice::slice_subrange(frame, 0, n - 1)
    } else {
        frame
    }
}

/// Framing round trip: the body read back from a sealed frame is the body
/// that was sealed, whatever bytes it holds.
pub proof fn lemma_frame_round_trip(body: Seq<u8>)
    ensures
        spec_frame_body(spec_frame(body)) == body,
{
    assert(spec_frame(body).drop_last() =~= body);
}

/// The reply relayed to the browser when the daemon cannot be reached.
pub fn unreachable_reply(message: String) -> (r: Response)
    ensures
        r matches Response::Error { code, message: m } && code@ == "daemon_unreachable"@ && m == message,
{
    Response::Error { code: crate::text::string_from_str("daemon_unreachable"), message }
}

/// The reply relayed to the browser when the daemon's transport fails.
pub fn transport_error_reply(message: String) -> (r: Response)
    ensures
        r matches Response::Error { code, message: m } && code@ == "daemon_error"@ && m == message,
{
    Response::Error { code: crate::text::string_from_str("daemon_error"), message }
}

/// The snapshot that tells a watcher no daemon is answering: no downloads.
pub fn empty_snapshot() -> (e: ServerEvent)
    ensures
        e matches ServerEvent::Snapshot { downloads } && downloads@.len() == 0,
{
    ServerEvent::Snapshot { downloads: Vec::new() }
}

} // verus!
