//! Why a download stopped short.

use vstd::prelude::*;
use crate::text::{decimal, push_decimal, push_str, string_from_str};

verus! {

/// The ways a download can fail.
#[derive(Debug, Clone, PartialEq, Eq)]
pub enum DownloadError {
    /// The HTTP client reported a failure (its message).
    Http(String),
    /// The file system reported a failure (its message).
    Io(String),
    /// A caller handed in something unusable.
    InvalidArgument(String),
    /// The sidecar does not describe the file that is on the server now.
    ResumeRefused(String),
    /// The server does not honour byte ranges.
    RangeUnsupported,
    /// This many chunks failed after exhausting their attempts.
    ChunksFailed(usize),
    /// The user cancelled the download.
    Canceled,
    /// A sidecar could not be encoded or decoded (the codec's message).
    Json(String),
}

/// The human-readable text of an error.
pub open spec fn error_text(e: DownloadError) -> Seq<char> {
    match e {
        DownloadError::Http(m) => "http request failed: "@ + m@,
        DownloadError::Io(m) => "io error: "@ + m@,
        DownloadError::InvalidArgument(m) => "invalid argument: "@ + m@,
        DownloadError::ResumeRefused(m) => "resume refused: "@ + m@,
        DownloadError::RangeUnsupported => "remote does not support byte ranges"@,
        DownloadError::ChunksFailed(n) => decimal(n as nat) + " chunks failed after exhausting retry attempts"@,
        DownloadError::Canceled => "download cancelled by user"@,
        DownloadError::Json(m) => "serialization error: "@ + m@,
    }
}

impl DownloadError {
    /// The message this error is reported with.
    pub fn message(&self) -> (text: String)
        ensures
            text@ == error_text(*self),
    {
        match self {
            DownloadError::Http(m) => {
                let mut s = string_from_str("http request failed: ");
                push_str(&mut s, m.as_str());
                s
            },
            DownloadError::Io(m) => {
                let mut s = string_from_str("io error: ");
                push_str(&mut s, m.as_str());
                s
            },
            DownloadError::InvalidArgument(m) => {
                let mut s = string_from_str("invalid argument: ");
                push_str(&mut s, m.as_str());
                s
            },
            DownloadError::ResumeRefused(m) => {
                let mut s = string_from_str("resume refused: ");
                push_str(&mut s, m.as_str());
                s
            },
            DownloadError::RangeUnsupported => string_from_str("remote does not support byte ranges"),
            DownloadError::ChunksFailed(n) => {
                let mut s = String::new();
                push_decimal(&mut s, *n as u64);
                push_str(&mut s, " chunks failed after exhausting retry attempts");
                assert(s@ =~= error_text(*self));
                s
            },
            DownloadError::Canceled => string_from_str("download cancelled by user"),
            DownloadError::Json(m) => {
                let mut s = string_from_str("serialization error: ");
                push_str(&mut s, m.as_str());
                s
            },
        }
    }
}

} // verus!
