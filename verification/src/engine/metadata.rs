//! What the probe requests tell about the remote file.

use vstd::prelude::*;
use super::error::DownloadError;
use crate::text::{chars_of, parse_u64, spec_parse_u64, starts_with_str, string_from_str};

verus! {

/// The file size a `Content-Length` header gives (`None` when the header is
/// missing or not text); a missing or unparsable length is an error.
pub fn content_length(header: Option<&str>) -> (r: Result<u64, DownloadError>)
    ensures
        match header {
            Some(h) => match spec_parse_u64(h@) {
                Some(n) => r == Ok::<u64, DownloadError>(n as u64),
                None => r matches Err(DownloadError::InvalidArgument(m)) && m@ == "missing content length"@,
            },
            None => r matches Err(DownloadError::InvalidArgument(m)) && m@ == "missing content length"@,
        },
{
    let parsed = match header {
        Some(h) => {
            let cs = chars_of(h);
            parse_u64(cs.as_slice())
        },
        None => None,
    };
    match parsed {
        Some(n) => Ok(n),
        None => Err(DownloadError::InvalidArgument(string_from_str("missing content length"))),
    }
}

/// Whether the answer to the one-byte range probe shows range support: a
/// `206 Partial Content` whose `Content-Range` starts with `bytes`.
pub fn ranges_accepted(partial_content: bool, content_range: Option<&str>) -> (b: bool)
    ensures
        b == (partial_content && match content_range {
            Some(v) => "bytes"@.len() <= v@.len() && v@.subrange(0, "bytes"@.len() as int) == "bytes"@,
            None => false,
        }),
{
    if !partial_content {
        return false;
    }
    match content_range {
        Some(v) => {
            let cs = chars_of(v);
            starts_with_str(cs.as_slice(), "bytes")
        },
        None => false,
    }
}

} // verus!
