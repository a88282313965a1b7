//! Filesystem paths, held as strings, and the few `std::path` operations the
//! library needs. Paths follow Unix conventions (the library's only target).

use vstd::prelude::*;
use crate::text::{chars_of, push_char, push_str, string_from_str};

verus! {

/// What `Path::file_name` yields for the path `p` (its last normal component).
pub uninterp spec fn path_file_name_of(p: Seq<char>) -> Option<Seq<char>>;

/// What `Path::with_file_name` yields for the path `p` and the name `name`.
pub uninterp spec fn path_with_file_name_of(p: Seq<char>, name: Seq<char>) -> Seq<char>;

/// `base` joined with `leaf`, as `Path::join` does it on Unix: an absolute
/// `leaf` (one that starts with `/`) replaces `base`; otherwise `leaf` follows
/// `base`, with a `/` between them when `base` is not empty and does not
/// already end in one.
pub open spec fn path_join_of(base: Seq<char>, leaf: Seq<char>) -> Seq<char> {
    if leaf.len() > 0 && leaf[0] == '/' {
        leaf
    } else if base.len() > 0 && base.last() != '/' {
        base + seq!['/'] + leaf
    } else {
        base + leaf
    }
}

/// `Path::file_name` on the path text; the name is returned as a string.
#[verifier::external_body]
pub(crate) fn path_file_name(p: &str) -> (name: Option<String>)
    ensures
        match name {
            Some(n) => path_file_name_of(p@) == Some(n@),
            None => path_file_name_of(p@) is None,
        },
{
    std::path::Path::new(p).file_name().map(|n| n.to_string_lossy().into_owned())
}

/// `Path::with_file_name` on the path text, returned as a string.
#[verifier::external_body]
pub(crate) fn path_with_file_name(p: &str, name: &str) -> (out: String)
    ensures
        out@ == path_with_file_name_of(p@, name@),
{
    std::path::Path::new(p).with_file_name(name).to_string_lossy().into_owned()
}

/// `base` joined with `leaf` (see `path_join_of`).
pub(crate) fn path_join(base: &str, leaf: &str) -> (out: String)
    ensures
        out@ == path_join_of(base@, leaf@),
{
    let l = chars_of(leaf);
    if l.len() > 0 && l[0] == '/' {
        return string_from_str(leaf);
    }
    let b = chars_of(base);
    let mut out = string_from_str(base);
    if b.len() > 0 && b[b.len() - 1] != '/' {
        push_char(&mut out, '/');
    }
    push_str(&mut out, leaf);
    out
}

} // verus!
