//! SHA-256 of a downloaded file, reported as lower-case hex.

use vstd::prelude::*;
use sha2::Digest;
use crate::text::push_char;

verus! {

/// A running `sha2::Sha256` hasher (the hasher's type is held opaquely).
#[verifier::external_body]
pub struct Sha256State {
    inner: sha2::Sha256,
}

/// The bytes a hasher has absorbed so far.
pub uninterp spec fn sha256_absorbed(h: Sha256State) -> Seq<u8>;

/// The SHA-256 digest of `data`, as `sha2` computes it.
pub uninterp spec fn sha256_digest_of(data: Seq<u8>) -> Seq<u8>;

/// `Sha256::new()`: a hasher that has absorbed nothing.
#[verifier::external_body]
fn sha256_new() -> (h: Sha256State)
    ensures
        sha256_absorbed(h) == Seq::<u8>::empty(),
{
    Sha256State { inner: sha2::Sha256::new() }
}

/// `Digest::update`: absorbs `data` after what was absorbed before.
#[verifier::external_body]
fn sha256_update(h: &mut Sha256State, data: &[u8])
    ensures
        sha256_absorbed(*final(h)) == sha256_absorbed(*old(h)) + data@,
{
    h.inner.update(data);
}

/// `Digest::finalize`: the 32-byte digest of everything absorbed.
#[verifier::external_body]
fn sha256_finalize(h: Sha256State) -> (digest: Vec<u8>)
    ensures
        digest@ == sha256_digest_of(sha256_absorbed(h)),
        digest@.len() == 32,
{
    h.inner.finalize().to_vec()
}

/// The lower-case hex digit for `d` (below 16).
pub open spec fn hex_digit(d: int) -> char {
    if d < 10 {
        (('0' as int) + d) as char
    } else {
        (('a' as int) + d - 10) as char
    }
}

/// Two lower-case hex digits per byte, in order.
pub open spec fn spec_hex(bytes: Seq<u8>) -> Seq<char>
    decreases bytes.len(),
{
    if bytes.len() == 0 {
        Seq::empty()
    } else {
        spec_hex(bytes.drop_last()) + seq![
            hex_digit(bytes.last() as int / 16),
            hex_digit(bytes.last() as int % 16),
        ]
    }
}

/// Hex text is twice as long as the bytes it spells.
pub proof fn lemma_hex_len(bytes: Seq<u8>)
    ensures
        spec_hex(bytes).len() == 2 * bytes.len(),
    decreases bytes.len(),
{
    if bytes.len() > 0 {
        lemma_hex_len(bytes.drop_last());
    }
}

fn hex_char(d: u8) -> (c: char)
    requires
        d < 16,
    ensures
        c == hex_digit(d as int),
{
    if d < 10 {
        (('0' as u8) + d) as char
    } else {
        (('a' as u8) + d - 10) as char
    }
}

/// `bytes` as lower-case hex, two digits per byte.
pub fn hex_string(bytes: &[u8]) -> (out: String)
    ensures
        out@ == spec_hex(bytes@),
{
    let mut out = String::new();
    let mut i: usize = 0;
    while i < bytes.len()
        invariant
            i <= bytes.len(),
            out@ == spec_hex(bytes@.take(i as int)),
        decreases bytes.len() - i,
    {
        let b = bytes[i];
        push_char(&mut out, hex_char(b / 16));
        push_char(&mut out, hex_char(b % 16));
        i = i + 1;
        assert(bytes@.take(i as int).drop_last() =~= bytes@.take(i - 1));
        assert(out@ =~= spec_hex(bytes@.take(i as int)));
    }
    assert(bytes@.take(i as int) =~= bytes@);
    out
}

/// Incremental SHA-256 over the bytes of a file.
pub struct Sha256Hasher {
    inner: Sha256State,
}

impl View for Sha256Hasher {
    type V = Seq<u8>;

    /// The bytes fed in so far.
    closed spec fn view(&self) -> Seq<u8> {
        sha256_absorbed(self.inner)
    }
}

impl Sha256Hasher {
    /// A hasher that has seen nothing.
    pub fn new() -> (h: Sha256Hasher)
        ensures
            h@ == Seq::<u8>::empty(),
    {
        Sha256Hasher { inner: sha256_new() }
    }

    /// Feeds `data` after everything fed before.
    pub fn update(&mut self, data: &[u8])
        ensures
            final(self)@ == old(self)@ + data@,
    {
        sha256_update(&mut self.inner, data);
    }

    /// The digest of everything fed in, as 64 lower-case hex digits.
    pub fn finish_hex(self) -> (hex: String)
        ensures
            hex@ == spec_hex(sha256_digest_of(self@)),
            hex@.len() == 64,
    {
        let digest = sha256_finalize(self.inner);
        proof {
            lemma_hex_len(digest@);
        }
        hex_string(digest.as_slice())
    }
}

impl Default for Sha256Hasher {
    fn default() -> (h: Sha256Hasher)
        ensures
            h@ == Seq::<u8>::empty(),
    {
        Sha256Hasher::new()
    }
}

} // verus!
