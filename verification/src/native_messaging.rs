//! WebExtension native messaging framing: each message is a `u32` length in
//! the machine's byte order followed by that many bytes of JSON.

use vstd::prelude::*;
use crate::text::{decimal, push_decimal, push_str, string_from_str};

verus! {

/// Largest message accepted from or sent to the browser (1 MiB).
pub const MAX_MESSAGE_BYTES: u32 = 0x10_0000;

/// The value of four bytes read least significant first.
pub open spec fn le_value(b: Seq<u8>) -> int {
    b[0] + 256 * b[1] + 65536 * b[2] + 16777216 * b[3]
}

/// The four bytes of `n`, least significant first.
pub open spec fn le_bytes(n: u32) -> Seq<u8> {
    seq![
        (n % 256) as u8,
        ((n / 256) % 256) as u8,
        ((n / 65536) % 256) as u8,
        (n / 16777216) as u8,
    ]
}

/// The four bytes of `n` in one of the two byte orders.
pub open spec fn header_bytes(n: u32, little: bool) -> Seq<u8> {
    if little { le_bytes(n) } else { le_bytes(n).reverse() }
}

/// The value of a four-byte header in one of the two byte orders.
pub open spec fn header_value(b: Seq<u8>, little: bool) -> int {
    if little { le_value(b) } else { le_value(b.reverse()) }
}

/// The four bytes of `n` in the given byte order.
fn header_of(n: u32, little: bool) -> (b: [u8; 4])
    ensures
        b@ == header_bytes(n, little),
{
    let b0 = (n % 256) as u8;
    let b1 = ((n / 256) % 256) as u8;
    let b2 = ((n / 65536) % 256) as u8;
    let b3 = (n / 16777216) as u8;
    let b: [u8; 4] = if little { [b0, b1, b2, b3] } else { [b3, b2, b1, b0] };
    assert(b@ =~= header_bytes(n, little));
    b
}

/// The value of a four-byte header in the given byte order.
fn value_of(b: [u8; 4], little: bool) -> (n: u32)
    ensures
        n == header_value(b@, little),
{
    let x0 = b[0] as u32;
    let x1 = b[1] as u32;
    let x2 = b[2] as u32;
    let x3 = b[3] as u32;
    if little {
        x0 + 256 * x1 + 65536 * x2 + 16777216 * x3
    } else {
        assert(b@.reverse()[0] == b@[3] && b@.reverse()[1] == b@[2] && b@.reverse()[2] == b@[1]
            && b@.reverse()[3] == b@[0]);
        x3 + 256 * x2 + 65536 * x1 + 16777216 * x0
    }
}

/// Why a frame could not be read or written.
#[derive(Debug, Clone, Copy, PartialEq, Eq, Structural)]
pub enum FrameError {
    /// An incoming frame announced more than the cap (the announced length).
    MessageTooLarge(u32),
    /// The input ended inside a frame's header or payload.
    Truncated,
    /// An outgoing payload is longer than a `u32` can count.
    PayloadOverflow,
    /// An outgoing payload is longer than the cap (its length).
    PayloadTooLarge(u32),
}

pub open spec fn frame_error_text(e: FrameError) -> Seq<char> {
    match e {
        FrameError::MessageTooLarge(n) => "native message too large ("@ + decimal(n as nat) + " bytes)"@,
        FrameError::Truncated => "failed to fill whole buffer"@,
        FrameError::PayloadOverflow => "payload too large for native messaging"@,
        FrameError::PayloadTooLarge(n) => "payload too large ("@ + decimal(n as nat) + " bytes)"@,
    }
}

impl FrameError {
    /// The message this error is reported with.
    pub fn message(&self) -> (text: String)
        ensures
            text@ == frame_error_text(*self),
    {
        match self {
            FrameError::MessageTooLarge(n) => {
                let mut s = string_from_str("native message too large (");
                push_decimal(&mut s, *n as u64);
                push_str(&mut s, " bytes)");
                s
            },
            FrameError::Truncated => string_from_str("failed to fill whole buffer"),
            FrameError::PayloadOverflow => string_from_str("payload too large for native messaging"),
            FrameError::PayloadTooLarge(n) => {
                let mut s = string_from_str("payload too large (");
                push_decimal(&mut s, *n as u64);
                push_str(&mut s, " bytes)");
                s
            },
        }
    }
}

/// Bytes to read frames from, with a read position (an in-memory reader).
pub struct ByteReader {
    data: Vec<u8>,
    pos: usize,
}

impl View for ByteReader {
    type V = (Seq<u8>, nat);

    closed spec fn view(&self) -> (Seq<u8>, nat) {
        (self.data@, self.pos as nat)
    }
}

impl ByteReader {
    pub closed spec fn wf(&self) -> bool {
        self.pos <= self.data@.len()
    }

    /// A reader positioned at the start of `data`.
    pub fn new(data: Vec<u8>) -> (r: ByteReader)
        ensures
            r.wf(),
            r@ == (data@, 0nat),
    {
        ByteReader { data, pos: 0 }
    }
}

/// The payload length a frame header announces, in the machine's byte
/// order (`little` when it is little-endian), refused when it is over the
/// cap.
pub fn frame_length(header: [u8; 4], little: bool) -> (r: Result<u32, FrameError>)
    ensures
        header_value(header@, little) <= MAX_MESSAGE_BYTES ==> r == Ok::<u32, FrameError>(
            header_value(header@, little) as u32,
        ),
        header_value(header@, little) > MAX_MESSAGE_BYTES ==> r == Err::<u32, FrameError>(
            FrameError::MessageTooLarge(header_value(header@, little) as u32),
        ),
{
    let length = value_of(header, little);
    if length > MAX_MESSAGE_BYTES {
        Err(FrameError::MessageTooLarge(length))
    } else {
        Ok(length)
    }
}

/// The header of a frame for a payload of `len` bytes, in the machine's
/// byte order (`little` when it is little-endian), refused when the payload
/// is over the cap.
pub fn frame_header(len: usize, little: bool) -> (r: Result<[u8; 4], FrameError>)
    ensures
        len > u32::MAX ==> r == Err::<[u8; 4], FrameError>(FrameError::PayloadOverflow),
        len <= u32::MAX && len > MAX_MESSAGE_BYTES ==> r == Err::<[u8; 4], FrameError>(
            FrameError::PayloadTooLarge(len as u32),
        ),
        len <= MAX_MESSAGE_BYTES ==> (r matches Ok(h) && h@ == header_bytes(len as u32, little)),
{
    if len as u64 > 0xffff_ffffu64 {
        return Err(FrameError::PayloadOverflow);
    }
    let length = len as u32;
    if length > MAX_MESSAGE_BYTES {
        return Err(FrameError::PayloadTooLarge(length));
    }
    Ok(header_of(length, little))
}

/// What reading one frame at `pos` of `data` gives, for a machine of the
/// given byte order: the result and the position afterwards. No bytes left
/// is a clean end of input; one to three bytes left is a header cut short,
/// an error that consumes them; an announced length over the cap is refused
/// after the header; a payload cut short consumes the rest and is an error.
pub open spec fn spec_read_frame(data: Seq<u8>, pos: int, little: bool) -> (Result<Option<Seq<u8>>, FrameError>, int) {
    if data.len() - pos == 0 {
        (Ok(None), data.len() as int)
    } else if data.len() - pos < 4 {
        (Err(FrameError::Truncated), data.len() as int)
    } else {
        let length = header_value(data.subrange(pos, pos + 4), little);
        if length > MAX_MESSAGE_BYTES {
            (Err(FrameError::MessageTooLarge(length as u32)), pos + 4)
        } else if data.len() - (pos + 4) < length {
            (Err(FrameError::Truncated), data.len() as int)
        } else {
            (Ok(Some(data.subrange(pos + 4, pos + 4 + length))), pos + 4 + length)
        }
    }
}

/// Reads the next frame, its header in the machine's byte order (`little`
/// when it is little-endian). `Ok(None)` means the input ended cleanly, with
/// no byte of a further header; a header or payload cut short is an error.
pub fn read_frame(reader: &mut ByteReader, little: bool) -> (r: Result<Option<Vec<u8>>, FrameError>)
    requires
        old(reader).wf(),
    ensures
        final(reader).wf(),
        final(reader)@.0 == old(reader)@.0,
        ({
            let (expected, next) = spec_read_frame(old(reader)@.0, old(reader)@.1 as int, little);
            &&& final(reader)@.1 == next
            &&& match (r, expected) {
                (Ok(Some(p)), Ok(Some(q))) => p@ == q,
                (Ok(None), Ok(None)) => true,
                (Err(e), Err(f)) => e == f,
                _ => false,
            }
        }),
{
    let len = reader.data.len();
    if len - reader.pos == 0 {
        proof {
            assert(spec_read_frame(reader@.0, old(reader)@.1 as int, true).1 == len);
        }
        return Ok(None);
    }
    if len - reader.pos < 4 {
        reader.pos = len;
        proof {
            assert(spec_read_frame(reader@.0, old(reader)@.1 as int, true).1 == len);
        }
        return Err(FrameError::Truncated);
    }
    let p = reader.pos;
    let header: [u8; 4] = [reader.data[p], reader.data[p + 1], reader.data[p + 2], reader.data[p + 3]];
    let length = value_of(header, little);
    proof {
        assert(header@ =~= reader.data@.subrange(p as int, p + 4));
        assert(length == header_value(reader.data@.subrange(p as int, p + 4), little));
    }
    reader.pos = p + 4;
    if length > MAX_MESSAGE_BYTES {
        proof {
            let _ = spec_read_frame(reader@.0, p as int, little);
        }
        return Err(FrameError::MessageTooLarge(length));
    }
    let start = p + 4;
    if ((len - start) as u64) < length as u64 {
        reader.pos = len;
        proof {
            let _ = spec_read_frame(reader@.0, p as int, little);
        }
        return Err(FrameError::Truncated);
    }
    let end = start + length as usize;
    let mut payload: Vec<u8> = Vec::new();
    let mut k: usize = start;
    while k < end
        invariant
            start <= k <= end <= reader.data@.len(),
            payload@ == reader.data@.subrange(start as int, k as int),
        decreases end - k,
    {
        payload.push(reader.data[k]);
        k = k + 1;
        assert(payload@ =~= reader.data@.subrange(start as int, k as int));
    }
    reader.pos = end;
    proof {
        let _ = spec_read_frame(reader@.0, p as int, little);
    }
    Ok(Some(payload))
}

/// The bytes a frame of `payload` takes for a machine of the given byte
/// order: the length header, then the payload.
pub open spec fn spec_frame_bytes(payload: Seq<u8>, little: bool) -> Seq<u8> {
    header_bytes(payload.len() as u32, little) + payload
}

/// Appends the frame of `payload` to `out`, its header in the machine's
/// byte order (`little` when it is little-endian); a payload over the cap is
/// refused and nothing is written.
pub fn write_frame(out: &mut Vec<u8>, payload: &[u8], little: bool) -> (r: Result<(), FrameError>)
    ensures
        payload@.len() > u32::MAX ==> r == Err::<(), FrameError>(FrameError::PayloadOverflow) && final(out)@
            == old(out)@,
        payload@.len() <= u32::MAX && payload@.len() > MAX_MESSAGE_BYTES ==> r == Err::<(), FrameError>(
            FrameError::PayloadTooLarge(payload@.len() as u32),
        ) && final(out)@ == old(out)@,
        payload@.len() <= MAX_MESSAGE_BYTES ==> r is Ok && final(out)@ == old(out)@ + spec_frame_bytes(
            payload@,
            little,
        ),
{
    if payload.len() as u64 > 0xffff_ffffu64 {
        return Err(FrameError::PayloadOverflow);
    }
    let length = payload.len() as u32;
    if length > MAX_MESSAGE_BYTES {
        return Err(FrameError::PayloadTooLarge(length));
    }
    let header = header_of(length, little);
    let mut i: usize = 0;
    while i < 4
        invariant
            i <= 4,
            out@ == old(out)@ + header@.take(i as int),
        decreases 4 - i,
    {
        out.push(header[i]);
        i = i + 1;
        assert(out@ =~= old(out)@ + header@.take(i as int));
    }
    let mut j: usize = 0;
    while j < payload.len()
        invariant
            j <= payload@.len(),
            out@ == old(out)@ + header@ + payload@.take(j as int),
        decreases payload.len() - j,
    {
        out.push(payload[j]);
        j = j + 1;
        assert(out@ =~= old(out)@ + header@ + payload@.take(j as int));
    }
    assert(header@.take(4) =~= header@);
    assert(payload@.take(j as int) =~= payload@);
    assert(out@ =~= old(out)@ + spec_frame_bytes(payload@, little));
    Ok(())
}

proof fn lemma_le_round_trip(n: u32)
    by (bit_vector)
    ensures
        (n % 256) + 256 * ((n / 256) % 256) + 65536 * ((n / 65536) % 256) + 16777216 * (n / 16777216) == n,
{
}

/// Frames round-trip: on a machine of either byte order, reading where a
/// frame of a payload within the cap begins gives that payload back and
/// stops right after it.
pub proof fn lemma_native_frame_round_trip(prefix: Seq<u8>, payload: Seq<u8>, rest: Seq<u8>, little: bool)
    requires
        payload.len() <= MAX_MESSAGE_BYTES,
    ensures
        spec_read_frame(prefix + spec_frame_bytes(payload, little) + rest, prefix.len() as int, little)
            == (Ok::<Option<Seq<u8>>, FrameError>(Some(payload)), (prefix.len() + 4 + payload.len()) as int),
{
    let n = payload.len() as u32;
    let data = prefix + spec_frame_bytes(payload, little) + rest;
    let p = prefix.len() as int;
    lemma_le_round_trip(n);
    assert(data.subrange(p, p + 4) =~= header_bytes(n, little));
    if !little {
        assert(header_bytes(n, little).reverse() =~= le_bytes(n));
    }
    assert(header_value(data.subrange(p, p + 4), little) == n);
    assert(data.subrange(p + 4, p + 4 + n) =~= payload);
}

} // verus!
