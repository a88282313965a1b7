use shard::native_messaging::{frame_header, frame_length, read_frame, write_frame, ByteReader, FrameError, MAX_MESSAGE_BYTES};
use shard::rpc::{frame_body, seal_frame, PROTOCOL_VERSION};

#[test]
fn frames_round_trip_through_a_cursor() {
    let mut out = Vec::new();
    write_frame(&mut out, br#"{"hello":"world"}"#, little()).unwrap();
    let mut read = ByteReader::new(out);
    assert_eq!(read_frame(&mut read, little()).unwrap(), Some(br#"{"hello":"world"}"#.to_vec()));
}

#[test]
fn clean_eof_reads_as_no_message() {
    let mut empty = ByteReader::new(Vec::new());
    assert_eq!(read_frame(&mut empty, little()).unwrap(), None);
}

#[test]
fn overlarge_payload_is_rejected() {
    let huge = vec![0u8; (MAX_MESSAGE_BYTES + 1) as usize];
    let mut out = Vec::new();
    assert!(write_frame(&mut out, &huge, little()).is_err());
    assert!(out.is_empty());

    let header = (MAX_MESSAGE_BYTES + 1).to_ne_bytes().to_vec();
    let mut read = ByteReader::new(header);
    assert!(read_frame(&mut read, little()).is_err());
}

#[test]
fn consecutive_frames_read_in_order_and_errors_are_reported() {
    let mut out = Vec::new();
    write_frame(&mut out, b"first", little()).unwrap();
    write_frame(&mut out, b"", little()).unwrap();
    write_frame(&mut out, b"third", little()).unwrap();
    assert_eq!(&out[0..4], &5u32.to_ne_bytes());
    let mut read = ByteReader::new(out);
    assert_eq!(read_frame(&mut read, little()).unwrap(), Some(b"first".to_vec()));
    assert_eq!(read_frame(&mut read, little()).unwrap(), Some(Vec::new()));
    assert_eq!(read_frame(&mut read, little()).unwrap(), Some(b"third".to_vec()));
    assert_eq!(read_frame(&mut read, little()).unwrap(), None);

    let mut cut = 10u32.to_ne_bytes().to_vec();
    cut.extend_from_slice(b"abc");
    let mut read = ByteReader::new(cut);
    assert_eq!(read_frame(&mut read, little()), Err(FrameError::Truncated));
    assert_eq!(FrameError::MessageTooLarge(7).message(), "native message too large (7 bytes)");
    assert_eq!(FrameError::PayloadTooLarge(9).message(), "payload too large (9 bytes)");
}

#[test]
fn protocol_version_is_one() {
    assert_eq!(PROTOCOL_VERSION, 1);
}

#[test]
fn newline_framing_round_trips() {
    let frame = seal_frame(br#"{"type":"ping"}"#.to_vec());
    assert_eq!(frame.last(), Some(&b'\n'));
    assert_eq!(frame_body(&frame), br#"{"type":"ping"}"#);
    assert_eq!(frame_body(b"{}\r\n"), b"{}\r");
    assert_eq!(frame_body(b"{}"), b"{}");
}

fn object(key: &str, value: serde_json::Value) -> serde_json::Value {
    let mut map = serde_json::Map::new();
    map.insert(key.to_string(), value);
    serde_json::Value::Object(map)
}

#[test]
fn newline_is_the_only_frame_delimiter() {
    let message = object("nested", serde_json::Value::String("line\nbreak".to_string()));
    let frame = seal_frame(serde_json::to_vec(&message).unwrap());
    assert!(frame.ends_with(b"\n"));
    assert_eq!(frame.iter().filter(|b| **b == b'\n').count(), 1);
    let decoded: serde_json::Value = serde_json::from_slice(frame_body(&frame)).unwrap();
    assert_eq!(decoded["nested"], "line\nbreak");
}

#[test]
fn crlf_is_accepted_on_read() {
    let frame = seal_frame(serde_json::to_vec(&object("ok", serde_json::Value::Bool(true))).unwrap());
    let mut crlf = frame;
    crlf.pop();
    crlf.extend_from_slice(b"\r\n");
    let decoded: serde_json::Value = serde_json::from_slice(frame_body(&crlf)).unwrap();
    assert_eq!(decoded["ok"], true);
}

#[test]
fn cut_header_is_an_error_not_a_clean_end() {
    let mut read = ByteReader::new(vec![7u8, 0]);
    assert_eq!(read_frame(&mut read, little()), Err(FrameError::Truncated));
    assert_eq!(read_frame(&mut read, little()).unwrap(), None);
}

/// Whether this machine stores integers least significant byte first.
fn little() -> bool {
    1u32.to_ne_bytes()[0] == 1
}

#[test]
fn frames_are_written_in_the_given_byte_order() {
    let mut out = Vec::new();
    write_frame(&mut out, b"ab", true).unwrap();
    assert_eq!(out, vec![2, 0, 0, 0, b'a', b'b']);
    let mut out = Vec::new();
    write_frame(&mut out, b"ab", false).unwrap();
    assert_eq!(out, vec![0, 0, 0, 2, b'a', b'b']);
    let mut read = ByteReader::new(vec![0, 0, 0, 2, b'a', b'b']);
    assert_eq!(read_frame(&mut read, false).unwrap(), Some(b"ab".to_vec()));
    assert_eq!(frame_length([2, 0, 0, 0], true), Ok(2));
    assert_eq!(frame_length([0, 0, 1, 0], false), Ok(256));
    assert_eq!(frame_header(258, true), Ok([2, 1, 0, 0]));
    assert_eq!(frame_header(258, false), Ok([0, 0, 1, 2]));
}
