use rustmcp::frame::{decode_frame, encode_frame, Decoded, FrameBuffer, FrameError};

#[test]
fn encode_frame_writes_exact_length_header() {
    let framed = encode_frame(b"{\"a\":1}");
    assert_eq!(framed, b"Content-Length: 7\r\n\r\n{\"a\":1}".to_vec());
}

#[test]
fn encode_frame_of_empty_payload() {
    assert_eq!(encode_frame(b""), b"Content-Length: 0\r\n\r\n".to_vec());
}

#[test]
fn encode_frame_multi_digit_length() {
    let payload = vec![b'x'; 1234];
    let framed = encode_frame(&payload);
    assert!(framed.starts_with(b"Content-Length: 1234\r\n\r\n"));
    assert_eq!(framed.len(), "Content-Length: 1234\r\n\r\n".len() + 1234);
}

#[test]
fn decode_whole_frame() {
    let buf = b"Content-Length: 2\r\n\r\n{}rest";
    assert_eq!(
        decode_frame(buf, false),
        Decoded::Frame { payload: b"{}".to_vec(), consumed: 23 }
    );
}

#[test]
fn decode_round_trips_encode() {
    let payload = b"{\"jsonrpc\":\"2.0\",\"id\":1}".to_vec();
    let framed = encode_frame(&payload);
    assert_eq!(
        decode_frame(&framed, true),
        Decoded::Frame { payload, consumed: framed.len() }
    );
}

#[test]
fn decode_ignores_unknown_headers() {
    let buf = b"Content-Type: application/vscode-jsonrpc; charset=utf-8\r\nContent-Length: 3\r\n\r\nabc";
    assert_eq!(
        decode_frame(buf, false),
        Decoded::Frame { payload: b"abc".to_vec(), consumed: buf.len() }
    );
}

#[test]
fn decode_trims_blanks_around_length() {
    let buf = b"Content-Length:\t 3 \r\n\r\nabc";
    assert_eq!(
        decode_frame(buf, false),
        Decoded::Frame { payload: b"abc".to_vec(), consumed: buf.len() }
    );
}

#[test]
fn decode_missing_length_fails() {
    let buf = b"Content-Type: text\r\n\r\nabc";
    assert_eq!(decode_frame(buf, false), Decoded::Failed(FrameError::MissingLength));
}

#[test]
fn decode_header_without_colon_fails() {
    let buf = b"Content-Length 3\r\n\r\nabc";
    assert_eq!(decode_frame(buf, false), Decoded::Failed(FrameError::MalformedHeader));
}

#[test]
fn decode_non_numeric_length_fails() {
    let buf = b"Content-Length: 3x\r\n\r\nabc";
    assert_eq!(decode_frame(buf, false), Decoded::Failed(FrameError::MalformedHeader));
}

#[test]
fn decode_length_beyond_usize_fails() {
    let buf = b"Content-Length: 99999999999999999999999999\r\n\r\nabc";
    assert_eq!(decode_frame(buf, false), Decoded::Failed(FrameError::MalformedHeader));
}

#[test]
fn decode_short_payload_at_close_is_truncated() {
    let buf = b"Content-Length: 10\r\n\r\nabc";
    assert_eq!(decode_frame(buf, true), Decoded::Failed(FrameError::Truncated));
}

#[test]
fn decode_short_payload_while_open_needs_more() {
    let buf = b"Content-Length: 10\r\n\r\nabc";
    assert_eq!(decode_frame(buf, false), Decoded::NeedMore);
}

#[test]
fn decode_partial_header_at_close_is_truncated() {
    assert_eq!(decode_frame(b"Content-Len", true), Decoded::Failed(FrameError::Truncated));
    assert_eq!(decode_frame(b"Content-Len", false), Decoded::NeedMore);
}

#[test]
fn decode_empty_stream_at_close_ends() {
    assert_eq!(decode_frame(b"", true), Decoded::EndOfStream);
    assert_eq!(decode_frame(b"", false), Decoded::NeedMore);
}

#[test]
fn decode_last_length_header_wins() {
    let buf = b"Content-Length: 1\r\nContent-Length: 2\r\n\r\nab";
    assert_eq!(
        decode_frame(buf, false),
        Decoded::Frame { payload: b"ab".to_vec(), consumed: buf.len() }
    );
}

#[test]
fn frame_buffer_yields_frames_in_order() {
    let mut buffer = FrameBuffer::new();
    let mut bytes = encode_frame(b"one");
    bytes.extend(encode_frame(b"second"));
    buffer.extend(&bytes[..10]);
    assert_eq!(buffer.next_frame(false), Decoded::NeedMore);
    buffer.extend(&bytes[10..]);
    match buffer.next_frame(false) {
        Decoded::Frame { payload, .. } => assert_eq!(payload, b"one".to_vec()),
        other => panic!("unexpected {:?}", other),
    }
    match buffer.next_frame(false) {
        Decoded::Frame { payload, .. } => assert_eq!(payload, b"second".to_vec()),
        other => panic!("unexpected {:?}", other),
    }
    assert_eq!(buffer.next_frame(true), Decoded::EndOfStream);
}
