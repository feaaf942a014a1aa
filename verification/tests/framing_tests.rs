use copilot_sdk::framing::{frame_message, length_header_bytes, parse_header_line, HeaderBlock, HeaderLine, HeaderStep};
use serde_json::Value;

/// Reads one framed message from `bytes` starting at `*pos`, line by line
/// through the header block, then the body of the length it gave.
fn read_frame(bytes: &[u8], pos: &mut usize) -> Result<String, HeaderStep> {
    let mut block = HeaderBlock::new();
    loop {
        let start = *pos;
        let mut end = start;
        while end < bytes.len() && bytes[end] != b'\n' {
            end += 1;
        }
        let stop = if end < bytes.len() { end + 1 } else { end };
        *pos = stop;
        match block.feed(&bytes[start..stop]) {
            HeaderStep::More => {}
            HeaderStep::Body(len) => {
                let body = bytes[*pos..*pos + len].to_vec();
                *pos += len;
                return Ok(String::from_utf8(body).unwrap());
            }
            other => return Err(other),
        }
    }
}

fn message(id: Option<i64>, method: &str, data: String) -> String {
    let mut params = serde_json::Map::new();
    params.insert("data".to_string(), Value::String(data));
    let mut msg = serde_json::Map::new();
    msg.insert("jsonrpc".to_string(), Value::String("2.0".to_string()));
    if let Some(id) = id {
        msg.insert("id".to_string(), Value::from(id));
    }
    msg.insert("method".to_string(), Value::String(method.to_string()));
    msg.insert("params".to_string(), Value::Object(params));
    serde_json::to_string(&Value::Object(msg)).unwrap()
}

#[test]
fn test_large_payload_64kb_boundary() {
    let large_data = "x".repeat(65536 - 50);
    let msg_str = message(None, "test", large_data);
    let written = frame_message(&msg_str);
    let mut pos = 0;
    let read_back = read_frame(&written, &mut pos).unwrap();
    assert_eq!(msg_str, read_back);
}

#[test]
fn test_large_payload_100kb() {
    let large_data = "y".repeat(100_000);
    let msg_str = message(None, "test", large_data);
    let written = frame_message(&msg_str);
    let mut pos = 0;
    let read_back = read_frame(&written, &mut pos).unwrap();
    assert_eq!(msg_str, read_back);
}

#[test]
fn test_multiple_large_messages_sequential() {
    let msg1_str = message(Some(1), "test1", "a".repeat(50_000));
    let msg2_str = message(Some(2), "test2", "b".repeat(80_000));
    let mut written = frame_message(&msg1_str);
    written.extend(frame_message(&msg2_str));
    let mut pos = 0;
    let read1 = read_frame(&written, &mut pos).unwrap();
    let read2 = read_frame(&written, &mut pos).unwrap();
    assert_eq!(msg1_str, read1);
    assert_eq!(msg2_str, read2);
    assert_eq!(pos, written.len());
}

#[test]
fn length_header_is_exact() {
    assert_eq!(length_header_bytes(42), b"Content-Length: 42\r\n\r\n".to_vec());
    assert_eq!(length_header_bytes(0), b"Content-Length: 0\r\n\r\n".to_vec());
    assert_eq!(length_header_bytes(1_000_000), b"Content-Length: 1000000\r\n\r\n".to_vec());
}

#[test]
fn frame_is_header_then_body() {
    assert_eq!(frame_message("hi"), b"Content-Length: 2\r\n\r\nhi".to_vec());
    assert_eq!(frame_message(""), b"Content-Length: 0\r\n\r\n".to_vec());
    // the length counts bytes, not characters
    assert_eq!(frame_message("é"), "Content-Length: 2\r\n\r\né".as_bytes().to_vec());
}

#[test]
fn header_lines_are_classified() {
    assert_eq!(parse_header_line(b"Content-Length: 42\r\n"), HeaderLine::ContentLength(42));
    assert_eq!(parse_header_line(b"Content-Length:7"), HeaderLine::ContentLength(7));
    assert_eq!(parse_header_line(b"Content-Length: \t 7 \t\n"), HeaderLine::ContentLength(7));
    assert_eq!(parse_header_line(b"\r\n"), HeaderLine::End);
    assert_eq!(parse_header_line(b"\n"), HeaderLine::End);
    assert_eq!(parse_header_line(b""), HeaderLine::End);
    assert_eq!(parse_header_line(b"Content-Type: application/json\r\n"), HeaderLine::Other);
    assert_eq!(parse_header_line(b"Content-Len\r\n"), HeaderLine::Other);
    assert_eq!(parse_header_line(b"content-length: 42\r\n"), HeaderLine::Other);
    assert_eq!(parse_header_line(b"Content-Length: abc\r\n"), HeaderLine::Malformed);
    assert_eq!(parse_header_line(b"Content-Length:   \r\n"), HeaderLine::Malformed);
    assert_eq!(parse_header_line(b"Content-Length: 4 2\r\n"), HeaderLine::Malformed);
    assert_eq!(parse_header_line(b"Content-Length: -1\r\n"), HeaderLine::Malformed);
    assert_eq!(
        parse_header_line(b"Content-Length: 999999999999999999999999999\r\n"),
        HeaderLine::Malformed
    );
}

#[test]
fn header_block_steps() {
    let mut block = HeaderBlock::new();
    assert_eq!(block.feed(b"Content-Type: text\r\n"), HeaderStep::More);
    assert_eq!(block.feed(b"\r\n"), HeaderStep::MissingLength);

    let mut block = HeaderBlock::new();
    assert_eq!(block.feed(b"Content-Length: 5\r\n"), HeaderStep::More);
    assert_eq!(block.feed(b"Content-Length: 9\r\n"), HeaderStep::More);
    assert_eq!(block.feed(b"\r\n"), HeaderStep::Body(9));

    let mut block = HeaderBlock::new();
    assert_eq!(block.feed(b"Content-Length: x\r\n"), HeaderStep::BadLength);
}

#[test]
fn truncated_stream_has_no_length() {
    let mut pos = 0;
    assert_eq!(read_frame(b"\r\n", &mut pos), Err(HeaderStep::MissingLength));
}
