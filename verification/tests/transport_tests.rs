//! Tests for the LSP transport framer.

use rust_lsp::lsp_transport::{frame_message, parse_transport_message, BufferMessageReader};
use rust_lsp::service_util::MessageReader;

#[test]
fn parse_transport_message__test() {
    let string = String::from("Content-Length: 10 \r\n\r\n1234567890abcdef");
    let input: Vec<u8> = string.into_bytes();
    assert_eq!(parse_transport_message(&input, 0).unwrap().0, "1234567890");

    let string = String::from("Content-Length: 13 \r\nBlaah-Blah\r\n\r\n1234\n567\r\n890abcdef");
    let input: Vec<u8> = string.into_bytes();
    assert_eq!(parse_transport_message(&input, 0).unwrap().0, "1234\n567\r\n890");

    // Test no-content
    let string = String::from("\r\n\r\n1234567890abcdef");
    let input: Vec<u8> = string.into_bytes();
    let err = parse_transport_message(&input, 0).unwrap_err();
    assert_eq!(format!("{}", err.message), "Content-Length: not defined or invalid.");
}

#[test]
fn framer_next_position_is_after_payload() {
    // "Content-Length: 10 \r\n\r\n" is 23 bytes; the payload is 10 more.
    let input: Vec<u8> = String::from("Content-Length: 10 \r\n\r\n1234567890abcdef").into_bytes();
    let (message, next) = parse_transport_message(&input, 0).unwrap();
    assert_eq!(message, "1234567890");
    assert_eq!(next, 33);
    assert_eq!(&input[next..], b"abcdef");
}

#[test]
fn framer_reads_consecutive_messages() {
    let input: Vec<u8> =
        String::from("Content-Length: 5\r\n\r\nfirstContent-Length: 6\r\n\r\nsecond").into_bytes();
    let (first, next) = parse_transport_message(&input, 0).unwrap();
    assert_eq!(first, "first");
    let (second, end) = parse_transport_message(&input, next).unwrap();
    assert_eq!(second, "second");
    assert_eq!(end, input.len());
}

#[test]
fn framer_ignores_header_before_content_length() {
    let input: Vec<u8> =
        String::from("X-Other: 1\r\nContent-Length: 3\r\n\r\nabcdef").into_bytes();
    let (message, _) = parse_transport_message(&input, 0).unwrap();
    assert_eq!(message, "abc");
}

#[test]
fn framer_last_content_length_wins() {
    let input: Vec<u8> =
        String::from("Content-Length: 2\r\nContent-Length: 4\r\n\r\nabcdef").into_bytes();
    let (message, _) = parse_transport_message(&input, 0).unwrap();
    assert_eq!(message, "abcd");
}

#[test]
fn framer_zero_length_is_invalid() {
    let input: Vec<u8> = String::from("Content-Length: 0\r\n\r\nabc").into_bytes();
    let err = parse_transport_message(&input, 0).unwrap_err();
    assert_eq!(err.message, "Content-Length: not defined or invalid.");
}

#[test]
fn framer_bad_digit_is_reported() {
    let input: Vec<u8> = String::from("Content-Length: 12x\r\n\r\nabc").into_bytes();
    let err = parse_transport_message(&input, 0).unwrap_err();
    assert_eq!(err.message, "invalid digit found in string");
}

#[test]
fn framer_eof_before_headers_end() {
    let input: Vec<u8> = String::from("Content-Length: 3\r\n").into_bytes();
    let err = parse_transport_message(&input, 0).unwrap_err();
    assert_eq!(err.message, "Unexpected end of input while reading headers.");
}

#[test]
fn framer_truncated_payload_is_returned_short() {
    let input: Vec<u8> = String::from("Content-Length: 10\r\n\r\nabc").into_bytes();
    let (message, next) = parse_transport_message(&input, 0).unwrap();
    assert_eq!(message, "abc");
    assert_eq!(next, input.len());
}

#[test]
fn framer_payload_keeps_embedded_bytes() {
    let mut input: Vec<u8> = String::from("Content-Length: 5\r\n\r\n").into_bytes();
    input.extend_from_slice(&[b'a', 0, b'\r', b'\n', b'b', b'z']);
    let (message, next) = parse_transport_message(&input, 0).unwrap();
    assert_eq!(message.as_bytes(), &[b'a', 0, b'\r', b'\n', b'b']);
    assert_eq!(next, input.len() - 1);
}

#[test]
fn frame_message_writes_header_and_payload() {
    assert_eq!(frame_message("hello"), "Content-Length: 5\r\n\r\nhello");
    assert_eq!(frame_message(""), "Content-Length: 0\r\n\r\n");
}

#[test]
fn frame_message_counts_utf8_bytes() {
    // A two-byte character: the header counts bytes, not characters.
    let framed = frame_message("é");
    assert_eq!(framed, "Content-Length: 2\r\n\r\né");
}

#[test]
fn frame_then_parse_round_trip() {
    let framed = frame_message("{\"jsonrpc\":\"2.0\"}");
    let input: Vec<u8> = framed.into_bytes();
    let (message, next) = parse_transport_message(&input, 0).unwrap();
    assert_eq!(message, "{\"jsonrpc\":\"2.0\"}");
    assert_eq!(next, input.len());
}

#[test]
fn buffer_message_reader_reads_in_order() {
    let input: Vec<u8> =
        String::from("Content-Length: 3\r\n\r\noneContent-Length: 3\r\n\r\ntwo").into_bytes();
    let mut reader = BufferMessageReader::new(input);
    assert_eq!(reader.read_next().unwrap(), "one");
    assert_eq!(reader.read_next().unwrap(), "two");
    assert!(reader.read_next().is_err());
}
