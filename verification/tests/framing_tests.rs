use lsp_gateway::framing::{encode_frame, FrameDecoder};
use lsp_gateway::link::{ProcessLink, LinkEvent, frame_text};
use lsp_gateway::json::JsonValue;

#[test]
fn encode_frame_exact_bytes() {
    let frame = encode_frame(b"hello");
    assert_eq!(frame, b"Content-Length: 5\r\n\r\nhello".to_vec());
}

#[test]
fn encode_frame_multi_digit_length() {
    let payload = b"0123456789abcdef";
    let frame = encode_frame(payload);
    assert_eq!(frame, b"Content-Length: 16\r\n\r\n0123456789abcdef".to_vec());
}

#[test]
fn decoder_round_trips_one_frame() {
    let mut dec = FrameDecoder::new();
    dec.push_bytes(&encode_frame(b"{\"x\":1}"));
    let got = dec.next_frame();
    assert_eq!(got, Some(b"{\"x\":1}".to_vec()));
    assert_eq!(dec.next_frame(), None);
}

#[test]
fn decoder_waits_for_missing_bytes() {
    let mut dec = FrameDecoder::new();
    let frame = encode_frame(b"abcdef");
    dec.push_bytes(&frame[..frame.len() - 3]);
    assert_eq!(dec.next_frame(), None);
    dec.push_bytes(&frame[frame.len() - 3..]);
    assert_eq!(dec.next_frame(), Some(b"abcdef".to_vec()));
}

#[test]
fn decoder_handles_two_frames_back_to_back() {
    let mut dec = FrameDecoder::new();
    let mut bytes = encode_frame(b"one");
    bytes.extend_from_slice(&encode_frame(b"three"));
    dec.push_bytes(&bytes);
    assert_eq!(dec.next_frame(), Some(b"one".to_vec()));
    assert_eq!(dec.next_frame(), Some(b"three".to_vec()));
    assert_eq!(dec.next_frame(), None);
}

#[test]
fn decoder_ignores_unknown_header_lines() {
    let mut dec = FrameDecoder::new();
    dec.push_bytes(b"X-Other: junk\r\nContent-Length: 2\r\n\r\nok");
    assert_eq!(dec.next_frame(), Some(b"ok".to_vec()));
}

#[test]
fn decoder_skips_blank_line_without_header() {
    let mut dec = FrameDecoder::new();
    dec.push_bytes(b"\r\nContent-Length: 2\r\n\r\nhi");
    assert_eq!(dec.next_frame(), Some(b"hi".to_vec()));
}

#[test]
fn decoder_trims_header_value_blanks() {
    let mut dec = FrameDecoder::new();
    dec.push_bytes(b"Content-Length:   4  \r\n\r\nabcd");
    assert_eq!(dec.next_frame(), Some(b"abcd".to_vec()));
}

#[test]
fn frame_text_wraps_serialized_text() {
    let frame = frame_text("{\"a\":1}");
    assert_eq!(frame, b"Content-Length: 7\r\n\r\n{\"a\":1}".to_vec());
}

#[test]
fn link_classifies_notification_and_response() {
    let mut link = ProcessLink::new();
    let env = link.next_request(
        "textDocument/hover".to_string(),
        None,
        JsonValue::Int(42),
    );
    // The envelope carries the link's own id 1.
    match env.get("id") {
        Some(JsonValue::Int(i)) => assert_eq!(*i, 1),
        other => panic!("unexpected id {:?}", other),
    }
    // A notification payload (method, no id).
    let note = JsonValue::Obj(vec![
        ("method".to_string(), JsonValue::Str("x".to_string())),
    ]);
    match link.on_payload(note) {
        LinkEvent::Notification { .. } => {}
        _ => panic!("expected notification"),
    }
    // A response payload bearing the request's id resolves the waiter.
    let resp = JsonValue::Obj(vec![
        ("id".to_string(), JsonValue::Int(1)),
        ("result".to_string(), JsonValue::Null),
    ]);
    match link.on_payload(resp) {
        LinkEvent::Response { entry, .. } => {
            assert_eq!(entry.client_id, JsonValue::Int(42));
            assert_eq!(entry.method, "textDocument/hover".to_string());
        }
        _ => panic!("expected response"),
    }
    // The same id again no longer matches anything.
    let resp2 = JsonValue::Obj(vec![
        ("id".to_string(), JsonValue::Int(1)),
        ("result".to_string(), JsonValue::Null),
    ]);
    match link.on_payload(resp2) {
        LinkEvent::Ignored => {}
        _ => panic!("expected ignored"),
    }
}

#[test]
fn link_on_bytes_decodes_and_correlates() {
    let mut link = ProcessLink::new();
    let _req = link.next_request("m".to_string(), None, JsonValue::Int(9));
    let frame = encode_frame(b"{\"jsonrpc\":\"2.0\",\"id\":1,\"result\":null}");
    let events = link.on_bytes(&frame);
    assert_eq!(events.len(), 1);
    match &events[0] {
        LinkEvent::Response { entry, .. } => assert_eq!(entry.client_id, JsonValue::Int(9)),
        _ => panic!("expected response event"),
    }
}

#[test]
fn link_on_eof_fails_all_pending() {
    let mut link = ProcessLink::new();
    let _a = link.next_request("a".to_string(), None, JsonValue::Int(1));
    let _b = link.next_request("b".to_string(), None, JsonValue::Int(2));
    let failed = link.on_eof();
    assert_eq!(failed.len(), 2);
    assert!(!link.is_alive());
}

#[test]
fn frame_message_serializes_and_frames() {
    let env = JsonValue::Obj(vec![("a".to_string(), JsonValue::Int(1))]);
    let frame = lsp_gateway::link::frame_message(&env);
    assert_eq!(frame, b"Content-Length: 7\r\n\r\n{\"a\":1}".to_vec());
}

#[test]
fn request_ids_increase_strictly() {
    let mut link = ProcessLink::new();
    for expected in 1..=4i64 {
        let env = link.next_request("m".to_string(), None, JsonValue::Null);
        assert_eq!(env.get("id"), Some(&JsonValue::Int(expected)));
    }
}

#[test]
fn non_integer_numbers_pass_through_unchanged() {
    // A fractional number anywhere in a forwarded payload survives the
    // round trip through the gateway's model as its literal text.
    let env = JsonValue::Obj(vec![(
        "version".to_string(),
        JsonValue::Num("1.5".to_string()),
    )]);
    let frame = lsp_gateway::link::frame_message(&env);
    assert_eq!(frame, b"Content-Length: 15\r\n\r\n{\"version\":1.5}".to_vec());
}
