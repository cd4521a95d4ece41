use mcp_auth_proxy::mcp_logging::{
    format_payload, is_loggable, log_notification_ack, log_request, log_response,
    log_streaming_response, truncate, Direction,
};

#[test]
fn short_texts_stay() {
    assert_eq!(truncate("abc".to_string()), "abc");
    let exact = "x".repeat(16384);
    assert_eq!(truncate(exact.clone()), exact);
}

#[test]
fn long_texts_are_cut() {
    let cut = truncate("x".repeat(16384 + 123));
    assert_eq!(cut, format!("{}\n... <truncated 123 chars>", "x".repeat(16384)));
}

#[test]
fn payloads() {
    assert_eq!(format_payload(b""), "<empty>");
    assert_eq!(format_payload(b"{\"a\":1}"), "{\n  \"a\": 1\n}");
    assert_eq!(format_payload(b"not json"), "not json");
    assert_eq!(format_payload(&[b'a', 0xff, b'b']), "a\u{fffd}b");
}

#[test]
fn a_cut_through_a_character_is_not_made() {
    let mut bytes = vec![b'x'; 16383];
    bytes.extend_from_slice("é and more".as_bytes());
    assert!(!is_loggable(&bytes));
    assert!(log_request("u", "http", &bytes).is_none());
    assert!(log_response("u", "http", None, &bytes).is_none());
}

#[test]
fn records() {
    let r = log_request("up", "stdio", b"x").unwrap();
    assert_eq!(r.upstream, "up");
    assert_eq!(r.transport, "stdio");
    assert_eq!(r.direction, Direction::Request);
    assert_eq!(r.status, None);
    assert_eq!(r.payload, "x");
    let r = log_response("up", "http", Some(200), b"").unwrap();
    assert_eq!(r.direction, Direction::Response);
    assert_eq!(r.status, Some(200));
    assert_eq!(r.payload, "<empty>");
    let r = log_streaming_response("up", "http", 200, None);
    assert_eq!(r.content_type.as_deref(), Some("unknown"));
    assert_eq!(r.payload, "<streaming response body not captured>");
    let r = log_streaming_response("up", "http", 201, Some("text/event-stream"));
    assert_eq!(r.content_type.as_deref(), Some("text/event-stream"));
    assert_eq!(r.status, Some(201));
    let r = log_notification_ack("up", "stdio");
    assert_eq!(r.payload, "<notification forwarded; no response expected>");
    assert_eq!(r.status, None);
}
