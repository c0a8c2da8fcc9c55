use llmnop::sse::{
    build_messages_url, event_payload, find_event_boundary, next_payload, parse_sse_data, take_event,
};

#[test]
fn boundary_prefers_the_earliest_delimiter() {
    assert_eq!(find_event_boundary(b"data: a\n\ndata: b"), Some((7, 2)));
    assert_eq!(find_event_boundary(b"data: a\r\n\r\ndata: b\n\n"), Some((7, 4)));
    assert_eq!(find_event_boundary(b"x\n\ny\r\n\r\n"), Some((1, 2)));
    assert_eq!(find_event_boundary(b"data: a\n"), None);
    assert_eq!(find_event_boundary(b""), None);
}

#[test]
fn take_event_drains_one_event() {
    let mut buf = b"event: ping\ndata: {}\n\ndata: rest".to_vec();
    let ev = take_event(&mut buf).unwrap();
    assert_eq!(ev, b"event: ping\ndata: {}".to_vec());
    assert_eq!(buf, b"data: rest".to_vec());
    assert_eq!(take_event(&mut buf), None);
    assert_eq!(buf, b"data: rest".to_vec());
}

#[test]
fn data_lines_are_joined() {
    assert_eq!(parse_sse_data(b""), Ok(None));
    assert_eq!(
        parse_sse_data(b"event: message_delta\ndata: {\"a\":1}"),
        Ok(Some("{\"a\":1}".to_string()))
    );
    assert_eq!(parse_sse_data(b"data:one\r\n: comment\n\ndata:   two"), Ok(Some("one\ntwo".to_string())));
    assert_eq!(parse_sse_data(b": keep-alive\nevent: ping"), Ok(None));
    assert!(parse_sse_data(&[0x64, 0xff, 0xfe]).is_err());
}

#[test]
fn payload_drops_blank_and_done() {
    assert_eq!(event_payload("  {\"type\":\"ping\"}\n"), Some("{\"type\":\"ping\"}".to_string()));
    assert_eq!(event_payload(" [DONE] "), None);
    assert_eq!(event_payload("   "), None);
}

#[test]
fn messages_url_completion() {
    assert_eq!(build_messages_url("https://api.example.com"), Ok("https://api.example.com/v1/messages".to_string()));
    assert_eq!(build_messages_url("https://api.example.com/v1/"), Ok("https://api.example.com/v1/messages".to_string()));
    assert_eq!(
        build_messages_url("https://api.example.com/v1/messages//"),
        Ok("https://api.example.com/v1/messages".to_string())
    );
    assert!(build_messages_url("///").is_err());
    assert!(build_messages_url("").is_err());
}

#[test]
fn next_payload_skips_events_without_payload() {
    let mut buf = b": ping\n\nevent: x\n\ndata: [DONE]\n\ndata: {\"a\":1}\r\n\r\ndata: partial".to_vec();
    assert_eq!(next_payload(&mut buf), Ok(Some("{\"a\":1}".to_string())));
    assert_eq!(buf, b"data: partial".to_vec());
    assert_eq!(next_payload(&mut buf), Ok(None));
    assert_eq!(buf, b"data: partial".to_vec());
    let mut bad = b"data: \xff\n\ndata: ok\n\n".to_vec();
    assert!(next_payload(&mut bad).is_err());
    assert_eq!(bad, b"data: ok\n\n".to_vec());
}
