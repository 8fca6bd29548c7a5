use hive_node::messages::headers::Header;
use hive_node::messages::proxy_message::ProxyMessage;
use hive_node::protocol::network_util::{
    end_of_body, make_ollama_request, send_err_influx_with_req, send_success_influx_with_req,
    stream_body, stream_response_to_proxy, write_http_headers, write_http_status_line, Relay,
    RelayAction, RelayEnd, RelayError, RelayEvent, RelayOutcome, RelayPhase, TelemetryRecord,
    REQUEST_TIMEOUT_SECS,
};

fn header(name: &str, value: &str) -> Header {
    Header { name: name.to_string(), value: value.to_string() }
}

fn tags(r: &TelemetryRecord) -> Vec<(String, String)> {
    r.tags.iter().map(|t| (t.key.clone(), t.value.clone())).collect()
}

fn pair(k: &str, v: &str) -> (String, String) {
    (k.to_string(), v.to_string())
}

fn response(code: u16, reason: Option<&str>, headers: Vec<Header>) -> RelayEvent {
    RelayEvent::Response { code, reason: reason.map(|r| r.to_string()), headers, unreadable: None }
}

fn asked(m: &ProxyMessage) -> Relay {
    let mut relay = Relay::new("http://127.0.0.1:11434".to_string());
    assert_eq!(relay.phase(), RelayPhase::Idle);
    assert!(matches!(stream_response_to_proxy(&mut relay, m, RelayEvent::Begin), RelayAction::AcquireReader));
    assert!(!relay.holds_reader());
    match stream_response_to_proxy(&mut relay, m, RelayEvent::ReaderAcquired) {
        RelayAction::AskBackend(request) => assert_eq!(request.url, format!("http://127.0.0.1:11434{}", m.uri)),
        other => panic!("expected a request, got {:?}", other),
    }
    assert!(relay.holds_reader());
    assert_eq!(relay.phase(), RelayPhase::AwaitingResponse);
    relay
}

fn finished(action: RelayAction) -> RelayEnd {
    match action {
        RelayAction::Finish { release_reader, end } => {
            assert!(release_reader);
            end
        }
        other => panic!("expected the end, got {:?}", other),
    }
}

fn written(action: RelayAction) -> Vec<u8> {
    match action {
        RelayAction::Write(bytes) => bytes,
        other => panic!("expected a write, got {:?}", other),
    }
}

#[test]
fn control_frames_are_never_relayed() {
    let m = ProxyMessage::from("PONG / HIVE".to_string());
    assert_eq!(make_ollama_request(&m, "http://127.0.0.1:11434").err(), Some(RelayError::HiveProtocol));
}

#[test]
fn invalid_method_is_refused() {
    let m = ProxyMessage::from("G(T /x HTTP/1.1".to_string());
    assert_eq!(make_ollama_request(&m, "http://127.0.0.1:11434").err(), Some(RelayError::InvalidMethod));
    let m = ProxyMessage::from("".to_string());
    assert_eq!(make_ollama_request(&m, "http://127.0.0.1:11434").err(), Some(RelayError::InvalidMethod));
}

#[test]
fn request_strips_host_and_content_length() {
    let m = ProxyMessage::from(
        "POST /api/generate HTTP/1.1\r\nHost: hub\r\nAccept: */*\r\ncontent-LENGTH: 12\r\nX-Trace: abc\r\n\r\n{\"a\":1}".to_string(),
    );
    let r = make_ollama_request(&m, "http://127.0.0.1:11434").unwrap();
    assert_eq!(r.method, "POST");
    assert_eq!(r.url, "http://127.0.0.1:11434/api/generate");
    let got: Vec<(&str, &str)> = r.headers.iter().map(|h| (h.name.as_str(), h.value.as_str())).collect();
    assert_eq!(got, vec![("Accept", "*/*"), ("X-Trace", "abc")]);
    assert_eq!(r.body, Some("{\"a\":1}".to_string()));
    assert_eq!(r.timeout_secs, 1800);
    assert_eq!(REQUEST_TIMEOUT_SECS, 30 * 60);
}

#[test]
fn request_skips_fields_that_are_no_header_fields() {
    let m = ProxyMessage::from("GET /x HTTP/1.1\r\nBad Name: v\r\nGood: ok\r\nCtl: a\u{1}b\r\n\r\n".to_string());
    let r = make_ollama_request(&m, "http://b").unwrap();
    let got: Vec<&str> = r.headers.iter().map(|h| h.name.as_str()).collect();
    assert_eq!(got, vec!["Good"]);
    assert_eq!(r.body, None);
}

#[test]
fn status_line_bytes() {
    assert_eq!(write_http_status_line(200, Some("OK")), b"HTTP/1.1 200 OK\r\n".to_vec());
    assert_eq!(write_http_status_line(404, Some("Not Found")), b"HTTP/1.1 404 Not Found\r\n".to_vec());
    assert_eq!(write_http_status_line(599, None), b"HTTP/1.1 599 \r\n".to_vec());
}

#[test]
fn header_block_replaces_transfer_encoding() {
    let headers = vec![
        header("content-type", "application/x-ndjson"),
        header("Transfer-Encoding", "chunked"),
        header("date", "Mon, 01 Jan 2024 00:00:00 GMT"),
        header("transfer-encoding", "gzip"),
    ];
    assert_eq!(
        write_http_headers(&headers),
        b"content-type: application/x-ndjson\r\ndate: Mon, 01 Jan 2024 00:00:00 GMT\r\nTransfer-Encoding: chunked\r\nConnection: close\r\n\r\n".to_vec()
    );
    assert_eq!(write_http_headers(&vec![]), b"Transfer-Encoding: chunked\r\nConnection: close\r\n\r\n".to_vec());
}

#[test]
fn chunks_are_size_prefixed_in_capital_hex() {
    assert_eq!(stream_body(&b"hello\n".to_vec()), b"6\r\nhello\n\r\n".to_vec());
    let data = vec![b'x'; 26];
    let mut expected = b"1A\r\n".to_vec();
    expected.extend_from_slice(&data);
    expected.extend_from_slice(b"\r\n");
    assert_eq!(stream_body(&data), expected);
    let big = vec![0u8; 0xABC];
    assert_eq!(stream_body(&big)[..5], b"ABC\r\n"[..]);
    assert_eq!(end_of_body(), b"0\r\n\r\n".to_vec());
}

#[test]
fn success_record_names_model_and_status() {
    let mut m = ProxyMessage::from("POST /api/generate HTTP/1.1".to_string());
    m.body = "{\"model\":\"phi3\"}".to_string();
    let r = send_success_influx_with_req(&m, b"HTTP/1.1 200 OK\r\nx\n".to_vec(), 200);
    assert_eq!(r.measurement, "ollama");
    assert_eq!(
        tags(&r),
        vec![pair("model", "phi3"), pair("protocol", "HTTP/1.1"), pair("method", "POST"), pair("uri", "/api/generate"), pair("status", "success"), pair("code", "200")]
    );
    assert_eq!(r.field_name, "worker_success_message");
    assert_eq!(r.field_value, "HTTP/1.1 200 OK  x ");
}

#[test]
fn success_record_without_model_says_none() {
    let m = ProxyMessage::new_http_get("/api/tags");
    let r = send_success_influx_with_req(&m, vec![0xFF, 0xFE], 204);
    assert_eq!(tags(&r)[0], pair("model", "None"));
    assert_eq!(tags(&r)[5], pair("code", "204"));
    assert_eq!(r.field_value, "Invalid UTF-8");
}

#[test]
fn error_record_carries_what_was_written() {
    let m = ProxyMessage::new_http_get("/api/tags");
    let r = send_err_influx_with_req(&m, b"HTTP/1.1 200 OK\r\n".to_vec(), "boom".to_string());
    assert_eq!(r.measurement, "ollama");
    assert_eq!(
        tags(&r),
        vec![pair("protocol", "HTTP/1.1"), pair("method", "GET"), pair("uri", "/api/tags"), pair("status", "error"), pair("response", "HTTP/1.1 200 OK  "), pair("code", "500")]
    );
    assert_eq!(r.field_name, "worker_error_message");
    assert_eq!(r.field_value, "boom");
}

#[test]
fn relay_streams_head_chunks_and_terminator() {
    let mut m = ProxyMessage::from("POST /api/pull HTTP/1.1".to_string());
    m.body = "{\"model\":\"phi3\"}".to_string();
    let mut relay = asked(&m);
    let mut hub: Vec<u8> = Vec::new();
    let answer = response(200, Some("OK"), vec![header("content-type", "application/json")]);
    hub.extend(written(stream_response_to_proxy(&mut relay, &m, answer)));
    assert_eq!(hub, b"HTTP/1.1 200 OK\r\n".to_vec());
    hub.extend(written(stream_response_to_proxy(&mut relay, &m, RelayEvent::Written)));
    assert!(matches!(stream_response_to_proxy(&mut relay, &m, RelayEvent::Written), RelayAction::ReadMore));
    hub.extend(written(stream_response_to_proxy(&mut relay, &m, RelayEvent::Data(b"{\"a\":1}\nta".to_vec()))));
    assert!(matches!(stream_response_to_proxy(&mut relay, &m, RelayEvent::Written), RelayAction::ReadMore));
    assert!(matches!(stream_response_to_proxy(&mut relay, &m, RelayEvent::Data(b"il".to_vec())), RelayAction::ReadMore));
    hub.extend(written(stream_response_to_proxy(&mut relay, &m, RelayEvent::EndOfBody)));
    let expected = b"HTTP/1.1 200 OK\r\ncontent-type: application/json\r\nTransfer-Encoding: chunked\r\nConnection: close\r\n\r\n8\r\n{\"a\":1}\n\r\n4\r\ntail\r\n0\r\n\r\n".to_vec();
    assert_eq!(hub, expected);
    let end = finished(stream_response_to_proxy(&mut relay, &m, RelayEvent::Written));
    assert_eq!(end.outcome(), RelayOutcome::Completed { refresh: true });
    match end {
        RelayEnd::Completed { record, refresh } => {
            assert!(refresh);
            assert_eq!(tags(&record)[0], pair("model", "phi3"));
            assert_eq!(tags(&record)[5], pair("code", "200"));
            let mirrored = String::from_utf8(expected).unwrap().replace('\r', " ").replace('\n', " ");
            assert_eq!(record.field_value, mirrored);
        }
        other => panic!("expected the end, got {:?}", other),
    }
    assert_eq!(relay.phase(), RelayPhase::Finished);
    assert!(!relay.holds_reader());
}

fn streamed_body(blocks: &[&[u8]]) -> Vec<u8> {
    let m = ProxyMessage::new_http_get("/api/generate");
    let mut relay = asked(&m);
    stream_response_to_proxy(&mut relay, &m, response(200, Some("OK"), vec![]));
    stream_response_to_proxy(&mut relay, &m, RelayEvent::Written);
    stream_response_to_proxy(&mut relay, &m, RelayEvent::Written);
    let mut out = Vec::new();
    for block in blocks {
        if let RelayAction::Write(bytes) = stream_response_to_proxy(&mut relay, &m, RelayEvent::Data(block.to_vec())) {
            out.extend(bytes);
            assert!(matches!(stream_response_to_proxy(&mut relay, &m, RelayEvent::Written), RelayAction::ReadMore));
        }
    }
    out.extend(written(stream_response_to_proxy(&mut relay, &m, RelayEvent::EndOfBody)));
    out
}

fn read_chunked(mut stream: &[u8]) -> Vec<u8> {
    let mut body = Vec::new();
    loop {
        let at = stream.iter().position(|b| *b == b'\r').unwrap();
        let size = usize::from_str_radix(std::str::from_utf8(&stream[..at]).unwrap(), 16).unwrap();
        assert_eq!(stream[at + 1], b'\n');
        stream = &stream[at + 2..];
        body.extend_from_slice(&stream[..size]);
        assert_eq!(stream[size..size + 2], b"\r\n"[..]);
        stream = &stream[size + 2..];
        if size == 0 {
            assert!(stream.is_empty());
            return body;
        }
    }
}

#[test]
fn chunked_stream_holds_the_body() {
    let body: Vec<u8> = (0..2000u32).map(|i| if i % 37 == 0 { b'\n' } else { (i % 251) as u8 }).map(|b| if b == b'\r' { b'x' } else { b }).collect();
    let blocks: Vec<&[u8]> = body.chunks(113).collect();
    assert_eq!(read_chunked(&streamed_body(&blocks)), body);
    assert_eq!(read_chunked(&streamed_body(&[])), Vec::<u8>::new());
    assert_eq!(read_chunked(&streamed_body(&[b"\r\n\r\n", b"0\r\n\r\n"])), b"\r\n\r\n0\r\n\r\n".to_vec());
}

#[test]
fn each_line_becomes_one_chunk() {
    assert_eq!(streamed_body(&[b"a\nbc\n\nd"]), b"2\r\na\n\r\n3\r\nbc\n\r\n1\r\n\n\r\n1\r\nd\r\n0\r\n\r\n".to_vec());
    assert_eq!(streamed_body(&[]), b"0\r\n\r\n".to_vec());
    assert_eq!(streamed_body(&[b"x\n"]), b"2\r\nx\n\r\n0\r\n\r\n".to_vec());
}

#[test]
fn chunks_do_not_depend_on_read_blocks() {
    let whole = streamed_body(&[b"first line\nsecond\nthird without end"]);
    assert_eq!(streamed_body(&[b"first ", b"line\nsec", b"ond\n", b"third without", b" end"]), whole);
    assert_eq!(streamed_body(&[b"f", b"irst line\nsecond\nthird without end", b""]), whole);
    let bytes = b"first line\nsecond\nthird without end";
    let single: Vec<&[u8]> = bytes.chunks(1).collect();
    assert_eq!(streamed_body(&single), whole);
}

#[test]
fn relay_of_tags_does_not_signal_refresh() {
    let m = ProxyMessage::new_http_get("/api/tags");
    let mut relay = asked(&m);
    stream_response_to_proxy(&mut relay, &m, response(200, Some("OK"), vec![]));
    stream_response_to_proxy(&mut relay, &m, RelayEvent::Written);
    stream_response_to_proxy(&mut relay, &m, RelayEvent::Written);
    assert!(matches!(stream_response_to_proxy(&mut relay, &m, RelayEvent::Data(Vec::new())), RelayAction::ReadMore));
    assert_eq!(written(stream_response_to_proxy(&mut relay, &m, RelayEvent::EndOfBody)), b"0\r\n\r\n".to_vec());
    let end = finished(stream_response_to_proxy(&mut relay, &m, RelayEvent::Written));
    assert_eq!(end.outcome(), RelayOutcome::Completed { refresh: false });
}

#[test]
fn failed_write_ends_relay_with_error_record() {
    let m = ProxyMessage::new_http_get("/api/tags");
    let mut relay = asked(&m);
    stream_response_to_proxy(&mut relay, &m, response(200, Some("OK"), vec![]));
    stream_response_to_proxy(&mut relay, &m, RelayEvent::Written);
    match finished(stream_response_to_proxy(&mut relay, &m, RelayEvent::WriteFailed("broken pipe".to_string()))) {
        RelayEnd::Broken { report, hub_failed } => {
            assert!(hub_failed);
            assert_eq!(report.field_value, "Error streaming headers to HiveCore: broken pipe");
            assert_eq!(tags(&report)[4], pair("response", "HTTP/1.1 200 OK  "));
        }
        other => panic!("expected an error record, got {:?}", other),
    }
    assert_eq!(relay.phase(), RelayPhase::Finished);
    assert!(!relay.holds_reader());
}

#[test]
fn failures_name_what_was_streamed() {
    let m = ProxyMessage::new_http_get("/api/tags");
    let mut relay = asked(&m);
    stream_response_to_proxy(&mut relay, &m, response(500, None, vec![]));
    let end = finished(stream_response_to_proxy(&mut relay, &m, RelayEvent::WriteFailed("x".to_string())));
    assert_eq!(end.outcome(), RelayOutcome::HubFailed);
    match end {
        RelayEnd::Broken { report, .. } => {
            assert_eq!(report.field_value, "Error streaming status line to HiveCore: x");
            assert_eq!(tags(&report)[4], pair("response", ""));
        }
        other => panic!("expected an error record, got {:?}", other),
    }
    let mut relay = asked(&m);
    stream_response_to_proxy(&mut relay, &m, response(200, Some("OK"), vec![]));
    stream_response_to_proxy(&mut relay, &m, RelayEvent::Written);
    stream_response_to_proxy(&mut relay, &m, RelayEvent::Written);
    let end = finished(stream_response_to_proxy(&mut relay, &m, RelayEvent::ReadFailed("reset".to_string())));
    assert_eq!(end.outcome(), RelayOutcome::BackendFailed);
    match end {
        RelayEnd::Broken { report, hub_failed } => {
            assert!(!hub_failed);
            assert_eq!(report.field_value, "Error streaming body to HiveCore: reset");
        }
        other => panic!("expected an error record, got {:?}", other),
    }
}

#[test]
fn header_that_is_no_text_breaks_relay_behind_status_line() {
    let m = ProxyMessage::new_http_get("/api/tags");
    let mut relay = asked(&m);
    let answer = RelayEvent::Response { code: 200, reason: Some("OK".to_string()), headers: vec![], unreadable: Some("not visible ASCII".to_string()) };
    assert_eq!(written(stream_response_to_proxy(&mut relay, &m, answer)), b"HTTP/1.1 200 OK\r\n".to_vec());
    match finished(stream_response_to_proxy(&mut relay, &m, RelayEvent::Written)) {
        RelayEnd::Broken { report, hub_failed } => {
            assert!(!hub_failed);
            assert_eq!(report.field_value, "Error streaming headers to HiveCore: not visible ASCII");
            assert_eq!(tags(&report)[4], pair("response", "HTTP/1.1 200 OK  "));
        }
        other => panic!("expected an error record, got {:?}", other),
    }
}

#[test]
fn control_frame_and_bad_method_end_relay_before_backend_is_asked() {
    for text in ["PONG / HIVE", "G(T /x HTTP/1.1"] {
        let m = ProxyMessage::from(text.to_string());
        let mut relay = Relay::new("http://b".to_string());
        stream_response_to_proxy(&mut relay, &m, RelayEvent::Begin);
        match stream_response_to_proxy(&mut relay, &m, RelayEvent::ReaderAcquired) {
            RelayAction::Finish { release_reader, end } => {
                assert!(release_reader);
                assert!(matches!(end, RelayEnd::Dropped));
                assert_eq!(end.outcome(), RelayOutcome::BackendFailed);
            }
            other => panic!("expected the end, got {:?}", other),
        }
        assert!(!relay.holds_reader());
    }
}

#[test]
fn unreachable_backend_ends_relay_without_record() {
    let m = ProxyMessage::new_http_get("/api/tags");
    let mut relay = asked(&m);
    assert!(matches!(
        stream_response_to_proxy(&mut relay, &m, RelayEvent::RequestFailed),
        RelayAction::Finish { release_reader: true, end: RelayEnd::Dropped }
    ));
    assert!(matches!(
        stream_response_to_proxy(&mut relay, &m, RelayEvent::Written),
        RelayAction::Finish { release_reader: false, end: RelayEnd::Dropped }
    ));
}

#[test]
fn reader_that_comes_out_of_turn_is_given_back() {
    let m = ProxyMessage::new_http_get("/api/tags");
    let mut relay = Relay::new("http://b".to_string());
    assert!(matches!(
        stream_response_to_proxy(&mut relay, &m, RelayEvent::ReaderAcquired),
        RelayAction::Finish { release_reader: true, end: RelayEnd::Dropped }
    ));
    assert!(!relay.holds_reader());
}

fn is_token(b: u8) -> bool {
    b.is_ascii_alphanumeric() || b"!#$%&'*+-.^_`|~".contains(&b)
}

fn kept_names(m: &ProxyMessage) -> Vec<String> {
    make_ollama_request(m, "http://b").unwrap().headers.iter().map(|h| h.name.clone()).collect()
}

#[test]
fn header_names_are_tokens_of_one_to_65535_bytes() {
    for b in 0u8..128 {
        let name = (b as char).to_string();
        let mut m = ProxyMessage::new_http_get("/x");
        m.headers.insert(name.clone(), "v".to_string());
        let expected: Vec<String> = if is_token(b) { vec![name] } else { vec![] };
        assert_eq!(kept_names(&m), expected, "byte {}", b);
    }
    let mut m = ProxyMessage::new_http_get("/x");
    m.headers.insert(String::new(), "v".to_string());
    m.headers.insert("x-\u{e9}".to_string(), "v".to_string());
    m.headers.insert("a".repeat(65536), "v".to_string());
    m.headers.insert("b".repeat(65535), "v".to_string());
    m.headers.insert("X-Mixed_Case.1".to_string(), "v".to_string());
    assert_eq!(kept_names(&m), vec!["b".repeat(65535), "X-Mixed_Case.1".to_string()]);
}

#[test]
fn header_values_hold_no_control_character_but_tab() {
    for b in 0u8..128 {
        let mut m = ProxyMessage::new_http_get("/x");
        m.headers.insert("n".to_string(), format!("a{}b", b as char));
        let kept = !make_ollama_request(&m, "http://b").unwrap().headers.is_empty();
        assert_eq!(kept, (b >= 32 && b != 127) || b == 9, "byte {}", b);
    }
    let mut m = ProxyMessage::new_http_get("/x");
    m.headers.insert("empty".to_string(), String::new());
    m.headers.insert("accent".to_string(), "caf\u{e9} \u{1f600}".to_string());
    assert_eq!(kept_names(&m), vec!["empty".to_string(), "accent".to_string()]);
}

#[test]
fn methods_are_tokens_of_at_least_one_byte() {
    for b in 0u8..128 {
        let mut m = ProxyMessage::new_http_get("/x");
        m.method = format!("G{}T", b as char);
        assert_eq!(make_ollama_request(&m, "http://b").is_ok(), is_token(b), "byte {}", b);
    }
    let mut m = ProxyMessage::new_http_get("/x");
    m.method = String::new();
    assert_eq!(make_ollama_request(&m, "http://b").err(), Some(RelayError::InvalidMethod));
    m.method = "G\u{e9}T".to_string();
    assert_eq!(make_ollama_request(&m, "http://b").err(), Some(RelayError::InvalidMethod));
    m.method = "M".repeat(100);
    assert!(make_ollama_request(&m, "http://b").is_ok());
    m.method = "patch".to_string();
    assert_eq!(make_ollama_request(&m, "http://b").unwrap().method, "patch");
}
