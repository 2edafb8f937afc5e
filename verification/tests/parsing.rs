use examplehttp::connection::{Action, Connection, Event, Phase};
use examplehttp::message::Response;
use examplehttp::reader::{ReadStep, RequestReader};
use examplehttp::request::{parse_request, ParseResult, RequestError};

fn header_lines(n: usize) -> String {
    (0..n).map(|i| format!("X-H{}: v{}\r\n", i, i)).collect()
}

#[test]
fn parses_complete_get() {
    let buf = b"GET /index.html HTTP/1.1\r\nHost: example.com\r\nAccept:  */* \r\n\r\n";
    match parse_request(buf, 10) {
        ParseResult::Complete(r) => {
            assert_eq!(r.version, 1);
            assert_eq!(r.method, "GET");
            assert_eq!(r.path, "/index.html");
            assert_eq!(r.headers.len(), 2);
            assert_eq!(r.headers[0].name, "Host");
            assert_eq!(r.headers[0].value, "example.com");
            assert_eq!(r.headers[1].name, "Accept");
            assert_eq!(r.headers[1].value, "*/*");
        }
        _ => panic!("expected a complete request"),
    }
}

#[test]
fn http_1_0_post_with_body_bytes_after_head() {
    let buf = b"POST /submit HTTP/1.0\r\nContent-Length: 3\r\n\r\nabc";
    match parse_request(buf, 10) {
        ParseResult::Complete(r) => {
            assert_eq!(r.version, 0);
            assert_eq!(r.method, "POST");
            assert_eq!(r.path, "/submit");
            assert_eq!(r.headers.len(), 1);
        }
        _ => panic!("expected a complete request"),
    }
}

#[test]
fn partial_head_keeps_slot_count() {
    match parse_request(b"GET / HTTP/1.1\r\nHost: a", 10) {
        ParseResult::Partial(n) => assert_eq!(n, 10),
        _ => panic!("expected partial"),
    }
    match parse_request(b"", 30) {
        ParseResult::Partial(n) => assert_eq!(n, 30),
        _ => panic!("expected partial"),
    }
}

#[test]
fn many_headers_grow_slots_by_ten() {
    let text = format!("GET / HTTP/1.1\r\n{}\r\n", header_lines(25));
    match parse_request(text.as_bytes(), 10) {
        ParseResult::Complete(r) => {
            assert_eq!(r.headers.len(), 25);
            assert_eq!(r.headers[24].name, "X-H24");
            assert_eq!(r.headers[24].value, "v24");
        }
        _ => panic!("expected a complete request"),
    }
    // an unfinished head with 12 header lines needs 20 slots
    let text = format!("GET / HTTP/1.1\r\n{}", header_lines(12));
    match parse_request(text.as_bytes(), 10) {
        ParseResult::Partial(n) => assert_eq!(n, 20),
        _ => panic!("expected partial"),
    }
}

#[test]
fn malformed_head_is_reported() {
    match parse_request(b"GET / HTTP/2.0\r\n\r\n", 10) {
        ParseResult::Failed(RequestError::Malformed(msg)) => assert_eq!(msg, "invalid HTTP version"),
        _ => panic!("expected a malformed head"),
    }
    match parse_request(b"G(T / HTTP/1.1\r\n\r\n", 10) {
        ParseResult::Failed(RequestError::Malformed(msg)) => assert_eq!(msg, "invalid token"),
        _ => panic!("expected a malformed head"),
    }
}

#[test]
fn non_utf8_header_value_is_reported_with_its_index() {
    let mut buf = b"GET / HTTP/1.1\r\nA: ok\r\nB: \xff\xfe\r\nC: \xc3\x28\r\n\r\n".to_vec();
    match parse_request(&buf, 10) {
        ParseResult::Failed(RequestError::HeaderValueNotUtf8(i)) => assert_eq!(i, 1),
        _ => panic!("expected a header value error"),
    }
    buf = b"GET / HTTP/1.1\r\nA: caf\xc3\xa9\r\n\r\n".to_vec();
    match parse_request(&buf, 10) {
        ParseResult::Complete(r) => assert_eq!(r.headers[0].value, "caf\u{e9}"),
        _ => panic!("expected a complete request"),
    }
}

#[test]
fn reader_accumulates_chunks() {
    let mut reader = RequestReader::new();
    assert_eq!(reader.header_slots(), 10);
    assert!(matches!(reader.receive(b"GET /a HT"), ReadStep::NeedMore));
    assert_eq!(reader.buffered_len(), 9);
    assert!(matches!(reader.receive(b""), ReadStep::NeedMore));
    assert_eq!(reader.buffered_len(), 9);
    match reader.receive(b"TP/1.1\r\nHost: h\r\n\r\n") {
        ReadStep::Done(r) => {
            assert_eq!(r.path, "/a");
            assert_eq!(r.headers[0].value, "h");
        }
        _ => panic!("expected a request"),
    }
}

#[test]
fn reader_keeps_grown_slot_count() {
    let mut reader = RequestReader::new();
    let first = format!("GET / HTTP/1.1\r\n{}", header_lines(23));
    assert!(matches!(reader.receive(first.as_bytes()), ReadStep::NeedMore));
    assert_eq!(reader.header_slots(), 30);
    assert!(matches!(reader.receive(b"\r\n"), ReadStep::Done(_)));
}

#[test]
fn reader_fails_on_garbage() {
    let mut reader = RequestReader::new();
    assert!(matches!(reader.receive(b"\x00\x01\x02 nonsense\r\n"), ReadStep::Failed(RequestError::Malformed(_))));
}

#[test]
fn connection_full_exchange() {
    let mut c = Connection::new();
    assert!(c.phase() == Phase::Reading);
    assert!(matches!(c.step(Event::Received(b"GET /x HTTP/1.1\r\n".to_vec())), Action::ReadMore));
    assert_eq!(c.buffered_len(), 17);
    match c.step(Event::Received(b"\r\n".to_vec())) {
        Action::Dispatch(r) => assert_eq!(r.path, "/x"),
        _ => panic!("expected dispatch"),
    }
    assert!(c.phase() == Phase::Handling);
    let response = Response { content_type: "text/plain".to_string(), body: "ok".to_string() };
    match c.step(Event::Responded(response)) {
        Action::Write(text) => assert_eq!(
            text,
            "HTTP/1.1 200 OK\r\nContent-Type: text/plain; charset=UTF-8\r\nContent-Length: 2\r\n\r\nok"
        ),
        _ => panic!("expected write"),
    }
    assert!(c.phase() == Phase::Writing);
    assert!(matches!(c.step(Event::Written), Action::Close));
    assert!(c.phase() == Phase::Closed);
}

#[test]
fn connection_failures_close_or_abort() {
    let mut c = Connection::new();
    assert!(matches!(c.step(Event::ReadFailed), Action::Close));
    assert!(c.phase() == Phase::Closed);

    let mut c = Connection::new();
    assert!(matches!(c.step(Event::Received(b"GET / HTTP/1.1\r\n\r\n".to_vec())), Action::Dispatch(_)));
    assert!(matches!(c.step(Event::HandlerFailed), Action::Close));

    let mut c = Connection::new();
    assert!(matches!(c.step(Event::Received(b"GET / HTTP/9.9\r\n\r\n".to_vec())), Action::Abort(RequestError::Malformed(_))));
    assert!(c.phase() == Phase::Closed);

    let mut c = Connection::new();
    assert!(matches!(c.step(Event::Written), Action::Close));
}
