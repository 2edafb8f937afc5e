use examplehttp::raw::{RawHead, RawParse};
use examplehttp::reader::{ReadStep, RequestReader};
use examplehttp::request::{outcome_of_pass, parse_request, ParseResult, RequestError};

fn head_with(n: usize) -> String {
    let lines: String = (0..n).map(|i| format!("X-H{}: v{}\r\n", i, i)).collect();
    format!("GET /p HTTP/1.1\r\n{}\r\n", lines)
}

fn complete(buf: &[u8], slots: usize) -> examplehttp::message::Request {
    match parse_request(buf, slots) {
        ParseResult::Complete(r) => r,
        _ => panic!("expected a complete request"),
    }
}

fn same(a: &examplehttp::message::Request, b: &examplehttp::message::Request) {
    assert_eq!(a.version, b.version);
    assert_eq!(a.method, b.method);
    assert_eq!(a.path, b.path);
    assert_eq!(a.headers.len(), b.headers.len());
    for (x, y) in a.headers.iter().zip(b.headers.iter()) {
        assert_eq!(x.name, y.name);
        assert_eq!(x.value, y.value);
    }
}

#[test]
fn outcome_does_not_depend_on_starting_slots() {
    let text = head_with(17);
    let r10 = complete(text.as_bytes(), 10);
    for slots in [0, 3, 17, 20, 64] {
        same(&r10, &complete(text.as_bytes(), slots));
    }
    let unfinished = format!("GET / HTTP/1.1\r\n{}", "A: b\r\n".repeat(7));
    for slots in [0, 5, 10, 40] {
        assert!(matches!(parse_request(unfinished.as_bytes(), slots), ParseResult::Partial(_)));
    }
    for slots in [0, 10, 33] {
        assert!(matches!(
            parse_request(b"GET / HTTP/1.1\r\nBad Name: x\r\n\r\n", slots),
            ParseResult::Failed(RequestError::Malformed(_))
        ));
    }
}

#[test]
fn bytes_after_a_complete_head_are_ignored() {
    let head = head_with(3);
    let r = complete(head.as_bytes(), 10);
    let with_body = format!("{}some body bytes", head);
    same(&r, &complete(with_body.as_bytes(), 10));
    let pipelined = format!("{}POST /other HTTP/1.0\r\n\r\n", head);
    same(&r, &complete(pipelined.as_bytes(), 10));
}

#[test]
fn prefixes_of_a_head_are_unfinished() {
    let head = head_with(12);
    let bytes = head.as_bytes();
    for cut in 0..bytes.len() {
        assert!(matches!(parse_request(&bytes[..cut], 10), ParseResult::Partial(_)));
    }
}

fn read_in_chunks(bytes: &[u8], sizes: &[usize]) -> examplehttp::message::Request {
    let mut reader = RequestReader::new();
    let mut pos = 0;
    for &n in sizes.iter().cycle() {
        let end = (pos + n).min(bytes.len());
        match reader.receive(&bytes[pos..end]) {
            ReadStep::Done(r) => return r,
            ReadStep::NeedMore => {}
            ReadStep::Failed(_) => panic!("unexpected failure"),
        }
        pos = end;
    }
    unreachable!()
}

#[test]
fn request_does_not_depend_on_how_reads_split_the_bytes() {
    let stream = format!("{}trailing body", head_with(23));
    let bytes = stream.as_bytes();
    let whole = read_in_chunks(bytes, &[bytes.len()]);
    for sizes in [&[1usize][..], &[3, 7], &[1024], &[100, 1, 50], &[16]] {
        same(&whole, &read_in_chunks(bytes, sizes));
    }
    same(&whole, &complete(head_with(23).as_bytes(), 10));
}

#[test]
fn pass_outcomes() {
    let head = RawHead {
        method: Some("GET".to_string()),
        path: Some("/".to_string()),
        version: Some(1),
        headers: vec![("A".to_string(), b"x".to_vec())],
    };
    match outcome_of_pass(RawParse::Complete(20, head), 10) {
        Some(ParseResult::Complete(r)) => {
            assert_eq!(r.method, "GET");
            assert_eq!(r.headers[0].value, "x");
        }
        _ => panic!("expected a request"),
    }
    let bad = RawHead {
        method: Some("GET".to_string()),
        path: Some("/".to_string()),
        version: Some(1),
        headers: vec![("A".to_string(), b"x".to_vec()), ("B".to_string(), vec![0xff])],
    };
    assert!(matches!(
        outcome_of_pass(RawParse::Complete(20, bad), 10),
        Some(ParseResult::Failed(RequestError::HeaderValueNotUtf8(1)))
    ));
    assert!(matches!(outcome_of_pass(RawParse::Partial, 30), Some(ParseResult::Partial(30))));
    assert!(outcome_of_pass(RawParse::TooManyHeaders, 10).is_none());
    match outcome_of_pass(RawParse::Invalid("invalid token".to_string()), 10) {
        Some(ParseResult::Failed(RequestError::Malformed(m))) => assert_eq!(m, "invalid token"),
        _ => panic!("expected malformed"),
    }
}
