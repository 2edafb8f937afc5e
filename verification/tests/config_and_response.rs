use examplehttp::config::Configuration;
use examplehttp::decimal::push_decimal;
use examplehttp::message::{Request, Response};
use examplehttp::response::{no_handler_response, stringify_response};
use examplehttp::server::Server;

#[test]
fn default_configuration_listens_on_all_interfaces_port_9000() {
    let c = Configuration::default();
    assert_eq!(c.bind_host, "0.0.0.0");
    assert_eq!(c.bind_port, 9000);
    assert_eq!(c.bind_address(), "0.0.0.0:9000");
}

#[test]
fn bind_address_joins_host_and_port() {
    let c = Configuration { bind_host: "127.0.0.1".to_string(), bind_port: 8000 };
    assert_eq!(c.bind_address(), "127.0.0.1:8000");
    let c = Configuration { bind_host: "localhost".to_string(), bind_port: 0 };
    assert_eq!(c.bind_address(), "localhost:0");
    let c = Configuration { bind_host: String::new(), bind_port: u32::MAX };
    assert_eq!(c.bind_address(), ":4294967295");
}

#[test]
fn decimal_rendering() {
    for (n, text) in [(0u64, "0"), (7, "7"), (10, "10"), (12345, "12345"), (u64::MAX, "18446744073709551615")] {
        let mut s = String::from("x=");
        push_decimal(&mut s, n);
        assert_eq!(s, format!("x={}", text));
        // reading the digits back gives the number
        assert_eq!(s[2..].parse::<u64>().unwrap(), n);
    }
}

#[test]
fn stringify_ascii_response() {
    let text = stringify_response(Response { content_type: "text/plain".to_string(), body: "hello".to_string() });
    assert_eq!(
        text,
        "HTTP/1.1 200 OK\r\nContent-Type: text/plain; charset=UTF-8\r\nContent-Length: 5\r\n\r\nhello"
    );
}

#[test]
fn stringify_counts_body_bytes_not_chars() {
    let text = stringify_response(Response { content_type: "application/json".to_string(), body: "h\u{e9}llo \u{1F600}".to_string() });
    assert_eq!(
        text,
        "HTTP/1.1 200 OK\r\nContent-Type: application/json; charset=UTF-8\r\nContent-Length: 11\r\n\r\nh\u{e9}llo \u{1F600}"
    );
}

#[test]
fn stringify_empty_body() {
    let text = stringify_response(Response { content_type: String::new(), body: String::new() });
    assert_eq!(text, "HTTP/1.1 200 OK\r\nContent-Type: ; charset=UTF-8\r\nContent-Length: 0\r\n\r\n");
}

#[test]
fn response_framing_on_concrete_values() {
    let body = "x".repeat(1234);
    let text = stringify_response(Response { content_type: "text/html".to_string(), body: body.clone() });
    let split = text.find("\r\n\r\n").unwrap() + 4;
    let head = &text[..split];
    let length_line = head.lines().find(|l| l.starts_with("Content-Length: ")).unwrap();
    let announced: usize = length_line["Content-Length: ".len()..].parse().unwrap();
    assert_eq!(announced, text.len() - split);
    assert_eq!(&text[split..], body);
}

#[test]
fn no_handler_answers_plain_text() {
    let request = Request { version: 1, method: "GET".to_string(), path: "/".to_string(), headers: Vec::new() };
    let r = no_handler_response(request);
    assert_eq!(r.content_type, "text/plain");
    assert_eq!(r.body, "no handler");
}

#[test]
fn server_starts_without_handler_and_keeps_last_installed() {
    let config = Configuration { bind_host: "127.0.0.1".to_string(), bind_port: 8080 };
    let mut server: Server<u32> = Server::new(config);
    assert!(server.handler().is_none());
    assert_eq!(server.config().bind_host, "127.0.0.1");
    assert_eq!(server.config().bind_port, 8080);
    server.with_handler(1);
    assert_eq!(server.handler(), Some(&1));
    server.with_handler(2);
    assert_eq!(server.handler(), Some(&2));
    assert_eq!(server.config().bind_address(), "127.0.0.1:8080");
}
