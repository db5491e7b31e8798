//! Tests of the request parser.
use http_server::request::{ParseError, Request};

fn parse(bytes: &[u8]) -> Request {
    Request::from_str(&bytes.to_vec()).expect("request should parse")
}

#[test]
fn parses_request_line() {
    let req = parse(b"GET /echo/abc HTTP/1.1\r\nHost: localhost\r\n\r\n");
    assert_eq!(req.method, b"GET".to_vec());
    assert_eq!(req.path, b"/echo/abc".to_vec());
    assert_eq!(req.version, b"HTTP/1.1".to_vec());
}

#[test]
fn lowers_header_names() {
    let req = parse(b"GET / HTTP/1.1\r\nUser-Agent: foo/1.0\r\nAccept: */*\r\n\r\n");
    assert_eq!(
        req.header(&b"user-agent".to_vec()),
        Some(b"foo/1.0".to_vec())
    );
    assert_eq!(req.header(&b"accept".to_vec()), Some(b"*/*".to_vec()));
    assert_eq!(req.header(&b"host".to_vec()), None);
}

#[test]
fn later_header_binding_wins() {
    let req = parse(b"GET / HTTP/1.1\r\nX-K: one\r\nX-K: two\r\n\r\n");
    assert_eq!(req.header(&b"x-k".to_vec()), Some(b"two".to_vec()));
}

#[test]
fn extracts_body_after_blank_line() {
    let req = parse(b"POST /files/a HTTP/1.1\r\nContent-Length: 5\r\n\r\nhello");
    assert_eq!(req.body, b"hello".to_vec());
}

#[test]
fn no_blank_line_means_no_headers_and_no_body() {
    let req = parse(b"GET / HTTP/1.1\r\nleftover");
    assert_eq!(req.headers.len(), 0);
    assert_eq!(req.body, b"".to_vec());
}

#[test]
fn rejects_buffer_without_crlf() {
    let r = Request::from_str(&b"GET / HTTP/1.1".to_vec());
    assert_eq!(r.unwrap_err(), ParseError::MalformedRequestLine);
}

#[test]
fn rejects_request_line_with_two_tokens() {
    let r = Request::from_str(&b"GET /\r\n\r\n".to_vec());
    assert_eq!(r.unwrap_err(), ParseError::MalformedRequestLine);
}

#[test]
fn rejects_request_line_with_four_tokens() {
    let r = Request::from_str(&b"GET / HTTP/1.1 extra\r\nA: b\r\n\r\n".to_vec());
    assert_eq!(r.unwrap_err(), ParseError::MalformedRequestLine);
}

#[test]
fn rejects_header_line_without_separator() {
    let r = Request::from_str(&b"GET / HTTP/1.1\r\nbroken-header\r\n\r\nbody".to_vec());
    assert_eq!(r.unwrap_err(), ParseError::MalformedHeaderLine);
}

#[test]
fn minimal_request_has_no_headers() {
    let req = parse(b"GET / HTTP/1.1\r\n\r\n");
    assert_eq!(req.headers.len(), 0);
    assert_eq!(req.body, b"".to_vec());
}
