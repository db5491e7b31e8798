//! Tests of the response builder and the individual handlers.
use http_server::request::Request;
use http_server::response::Response;
use http_server::router::{
    handle_get_echo, handle_get_files, handle_get_user_agent, handle_post_files, route, Route,
};

#[test]
fn builds_status_line_headers_and_body() {
    let mut resp = Response::new(b"HTTP/1.1 200 OK".to_vec());
    resp.push_header(b"Content-Type".to_vec(), b"text/plain".to_vec());
    resp.push_header(b"Content-Length".to_vec(), b"2".to_vec());
    resp.body = b"hi".to_vec();
    assert_eq!(
        resp.build(),
        b"HTTP/1.1 200 OK\r\nContent-Type: text/plain\r\nContent-Length: 2\r\n\r\nhi".to_vec()
    );
}

#[test]
fn builds_bare_status_line() {
    let resp = Response::new(b"HTTP/1.1 404 Not Found".to_vec());
    assert_eq!(resp.build(), b"HTTP/1.1 404 Not Found\r\n\r\n".to_vec());
}

#[test]
fn routes_follow_the_fixed_priority_order() {
    let get = b"GET".to_vec();
    let post = b"POST".to_vec();
    assert!(matches!(route(&get, &b"/".to_vec()), Route::Home));
    assert!(matches!(
        route(&get, &b"/user-agent".to_vec()),
        Route::UserAgent
    ));
    match route(&get, &b"/echo/xyz".to_vec()) {
        Route::Echo { rest } => assert_eq!(rest, b"xyz".to_vec()),
        _ => panic!("expected the echo route"),
    }
    match route(&get, &b"/files/a.txt".to_vec()) {
        Route::FileGet { name } => assert_eq!(name, b"a.txt".to_vec()),
        _ => panic!("expected a file read route"),
    }
    match route(&post, &b"/files/a.txt".to_vec()) {
        Route::FilePost { name } => assert_eq!(name, b"a.txt".to_vec()),
        _ => panic!("expected a file write route"),
    }
    assert!(matches!(
        route(&b"PUT".to_vec(), &b"/files/a.txt".to_vec()),
        Route::NotFound
    ));
    assert!(matches!(route(&get, &b"/nope".to_vec()), Route::NotFound));
}

fn parse(bytes: &[u8]) -> Request {
    Request::from_str(&bytes.to_vec()).expect("request should parse")
}

#[test]
fn user_agent_handler_reflects_the_header() {
    let req = parse(b"GET /user-agent HTTP/1.1\r\nUser-Agent: probe/2\r\n\r\n");
    let resp = handle_get_user_agent(&req);
    assert_eq!(resp.status_line, b"HTTP/1.1 200 OK".to_vec());
    assert_eq!(resp.body, b"probe/2".to_vec());
    assert_eq!(
        resp.headers,
        vec![
            (b"Content-Type".to_vec(), b"text/plain".to_vec()),
            (b"Content-Length".to_vec(), b"7".to_vec()),
        ]
    );
}

#[test]
fn echo_handler_strips_the_prefix() {
    let req = parse(b"GET /echo/hello HTTP/1.1\r\n\r\n");
    let resp = handle_get_echo(&req);
    assert_eq!(resp.body, b"hello".to_vec());
    assert_eq!(
        resp.headers,
        vec![
            (b"Content-Type".to_vec(), b"text/plain".to_vec()),
            (b"Content-Length".to_vec(), b"5".to_vec()),
        ]
    );
}

#[test]
fn file_handler_wraps_found_contents() {
    let resp = handle_get_files(Some(b"bytes".to_vec()));
    assert_eq!(resp.status_line, b"HTTP/1.1 200 OK".to_vec());
    assert_eq!(resp.body, b"bytes".to_vec());
    assert_eq!(
        resp.headers,
        vec![
            (b"Content-Type".to_vec(), b"application/octet-stream".to_vec()),
            (b"Content-Length".to_vec(), b"5".to_vec()),
        ]
    );
}

#[test]
fn file_handler_maps_absence_to_not_found() {
    let resp = handle_get_files(None);
    assert_eq!(resp.status_line, b"HTTP/1.1 404 Not Found".to_vec());
    assert_eq!(resp.headers.len(), 0);
    assert_eq!(resp.body.len(), 0);
}

#[test]
fn post_handler_acknowledges_creation() {
    let resp = handle_post_files();
    assert_eq!(resp.build(), b"HTTP/1.1 201 Created\r\n\r\n".to_vec());
}
