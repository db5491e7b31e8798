//! Tests of the full per-connection pipeline: routing, handlers, the
//! content-encoding step and serialization, with a map standing in for
//! the file store.
use std::collections::HashMap;

use http_server::serve::{finish_file_read, finish_file_write, handle_request, Step};

fn done_wire(input: &[u8]) -> Vec<u8> {
    match handle_request(&input.to_vec()) {
        Step::Done { wire } => wire,
        _ => panic!("expected a finished response"),
    }
}

#[test]
fn echo_returns_rest_of_path() {
    let wire = done_wire(b"GET /echo/abc HTTP/1.1\r\nHost: x\r\n\r\n");
    assert_eq!(
        wire,
        b"HTTP/1.1 200 OK\r\nContent-Type: text/plain\r\nContent-Length: 3\r\n\r\nabc".to_vec()
    );
}

#[test]
fn echo_of_empty_rest() {
    let wire = done_wire(b"GET /echo/ HTTP/1.1\r\nHost: x\r\n\r\n");
    assert_eq!(
        wire,
        b"HTTP/1.1 200 OK\r\nContent-Type: text/plain\r\nContent-Length: 0\r\n\r\n".to_vec()
    );
}

#[test]
fn echo_content_length_has_two_digits() {
    let wire = done_wire(b"GET /echo/twelve-bytes. HTTP/1.1\r\n\r\n");
    assert_eq!(
        wire,
        b"HTTP/1.1 200 OK\r\nContent-Type: text/plain\r\nContent-Length: 13\r\n\r\ntwelve-bytes."
            .to_vec()
    );
}

#[test]
fn root_returns_ok_with_empty_body() {
    let wire = done_wire(b"GET / HTTP/1.1\r\nAccept: */*\r\n\r\n");
    assert_eq!(wire, b"HTTP/1.1 200 OK\r\n\r\n".to_vec());
}

#[test]
fn user_agent_is_reflected() {
    let wire = done_wire(b"GET /user-agent HTTP/1.1\r\nUser-Agent: foo\r\n\r\n");
    assert_eq!(
        wire,
        b"HTTP/1.1 200 OK\r\nContent-Type: text/plain\r\nContent-Length: 3\r\n\r\nfoo".to_vec()
    );
}

#[test]
fn missing_user_agent_gives_empty_body() {
    let wire = done_wire(b"GET /user-agent HTTP/1.1\r\nHost: x\r\n\r\n");
    assert_eq!(
        wire,
        b"HTTP/1.1 200 OK\r\nContent-Type: text/plain\r\nContent-Length: 0\r\n\r\n".to_vec()
    );
}

#[test]
fn unknown_path_is_not_found() {
    let wire = done_wire(b"GET /does-not-exist HTTP/1.1\r\nHost: x\r\n\r\n");
    assert_eq!(wire, b"HTTP/1.1 404 Not Found\r\n\r\n".to_vec());
}

#[test]
fn malformed_request_is_not_found() {
    let wire = done_wire(b"nonsense");
    assert_eq!(wire, b"HTTP/1.1 404 Not Found\r\n\r\n".to_vec());
}

#[test]
fn gzip_token_adds_content_encoding_header() {
    let wire = done_wire(b"GET /echo/a HTTP/1.1\r\nAccept-Encoding: gzip\r\n\r\n");
    assert_eq!(
        wire,
        b"HTTP/1.1 200 OK\r\nContent-Type: text/plain\r\nContent-Length: 1\r\nContent-Encoding: gzip\r\n\r\na"
            .to_vec()
    );
}

#[test]
fn gzip_first_in_list_is_matched_exactly() {
    let wire = done_wire(b"GET /echo/a HTTP/1.1\r\nAccept-Encoding: gzip,deflate\r\n\r\n");
    assert!(wire
        .windows(b"Content-Encoding: gzip\r\n".len())
        .any(|w| w == b"Content-Encoding: gzip\r\n"));
}

#[test]
fn gzip_after_a_space_is_not_matched() {
    let wire = done_wire(b"GET /echo/a HTTP/1.1\r\nAccept-Encoding: deflate, gzip\r\n\r\n");
    assert!(!wire
        .windows(b"Content-Encoding".len())
        .any(|w| w == b"Content-Encoding"));
}

#[test]
fn file_get_asks_the_store_for_the_name() {
    match handle_request(&b"GET /files/notes.txt HTTP/1.1\r\nHost: x\r\n\r\n".to_vec()) {
        Step::FileRead { name, .. } => assert_eq!(name, b"notes.txt".to_vec()),
        _ => panic!("expected a file read"),
    }
}

#[test]
fn file_get_found_returns_contents() {
    match handle_request(&b"GET /files/f HTTP/1.1\r\nHost: x\r\n\r\n".to_vec()) {
        Step::FileRead { request, .. } => {
            let wire = finish_file_read(&request, Some(b"data!".to_vec()));
            assert_eq!(
                wire,
                b"HTTP/1.1 200 OK\r\nContent-Type: application/octet-stream\r\nContent-Length: 5\r\n\r\ndata!"
                    .to_vec()
            );
        }
        _ => panic!("expected a file read"),
    }
}

#[test]
fn file_get_missing_is_not_found() {
    match handle_request(&b"GET /files/absent HTTP/1.1\r\nHost: x\r\n\r\n".to_vec()) {
        Step::FileRead { request, .. } => {
            let wire = finish_file_read(&request, None);
            assert_eq!(wire, b"HTTP/1.1 404 Not Found\r\n\r\n".to_vec());
        }
        _ => panic!("expected a file read"),
    }
}

#[test]
fn file_post_writes_the_body_verbatim() {
    match handle_request(&b"POST /files/f HTTP/1.1\r\nContent-Length: 5\r\n\r\nhello".to_vec()) {
        Step::FileWrite {
            name,
            contents,
            request,
        } => {
            assert_eq!(name, b"f".to_vec());
            assert_eq!(contents, b"hello".to_vec());
            let wire = finish_file_write(&request, true).expect("a successful write responds");
            assert_eq!(wire, b"HTTP/1.1 201 Created\r\n\r\n".to_vec());
        }
        _ => panic!("expected a file write"),
    }
}

#[test]
fn file_post_failed_write_drops_the_connection() {
    match handle_request(&b"POST /files/f HTTP/1.1\r\n\r\n".to_vec()) {
        Step::FileWrite { request, .. } => {
            assert!(finish_file_write(&request, false).is_none());
        }
        _ => panic!("expected a file write"),
    }
}

#[test]
fn unsupported_method_on_files_is_not_found() {
    let wire = done_wire(b"PUT /files/f HTTP/1.1\r\nHost: x\r\n\r\n");
    assert_eq!(wire, b"HTTP/1.1 404 Not Found\r\n\r\n".to_vec());
}

#[test]
fn three_records_round_trip_through_a_store() {
    let mut store: HashMap<Vec<u8>, Vec<u8>> = HashMap::new();
    let bodies: [&[u8]; 3] = [b"alpha", b"bravo charlie", b""];
    for (i, body) in bodies.iter().enumerate() {
        let mut input = format!("POST /files/r{} HTTP/1.1\r\nContent-Length: {}\r\n\r\n", i, body.len())
            .into_bytes();
        input.extend_from_slice(body);
        match handle_request(&input) {
            Step::FileWrite {
                name,
                contents,
                request,
            } => {
                store.insert(name, contents);
                assert!(finish_file_write(&request, true).is_some());
            }
            _ => panic!("expected a file write"),
        }
    }
    for (i, body) in bodies.iter().enumerate() {
        let input = format!("GET /files/r{} HTTP/1.1\r\nHost: x\r\n\r\n", i).into_bytes();
        match handle_request(&input) {
            Step::FileRead { name, request } => {
                let wire = finish_file_read(&request, store.get(&name).cloned());
                let mut expected = format!(
                    "HTTP/1.1 200 OK\r\nContent-Type: application/octet-stream\r\nContent-Length: {}\r\n\r\n",
                    body.len()
                )
                .into_bytes();
                expected.extend_from_slice(body);
                assert_eq!(wire, expected);
            }
            _ => panic!("expected a file read"),
        }
    }
}

#[test]
fn distinct_echo_paths_get_their_own_bodies() {
    let paths: [&[u8]; 4] = [b"one", b"two", b"three", b"four"];
    for p in paths {
        let mut input = b"GET /echo/".to_vec();
        input.extend_from_slice(p);
        input.extend_from_slice(b" HTTP/1.1\r\nHost: x\r\n\r\n");
        let wire = done_wire(&input);
        let mut expected =
            format!("HTTP/1.1 200 OK\r\nContent-Type: text/plain\r\nContent-Length: {}\r\n\r\n", p.len())
                .into_bytes();
        expected.extend_from_slice(p);
        assert_eq!(wire, expected);
    }
}

#[test]
fn encoding_step_applies_to_the_not_found_route_too() {
    let wire = done_wire(b"GET /nope HTTP/1.1\r\nAccept-Encoding: gzip\r\n\r\n");
    assert_eq!(
        wire,
        b"HTTP/1.1 404 Not Found\r\nContent-Encoding: gzip\r\n\r\n".to_vec()
    );
}

#[test]
fn minimal_root_request_is_ok() {
    let wire = done_wire(b"GET / HTTP/1.1\r\n\r\n");
    assert_eq!(wire, b"HTTP/1.1 200 OK\r\n\r\n".to_vec());
}
