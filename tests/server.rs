use std::io::Read;

use http_server::bytes::{find_in, starts_with};
use http_server::number::{parse_decimal, push_decimal};
use http_server::request::{request_parser, split_lines};
use http_server::response::{response_with_body, response_with_body_compressed, status_response};
use http_server::session::{file_read_response, file_write_response, handle_request, Action};

fn gunzip(data: &[u8]) -> Vec<u8> {
    let mut decoder = flate2::read::GzDecoder::new(data);
    let mut out = Vec::new();
    decoder.read_to_end(&mut out).unwrap();
    out
}

fn reply(action: Action) -> (Vec<u8>, bool) {
    match action {
        Action::Reply { response, close } => (response.encode(), close),
        _ => panic!("expected a reply"),
    }
}

fn text(b: &[u8]) -> String {
    String::from_utf8_lossy(b).into_owned()
}

fn split_body(wire: &[u8]) -> (String, Vec<u8>) {
    let pos = wire.windows(4).position(|w| w == b"\r\n\r\n").unwrap();
    (text(&wire[..pos + 4]), wire[pos + 4..].to_vec())
}

#[test]
fn decoder_recovers_fields() {
    let req = request_parser(
        b"GET /echo/abc HTTP/1.1\r\nHost: localhost:4221\r\nUser-Agent: curl/7.64.1\r\n\r\n",
    )
    .unwrap();
    assert_eq!(req.method, b"GET".to_vec());
    assert_eq!(req.path, b"/echo/abc".to_vec());
    assert_eq!(req.headers.len(), 2);
    assert_eq!(req.headers[0], (b"Host".to_vec(), b"localhost:4221".to_vec()));
    assert_eq!(req.headers[1], (b"User-Agent".to_vec(), b"curl/7.64.1".to_vec()));
    assert!(req.body.is_empty());
}

#[test]
fn decoder_body_after_blank_line() {
    let req = request_parser(b"POST /files/a HTTP/1.1\r\nContent-Length: 9\r\n\r\nline one\nline two")
        .unwrap();
    assert_eq!(req.method, b"POST".to_vec());
    assert_eq!(req.body, b"line one\nline two".to_vec());
}

#[test]
fn decoder_last_header_wins() {
    let req = request_parser(b"GET / HTTP/1.1\r\nX: 1\r\nY: 2\r\nX: 3\r\n\r\n").unwrap();
    assert_eq!(req.header(b"X"), Some(&b"3".to_vec()));
    assert_eq!(req.header(b"Y"), Some(&b"2".to_vec()));
    assert_eq!(req.header(b"x"), None);
}

#[test]
fn decoder_header_value_keeps_later_separators() {
    let req = request_parser(b"GET / HTTP/1.1\r\nA: b: c\r\n\r\n").unwrap();
    assert_eq!(req.header(b"A"), Some(&b"b: c".to_vec()));
}

#[test]
fn decoder_rejects_malformed_input() {
    assert!(request_parser(b"").is_none());
    assert!(request_parser(b"GET\r\n\r\n").is_none());
    assert!(request_parser(b"GET / HTTP/1.1\r\nNoSeparator\r\n\r\n").is_none());
}

#[test]
fn root_without_connection_header() {
    let (wire, close) = reply(handle_request(b"GET / HTTP/1.1\r\nHost: h\r\n\r\n", None));
    assert!(wire.starts_with(b"HTTP/1.1 200 OK"));
    assert_eq!(wire, b"HTTP/1.1 200 OK\r\n\r\n".to_vec());
    assert!(!text(&wire).contains("Connection"));
    assert!(!close);
}

#[test]
fn echo_with_gzip() {
    let (wire, close) = reply(handle_request(
        b"GET /echo/abc HTTP/1.1\r\nAccept-Encoding: deflate, gzip\r\n\r\n",
        None,
    ));
    let (head, body) = split_body(&wire);
    assert!(head.contains("Content-Encoding: gzip\r\n"));
    assert!(head.contains(&format!("Content-Length: {}\r\n", body.len())));
    assert_eq!(&body[..2], &[0x1f, 0x8b]);
    assert_eq!(gunzip(&body), b"abc".to_vec());
    assert!(!close);
}

#[test]
fn echo_without_gzip() {
    let (wire, _) = reply(handle_request(b"GET /echo/abc HTTP/1.1\r\n\r\n", None));
    assert_eq!(
        wire,
        b"HTTP/1.1 200 OK\r\nContent-Type: text/plain\r\nContent-Length: 3\r\n\r\nabc".to_vec()
    );
}

#[test]
fn echo_other_encoding_is_plain() {
    let (wire, _) =
        reply(handle_request(b"GET /echo/xy HTTP/1.1\r\nAccept-Encoding: br\r\n\r\n", None));
    let (head, body) = split_body(&wire);
    assert!(!head.contains("Content-Encoding"));
    assert_eq!(body, b"xy".to_vec());
}

#[test]
fn echo_too_short_is_rejected() {
    let (wire, close) = reply(handle_request(b"GET /echo HTTP/1.1\r\n\r\n", None));
    assert_eq!(wire, b"HTTP/1.1 400 Bad Request\r\nConnection: close\r\n\r\n".to_vec());
    assert!(close);
}

#[test]
fn post_then_get_file() {
    let root: &[u8] = b"/tmp/store";
    let action = handle_request(
        b"POST /files/test.txt HTTP/1.1\r\nContent-Length: 5\r\n\r\nhello",
        Some(root),
    );
    let (path, contents) = match action {
        Action::WriteFile { path, contents, close } => {
            assert!(!close);
            (path, contents)
        }
        _ => panic!("expected a write"),
    };
    assert_eq!(path, b"/tmp/store/test.txt".to_vec());
    assert_eq!(contents, b"hello".to_vec());
    assert_eq!(file_write_response(true, false).encode(), b"HTTP/1.1 201 Created\r\n\r\n".to_vec());

    let action = handle_request(b"GET /files/test.txt HTTP/1.1\r\n\r\n", Some(root));
    match action {
        Action::ReadFile { path: read_path, close } => {
            assert_eq!(read_path, path);
            assert!(!close);
        }
        _ => panic!("expected a read"),
    }
    let wire = file_read_response(Some(contents), false).encode();
    assert_eq!(
        wire,
        b"HTTP/1.1 200 OK\r\nContent-Type: application/octet-stream\r\nContent-Length: 5\r\n\r\nhello"
            .to_vec()
    );
}

#[test]
fn post_length_mismatch() {
    let root: &[u8] = b"/tmp/store";
    let (wire, close) = reply(handle_request(
        b"POST /files/test.txt HTTP/1.1\r\nContent-Length: 7\r\n\r\nhello",
        Some(root),
    ));
    assert_eq!(wire, b"HTTP/1.1 400 Bad Request\r\n\r\n".to_vec());
    assert!(!close);
}

#[test]
fn post_without_length_is_rejected() {
    let root: &[u8] = b"/srv";
    let (wire, close) =
        reply(handle_request(b"POST /files/a HTTP/1.1\r\n\r\nhello", Some(root)));
    assert!(wire.starts_with(b"HTTP/1.1 400 Bad Request"));
    assert!(close);
    let (_, close) = reply(handle_request(
        b"POST /files/a HTTP/1.1\r\nContent-Length: five\r\n\r\nhello",
        Some(root),
    ));
    assert!(close);
}

#[test]
fn get_missing_file() {
    assert_eq!(
        file_read_response(None, false).encode(),
        b"HTTP/1.1 404 Not Found\r\n\r\n".to_vec()
    );
}

#[test]
fn file_write_failure() {
    assert_eq!(
        file_write_response(false, true).encode(),
        b"HTTP/1.1 500 Internal Server Error\r\nConnection: close\r\n\r\n".to_vec()
    );
}

#[test]
fn files_other_method() {
    let root: &[u8] = b"/srv";
    let (wire, _) = reply(handle_request(b"PUT /files/a HTTP/1.1\r\n\r\n", Some(root)));
    assert_eq!(wire, b"HTTP/1.1 405 Method Not Allowed\r\n\r\n".to_vec());
}

#[test]
fn files_without_root() {
    let (wire, close) = reply(handle_request(b"GET /files/a HTTP/1.1\r\n\r\n", None));
    assert!(wire.starts_with(b"HTTP/1.1 500 Internal Server Error"));
    assert!(close);
}

#[test]
fn connection_close_is_honoured() {
    let (wire, close) =
        reply(handle_request(b"GET / HTTP/1.1\r\nConnection: close\r\n\r\n", None));
    assert_eq!(wire, b"HTTP/1.1 200 OK\r\nConnection: close\r\n\r\n".to_vec());
    assert!(close);
    let (wire, close) =
        reply(handle_request(b"GET /nowhere HTTP/1.1\r\nConnection: close\r\n\r\n", None));
    assert_eq!(wire, b"HTTP/1.1 404 Not Found\r\nConnection: close\r\n\r\n".to_vec());
    assert!(close);
    let (wire, close) =
        reply(handle_request(b"GET /echo/hi HTTP/1.1\r\nConnection: close\r\n\r\n", None));
    assert!(text(&wire).contains("\r\nConnection: close\r\n"));
    assert!(close);
    let root: &[u8] = b"/srv";
    match handle_request(b"GET /files/a HTTP/1.1\r\nConnection: close\r\n\r\n", Some(root)) {
        Action::ReadFile { close, .. } => assert!(close),
        _ => panic!("expected a read"),
    }
}

#[test]
fn connection_value_is_exact() {
    let (_, close) =
        reply(handle_request(b"GET / HTTP/1.1\r\nConnection: Close\r\n\r\n", None));
    assert!(!close);
    let (_, close) =
        reply(handle_request(b"GET / HTTP/1.1\r\nconnection: close\r\n\r\n", None));
    assert!(!close);
}

#[test]
fn gzip_round_trip() {
    for body in [&b""[..], b"a", b"hello-world", b"zzzzzzzzzzzzzzzzzzzzzzzzzzzzzzzzzzzzzzzzzzzz"] {
        let mut request = b"GET /echo/".to_vec();
        request.extend_from_slice(body);
        request.extend_from_slice(b" HTTP/1.1\r\nAccept-Encoding: gzip\r\n\r\n");
        let (wire, _) = reply(handle_request(&request, None));
        let (_, compressed) = split_body(&wire);
        assert_eq!(gunzip(&compressed), body.to_vec());
    }
}

#[test]
fn user_agent_route() {
    let (wire, _) =
        reply(handle_request(b"GET /user-agent HTTP/1.1\r\nUser-Agent: foobar/1.2.3\r\n\r\n", None));
    assert_eq!(
        wire,
        b"HTTP/1.1 200 OK\r\nContent-Type: text/plain\r\nContent-Length: 12\r\n\r\nfoobar/1.2.3"
            .to_vec()
    );
    let (wire, close) = reply(handle_request(b"GET /user-agent HTTP/1.1\r\n\r\n", None));
    assert!(wire.starts_with(b"HTTP/1.1 400 Bad Request"));
    assert!(close);
}

#[test]
fn unknown_path_not_found() {
    let (wire, close) = reply(handle_request(b"GET /banana HTTP/1.1\r\n\r\n", None));
    assert_eq!(wire, b"HTTP/1.1 404 Not Found\r\n\r\n".to_vec());
    assert!(!close);
}

#[test]
fn empty_read_closes() {
    assert!(matches!(handle_request(b"", None), Action::Close));
}

#[test]
fn malformed_request_is_rejected() {
    let (wire, close) = reply(handle_request(b"garbage\r\n\r\n", None));
    assert_eq!(wire, b"HTTP/1.1 400 Bad Request\r\nConnection: close\r\n\r\n".to_vec());
    assert!(close);
}

#[test]
fn decimal_numbers() {
    let mut out = b"n=".to_vec();
    push_decimal(&mut out, 0);
    assert_eq!(out, b"n=0".to_vec());
    let mut out = Vec::new();
    push_decimal(&mut out, 1024);
    assert_eq!(out, b"1024".to_vec());
    assert_eq!(parse_decimal(b"42"), Some(42));
    assert_eq!(parse_decimal(b"+7"), Some(7));
    assert_eq!(parse_decimal(b""), None);
    assert_eq!(parse_decimal(b"+"), None);
    assert_eq!(parse_decimal(b"-1"), None);
    assert_eq!(parse_decimal(b"12a"), None);
    assert_eq!(parse_decimal(b"18446744073709551615"), Some(usize::MAX));
    assert_eq!(parse_decimal(b"18446744073709551616"), None);
}

#[test]
fn response_builders() {
    assert_eq!(
        response_with_body(b"xyz", true, true).encode(),
        b"HTTP/1.1 200 OK\r\nContent-Type: application/octet-stream\r\nContent-Length: 3\r\nConnection: close\r\n\r\nxyz"
            .to_vec()
    );
    assert_eq!(
        response_with_body_compressed(vec![1, 2], false).encode(),
        b"HTTP/1.1 200 OK\r\nContent-Type: text/plain\r\nContent-Encoding: gzip\r\nContent-Length: 2\r\n\r\n\x01\x02"
            .to_vec()
    );
    assert_eq!(
        status_response(b"HTTP/1.1 201 Created".to_vec(), false).encode(),
        b"HTTP/1.1 201 Created\r\n\r\n".to_vec()
    );
}

#[test]
fn line_splitting() {
    assert_eq!(split_lines(b"a\r\nb\nc"), vec![b"a".to_vec(), b"b".to_vec(), b"c".to_vec()]);
    assert_eq!(split_lines(b"a\n"), vec![b"a".to_vec()]);
    assert_eq!(split_lines(b"\n\n"), vec![Vec::new(), Vec::new()]);
    assert_eq!(split_lines(b"x\ry"), vec![b"x\ry".to_vec()]);
    assert!(split_lines(b"").is_empty());
}

#[test]
fn byte_search() {
    assert!(find_in(b"deflate, gzip", b"gzip"));
    assert!(!find_in(b"gzi", b"gzip"));
    assert!(find_in(b"abc", b""));
    assert!(starts_with(b"/echo/x", b"/echo"));
    assert!(!starts_with(b"/ech", b"/echo"));
}

#[test]
fn body_keeps_empty_lines() {
    let req = request_parser(b"POST / HTTP/1.1\r\n\r\na\n\nb").unwrap();
    assert_eq!(req.body, b"a\n\nb".to_vec());
}

#[test]
fn files_bare_path_other_method() {
    let root: &[u8] = b"/srv";
    let (wire, close) = reply(handle_request(b"PUT /files HTTP/1.1\r\n\r\n", Some(root)));
    assert_eq!(wire, b"HTTP/1.1 405 Method Not Allowed\r\n\r\n".to_vec());
    assert!(!close);
    let (wire, close) = reply(handle_request(b"DELETE /files HTTP/1.1\r\nConnection: close\r\n\r\n", None));
    assert_eq!(wire, b"HTTP/1.1 405 Method Not Allowed\r\nConnection: close\r\n\r\n".to_vec());
    assert!(close);
}

#[test]
fn keep_alive_unless_close() {
    let root: &[u8] = b"/srv";
    let (_, close) = reply(handle_request(b"GET /echo/a HTTP/1.1\r\nConnection: keep-alive\r\n\r\n", Some(root)));
    assert!(!close);
    match handle_request(b"GET /files/a HTTP/1.1\r\n\r\n", Some(root)) {
        Action::ReadFile { close, .. } => assert!(!close),
        _ => panic!("expected a read"),
    }
}
