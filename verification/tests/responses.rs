//! Tests of the route table, the response writer, the gzip negotiation,
//! and whole request/response exchanges against the in-memory store.

use std::io::Read;

use http_server::request::{parse_head, parse_headers, client_accept_gzip};
use http_server::router::{route, Route};
use http_server::response::{Response, ReadOutcome, respond_file, fmt_u64};
use http_server::server::handle_request;
use http_server::store::FileStore;

fn vecs(lines: &[&str]) -> Vec<Vec<u8>> {
    lines.iter().map(|l| l.as_bytes().to_vec()).collect()
}

fn request(head: &str, body: &[u8]) -> http_server::request::Request {
    let mut req = parse_head(head.as_bytes());
    req.body = body.to_vec();
    req
}

fn gunzip(data: &[u8]) -> Vec<u8> {
    let mut out = Vec::new();
    let mut dec = flate2::read::GzDecoder::new(data);
    dec.read_to_end(&mut out).unwrap();
    out
}

#[test]
fn routes_match_in_order() {
    assert!(matches!(route(b"GET", b"/echo/xyz"), Route::Echo(s) if s == b"xyz".to_vec()));
    assert!(matches!(route(b"GET", b"/echo/"), Route::Echo(s) if s.is_empty()));
    assert!(matches!(route(b"GET", b"/files/f"), Route::FileGet(n) if n == b"f".to_vec()));
    assert!(matches!(route(b"POST", b"/files/f"), Route::FilePost(n) if n == b"f".to_vec()));
    assert!(matches!(route(b"GET", b"/user-agent"), Route::UserAgent));
    assert!(matches!(route(b"GET", b"/"), Route::Root));
    assert!(matches!(route(b"GET", b"/nope"), Route::NotFound));
    assert!(matches!(route(b"POST", b"/echo/x"), Route::NotFound));
    assert!(matches!(route(b"DELETE", b"/"), Route::NotFound));
    assert!(matches!(route(b"", b""), Route::NotFound));
}

#[test]
fn echo_not_decoded() {
    // the raw target is echoed byte for byte, percent-encoding kept
    assert!(matches!(route(b"GET", b"/echo/a%20b"), Route::Echo(s) if s == b"a%20b".to_vec()));
}

#[test]
fn serialize_exact_bytes() {
    let r = Response {
        status: 200,
        content_type: b"text/plain".to_vec(),
        gzip: false,
        body: b"abc".to_vec(),
    };
    assert_eq!(
        r.serialize(),
        b"HTTP/1.1 200 OK\r\nContent-Type: text/plain\r\nContent-Length: 3\r\n\r\nabc".to_vec()
    );
}

#[test]
fn serialize_gzip_header_present() {
    let r = Response {
        status: 200,
        content_type: b"text/plain".to_vec(),
        gzip: true,
        body: b"zz".to_vec(),
    };
    assert_eq!(
        r.serialize(),
        b"HTTP/1.1 200 OK\r\nContent-Type: text/plain\r\nContent-Encoding: gzip\r\nContent-Length: 2\r\n\r\nzz"
            .to_vec()
    );
}

#[test]
fn fmt_u64_decimal() {
    assert_eq!(fmt_u64(0), b"0".to_vec());
    assert_eq!(fmt_u64(404), b"404".to_vec());
    assert_eq!(fmt_u64(18446744073709551615), b"18446744073709551615".to_vec());
}

#[test]
fn gzip_negotiation_is_substring_match() {
    let yes = parse_headers(&vecs(&["Accept-Encoding: gzip"]));
    assert!(client_accept_gzip(&yes));
    // the raw value is searched for the token, never parsed
    let loose = parse_headers(&vecs(&["Accept-Encoding: identity, gzip;q=0"]));
    assert!(client_accept_gzip(&loose));
    let no = parse_headers(&vecs(&["Accept-Encoding: br"]));
    assert!(!client_accept_gzip(&no));
    let absent = parse_headers(&vecs(&[]));
    assert!(!client_accept_gzip(&absent));
}

#[test]
fn echo_plain() {
    let req = request("GET /echo/abc HTTP/1.1\r\n\r\n", b"");
    let mut store = FileStore::new();
    let r = handle_request(&req, &mut store);
    assert_eq!(r.status, 200);
    assert_eq!(r.content_type, b"text/plain".to_vec());
    assert!(!r.gzip);
    assert_eq!(r.body, b"abc".to_vec());
    let wire = r.serialize();
    assert_eq!(
        wire,
        b"HTTP/1.1 200 OK\r\nContent-Type: text/plain\r\nContent-Length: 3\r\n\r\nabc".to_vec()
    );
}

#[test]
fn echo_gzip_round_trip() {
    let req = request("GET /echo/abc HTTP/1.1\r\nAccept-Encoding: gzip\r\n\r\n", b"");
    let mut store = FileStore::new();
    let r = handle_request(&req, &mut store);
    assert_eq!(r.status, 200);
    assert!(r.gzip);
    // the compressed body decompresses back to the echoed string
    assert_eq!(gunzip(&r.body), b"abc".to_vec());
    // the declared length is the compressed length, not the text's
    let wire = r.serialize();
    let text = String::from_utf8_lossy(&wire).to_string();
    assert!(text.contains("Content-Encoding: gzip\r\n"));
    assert!(text.contains(&format!("Content-Length: {}\r\n", r.body.len())));
    assert_ne!(r.body.len(), 3);
}

#[test]
fn files_round_trip() {
    let mut store = FileStore::new();
    let post = request("POST /files/foo.txt HTTP/1.1\r\nContent-Length: 5\r\n\r\n", b"hello");
    let r = handle_request(&post, &mut store);
    assert_eq!(r.status, 201);
    assert!(r.body.is_empty());

    let get = request("GET /files/foo.txt HTTP/1.1\r\n\r\n", b"");
    let r = handle_request(&get, &mut store);
    assert_eq!(r.status, 200);
    assert_eq!(r.content_type, b"application/octet-stream".to_vec());
    assert_eq!(r.body, b"hello".to_vec());
}

#[test]
fn files_missing_is_empty_404() {
    let mut store = FileStore::new();
    let get = request("GET /files/does-not-exist HTTP/1.1\r\n\r\n", b"");
    let r = handle_request(&get, &mut store);
    assert_eq!(r.status, 404);
    assert!(r.body.is_empty());
    assert!(!r.gzip);
}

#[test]
fn files_overwrite_keeps_latest() {
    let mut store = FileStore::new();
    let first = request("POST /files/x HTTP/1.1\r\nContent-Length: 3\r\n\r\n", b"one");
    handle_request(&first, &mut store);
    let second = request("POST /files/x HTTP/1.1\r\nContent-Length: 3\r\n\r\n", b"two");
    handle_request(&second, &mut store);
    let get = request("GET /files/x HTTP/1.1\r\n\r\n", b"");
    let r = handle_request(&get, &mut store);
    assert_eq!(r.body, b"two".to_vec());
}

#[test]
fn file_read_failure_is_empty_500() {
    let r = respond_file(ReadOutcome::Failed);
    assert_eq!(r.status, 500);
    assert!(r.body.is_empty());
    let wire = r.serialize();
    assert_eq!(
        wire,
        b"HTTP/1.1 500 Internal Server Error\r\nContent-Type: text/plain\r\nContent-Length: 0\r\n\r\n"
            .to_vec()
    );
}

#[test]
fn user_agent_reflected() {
    let req = request("GET /user-agent HTTP/1.1\r\nUser-Agent: test-agent/1.0\r\n\r\n", b"");
    let mut store = FileStore::new();
    let r = handle_request(&req, &mut store);
    assert_eq!(r.status, 200);
    assert_eq!(r.body, b"test-agent/1.0".to_vec());
}

#[test]
fn user_agent_absent_is_empty() {
    let req = request("GET /user-agent HTTP/1.1\r\n\r\n", b"");
    let mut store = FileStore::new();
    let r = handle_request(&req, &mut store);
    assert_eq!(r.status, 200);
    assert!(r.body.is_empty());
}

#[test]
fn root_is_empty_200() {
    let req = request("GET / HTTP/1.1\r\n\r\n", b"");
    let mut store = FileStore::new();
    let r = handle_request(&req, &mut store);
    assert_eq!(r.status, 200);
    assert!(r.body.is_empty());
    assert_eq!(r.content_type, b"text/plain".to_vec());
}

#[test]
fn unmatched_path_is_404() {
    let req = request("GET /nope HTTP/1.1\r\n\r\n", b"");
    let mut store = FileStore::new();
    let r = handle_request(&req, &mut store);
    assert_eq!(r.status, 404);
    assert_eq!(r.body, b"404 Not Found".to_vec());
}

#[test]
fn malformed_request_line_handled_as_not_found() {
    // a blank line right away: no tokens at all, the exchange still
    // completes with the fallback response
    let req = request("\r\n\r\n", b"");
    let mut store = FileStore::new();
    let r = handle_request(&req, &mut store);
    assert_eq!(r.status, 404);
}

#[test]
fn created_wire_bytes() {
    let mut store = FileStore::new();
    let post = request("POST /files/a HTTP/1.1\r\nContent-Length: 2\r\n\r\n", b"ok");
    let r = handle_request(&post, &mut store);
    assert_eq!(
        r.serialize(),
        b"HTTP/1.1 201 Created\r\nContent-Type: text/plain\r\nContent-Length: 0\r\n\r\n".to_vec()
    );
}

#[test]
fn not_found_wire_bytes() {
    let req = request("GET /nope HTTP/1.1\r\n\r\n", b"");
    let mut store = FileStore::new();
    let r = handle_request(&req, &mut store);
    assert_eq!(
        r.serialize(),
        b"HTTP/1.1 404 Not Found\r\nContent-Type: text/plain\r\nContent-Length: 13\r\n\r\n404 Not Found"
            .to_vec()
    );
}

#[test]
fn root_with_gzip_compresses_empty_body() {
    let req = request("GET / HTTP/1.1\r\nAccept-Encoding: something-with-gzip-inside\r\n\r\n", b"");
    let mut store = FileStore::new();
    let r = handle_request(&req, &mut store);
    assert_eq!(r.status, 200);
    assert!(r.gzip);
    assert_eq!(gunzip(&r.body), b"".to_vec());
}

#[test]
fn file_bytes_served_raw() {
    // binary content, not valid UTF-8, must come back untouched
    let mut store = FileStore::new();
    let mut post = request("POST /files/bin HTTP/1.1\r\nContent-Length: 4\r\n\r\n", b"");
    post.body = vec![0u8, 159, 146, 150];
    handle_request(&post, &mut store);
    let get = request("GET /files/bin HTTP/1.1\r\n\r\n", b"");
    let r = handle_request(&get, &mut store);
    assert_eq!(r.body, vec![0u8, 159, 146, 150]);
    let wire = r.serialize();
    assert!(wire.ends_with(&[0u8, 159, 146, 150]));
}

#[test]
fn post_with_gzip_header_still_uncompressed_201() {
    let mut store = FileStore::new();
    let post = request(
        "POST /files/a HTTP/1.1\r\nContent-Length: 2\r\nAccept-Encoding: gzip\r\n\r\n",
        b"ok",
    );
    let r = handle_request(&post, &mut store);
    assert_eq!(r.status, 201);
    assert!(!r.gzip);
    assert!(r.body.is_empty());
}
