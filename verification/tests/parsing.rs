//! Tests of the request parser: request line tokens, header lines,
//! body length, and the line reader.

use http_server::request::{
    parse_request_line, parse_header_line, parse_headers, parse_head, required_body_len,
    parse_decimal, Headers,
};
use http_server::reader::{head_complete, head_lines};
use http_server::request::HttpError;
use http_server::router::{route, Route};

fn vecs(lines: &[&str]) -> Vec<Vec<u8>> {
    lines.iter().map(|l| l.as_bytes().to_vec()).collect()
}

#[test]
fn request_line_three_tokens() {
    let (m, t, v) = parse_request_line(b"GET /echo/abc HTTP/1.1");
    assert_eq!(m, b"GET".to_vec());
    assert_eq!(t, b"/echo/abc".to_vec());
    assert_eq!(v, b"HTTP/1.1".to_vec());
}

#[test]
fn request_line_missing_tokens_default_empty() {
    let (m, t, v) = parse_request_line(b"");
    assert_eq!(m, b"".to_vec());
    assert_eq!(t, b"".to_vec());
    assert_eq!(v, b"".to_vec());

    let (m, t, v) = parse_request_line(b"GET");
    assert_eq!(m, b"GET".to_vec());
    assert_eq!(t, b"".to_vec());
    assert_eq!(v, b"".to_vec());
}

#[test]
fn request_line_extra_whitespace() {
    let (m, t, v) = parse_request_line(b"  GET   /a\t HTTP/1.1  extra");
    assert_eq!(m, b"GET".to_vec());
    assert_eq!(t, b"/a".to_vec());
    assert_eq!(v, b"HTTP/1.1".to_vec());
}

#[test]
fn header_line_splits_on_first_colon_space() {
    let r = parse_header_line(b"Host: example.com: 80").unwrap();
    assert_eq!(r.0, b"Host".to_vec());
    assert_eq!(r.1, b"example.com: 80".to_vec());
}

#[test]
fn header_line_value_trimmed() {
    let r = parse_header_line(b"User-Agent:  test-agent/1.0  ").unwrap();
    assert_eq!(r.0, b"User-Agent".to_vec());
    assert_eq!(r.1, b"test-agent/1.0".to_vec());
}

#[test]
fn header_line_without_separator_dropped() {
    assert!(parse_header_line(b"no-colon-here").is_none());
    assert!(parse_header_line(b"colon:no-space").is_none());
    assert!(parse_header_line(b"").is_none());
}

#[test]
fn headers_last_write_wins() {
    let headers = parse_headers(&vecs(&["X: one", "X: two"]));
    assert_eq!(headers.get(b"X"), Some(b"two".to_vec()));
}

#[test]
fn headers_case_sensitive() {
    let headers = parse_headers(&vecs(&["Accept-Encoding: gzip"]));
    assert_eq!(headers.get(b"accept-encoding"), None);
    assert_eq!(headers.get(b"Accept-Encoding"), Some(b"gzip".to_vec()));
}

#[test]
fn head_complete_finds_blank_line() {
    assert_eq!(head_complete(b"GET / HTTP/1.1\r\nHost: x\r\n\r\nrest"), Some(27));
    assert_eq!(head_complete(b"GET / HTTP/1.1\r\nHost: x\r\n"), None);
    // a bare newline delimiter works too
    assert_eq!(head_complete(b"GET / HTTP/1.1\n\n"), Some(16));
    // an immediately blank line: the head is just the empty line
    assert_eq!(head_complete(b"\r\n"), Some(2));
}

#[test]
fn head_lines_split_and_strip() {
    let lines = head_lines(b"GET / HTTP/1.1\r\nHost: x\r\n\r\n");
    assert_eq!(lines, vec![b"GET / HTTP/1.1".to_vec(), b"Host: x".to_vec(), b"".to_vec()]);
}

#[test]
fn parse_head_full() {
    let req = parse_head(b"POST /files/a.txt HTTP/1.1\r\nContent-Length: 5\r\nHost: h\r\n\r\n");
    assert_eq!(req.method, b"POST".to_vec());
    assert_eq!(req.target, b"/files/a.txt".to_vec());
    assert_eq!(req.version, b"HTTP/1.1".to_vec());
    assert_eq!(req.headers.get(b"Content-Length"), Some(b"5".to_vec()));
    assert_eq!(req.headers.get(b"Host"), Some(b"h".to_vec()));
    assert!(req.body.is_empty());
}

#[test]
fn body_len_post_with_content_length() {
    let headers = parse_headers(&vecs(&["Content-Length: 11"]));
    assert_eq!(required_body_len(b"POST", &headers), Ok(11));
}

#[test]
fn body_len_zero_without_header_or_for_get() {
    let none = Headers { pairs: Vec::new() };
    assert_eq!(required_body_len(b"POST", &none), Ok(0));
    let headers = parse_headers(&vecs(&["Content-Length: 11"]));
    assert_eq!(required_body_len(b"GET", &headers), Ok(0));
}

#[test]
fn body_len_non_numeric_is_malformed() {
    let headers = parse_headers(&vecs(&["Content-Length: nope"]));
    assert_eq!(required_body_len(b"POST", &headers), Err(HttpError::MalformedRequest));
    let empty_value = parse_headers(&vecs(&["Content-Length: "]));
    assert_eq!(required_body_len(b"POST", &empty_value), Err(HttpError::MalformedRequest));
}

#[test]
fn parse_decimal_values() {
    assert_eq!(parse_decimal(b"0"), Some(0));
    assert_eq!(parse_decimal(b"404"), Some(404));
    assert_eq!(parse_decimal(b""), None);
    assert_eq!(parse_decimal(b"1x"), None);
    assert_eq!(parse_decimal(b"99999999999999999999999999"), None);
}

#[test]
fn malformed_request_line_routes_not_found() {
    let (m, t, _) = parse_request_line(b"\r\n");
    assert!(matches!(route(&m, &t), Route::NotFound));
}
