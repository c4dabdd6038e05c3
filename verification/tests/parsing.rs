use http_server::parser::{parse_headers, parse_request, ParseError};

fn req(input: &[u8]) -> (http_server::request::Request, Vec<u8>) {
    parse_request(input).expect("request should parse")
}

#[test]
fn parses_simple_get() {
    let (r, rest) = req(b"GET / HTTP/1.1\r\n\r\n");
    assert_eq!(r.method, b"GET");
    assert_eq!(r.path, b"/");
    assert_eq!(r.version, b"HTTP/1.1");
    assert!(r.headers.is_empty());
    assert_eq!(rest, b"\r\n");
}

#[test]
fn parses_post() {
    let (r, _) = req(b"POST /files/x HTTP/1.1\r\n\r\n");
    assert_eq!(r.method, b"POST");
    assert_eq!(r.path, b"/files/x");
}

#[test]
fn method_match_is_case_insensitive_and_kept_verbatim() {
    let (r, _) = req(b"get / HTTP/1.1\r\n\r\n");
    assert_eq!(r.method, b"get");
    let (r, _) = req(b"PoSt / HTTP/1.1\r\n\r\n");
    assert_eq!(r.method, b"PoSt");
}

#[test]
fn unknown_method_fails_parsing() {
    assert_eq!(parse_request(b"PUT / HTTP/1.1\r\n\r\n"), Err(ParseError::Invalid));
    assert_eq!(parse_request(b"XYZ / HTTP/1.1\r\n\r\n"), Err(ParseError::Invalid));
}

#[test]
fn truncated_input_is_incomplete_not_invalid() {
    assert_eq!(parse_request(b""), Err(ParseError::Incomplete));
    assert_eq!(parse_request(b"GE"), Err(ParseError::Incomplete));
    assert_eq!(parse_request(b"PO"), Err(ParseError::Incomplete));
    assert_eq!(parse_request(b"GET /pa"), Err(ParseError::Incomplete));
    assert_eq!(parse_request(b"GET / HTTP/1.1"), Err(ParseError::Incomplete));
}

#[test]
fn empty_path_is_rejected() {
    assert_eq!(parse_request(b"GET  HTTP/1.1\r\n\r\n"), Err(ParseError::Invalid));
}

#[test]
fn empty_version_is_rejected() {
    assert_eq!(parse_request(b"GET / \r\n\r\n"), Err(ParseError::Invalid));
}

#[test]
fn header_order_is_preserved() {
    let (r, _) = req(b"GET / HTTP/1.1\r\nA: 1\r\nB: 2\r\n\r\n");
    assert_eq!(r.headers, vec![(b"A".to_vec(), b"1".to_vec()), (b"B".to_vec(), b"2".to_vec())]);
}

#[test]
fn duplicate_headers_are_kept() {
    let (r, _) = req(b"GET / HTTP/1.1\r\nA: 1\r\nA: 2\r\n\r\n");
    assert_eq!(r.headers, vec![(b"A".to_vec(), b"1".to_vec()), (b"A".to_vec(), b"2".to_vec())]);
}

#[test]
fn header_value_may_contain_colon() {
    let (r, _) = req(b"GET / HTTP/1.1\r\nHost: a:b\r\n\r\n");
    assert_eq!(r.headers, vec![(b"Host".to_vec(), b"a:b".to_vec())]);
}

#[test]
fn header_without_space_after_colon_is_invalid() {
    assert_eq!(parse_request(b"GET / HTTP/1.1\r\nA:1\r\n\r\n"), Err(ParseError::Invalid));
}

#[test]
fn header_without_crlf_is_incomplete() {
    assert_eq!(parse_request(b"GET / HTTP/1.1\r\nA: 1"), Err(ParseError::Incomplete));
}

#[test]
fn remainder_is_returned_verbatim() {
    let (_, rest) = req(b"GET / HTTP/1.1\r\n\r\nbody bytes");
    assert_eq!(rest, b"\r\nbody bytes");
}

#[test]
fn trailing_zero_padding_lands_in_remainder() {
    let (r, rest) = req(b"GET / HTTP/1.1\r\n\r\n\0\0\0");
    assert_eq!(r.path, b"/");
    assert_eq!(rest, b"\r\n\0\0\0");
}

#[test]
fn version_is_not_validated() {
    let (r, _) = req(b"GET / ABC\r\n\r\n");
    assert_eq!(r.version, b"ABC");
}

#[test]
fn parsing_twice_gives_identical_requests() {
    let input = b"GET /echo/xyz HTTP/1.1\r\nUser-Agent: t\r\n\r\n";
    let first = req(input);
    let second = req(input);
    assert_eq!(first, second);
}

#[test]
fn parse_headers_stops_at_first_line_without_colon() {
    let (hs, rest) = parse_headers(b"A: 1\r\nB: 2\r\nxyz").expect("headers should parse");
    assert_eq!(hs, vec![(b"A".to_vec(), b"1".to_vec()), (b"B".to_vec(), b"2".to_vec())]);
    assert_eq!(rest, b"xyz");
}

#[test]
fn parse_headers_on_colonless_input_consumes_nothing() {
    let (hs, rest) = parse_headers(b"\r\n").expect("headers should parse");
    assert!(hs.is_empty());
    assert_eq!(rest, b"\r\n");
}
