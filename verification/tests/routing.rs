use http_server::connection::{handle_request, Action, ConnectionError};
use http_server::parser::parse_request;
use http_server::response::{content_response, file_response, not_found_response, text_response};
use http_server::router::{dispatch, RouteOutcome};

fn respond_bytes(input: &[u8]) -> Vec<u8> {
    match handle_request(input).expect("request should be handled") {
        Action::Respond(b) => b,
        Action::ServeFile(n) => panic!("unexpected file serve of {:?}", n),
    }
}

#[test]
fn root_probe_gets_bare_ok() {
    assert_eq!(respond_bytes(b"GET / HTTP/1.1\r\n\r\n"), b"HTTP/1.1 200 OK\r\n\r\n");
}

#[test]
fn echo_returns_path_suffix_verbatim() {
    assert_eq!(
        respond_bytes(b"GET /echo/abc HTTP/1.1\r\n\r\n"),
        b"HTTP/1.1 200 OK\r\nContent-Type: text/plain\r\nContent-Length: 3\r\n\r\nabc"
    );
}

#[test]
fn echo_does_not_strip_a_query_string() {
    assert_eq!(
        respond_bytes(b"GET /echo/x?y=1 HTTP/1.1\r\n\r\n"),
        b"HTTP/1.1 200 OK\r\nContent-Type: text/plain\r\nContent-Length: 5\r\n\r\nx?y=1"
    );
}

#[test]
fn echo_of_nothing_has_zero_length_body() {
    assert_eq!(
        respond_bytes(b"GET /echo/ HTTP/1.1\r\n\r\n"),
        b"HTTP/1.1 200 OK\r\nContent-Type: text/plain\r\nContent-Length: 0\r\n\r\n"
    );
}

#[test]
fn invalid_utf8_is_echoed_with_replacement() {
    assert_eq!(
        respond_bytes(b"GET /echo/\xFF HTTP/1.1\r\n\r\n"),
        b"HTTP/1.1 200 OK\r\nContent-Type: text/plain\r\nContent-Length: 3\r\n\r\n\xEF\xBF\xBD"
    );
}

#[test]
fn valid_utf8_is_echoed_unchanged() {
    assert_eq!(
        respond_bytes(b"GET /echo/\xC3\xA9 HTTP/1.1\r\n\r\n"),
        b"HTTP/1.1 200 OK\r\nContent-Type: text/plain\r\nContent-Length: 2\r\n\r\n\xC3\xA9"
    );
}

#[test]
fn user_agent_header_is_reflected() {
    assert_eq!(
        respond_bytes(b"GET /user-agent HTTP/1.1\r\nUser-Agent: test-agent\r\n\r\n"),
        b"HTTP/1.1 200 OK\r\nContent-Type: text/plain\r\nContent-Length: 10\r\n\r\ntest-agent"
    );
}

#[test]
fn missing_user_agent_falls_back_to_placeholder() {
    assert_eq!(
        respond_bytes(b"GET /user-agent HTTP/1.1\r\n\r\n"),
        b"HTTP/1.1 200 OK\r\nContent-Type: text/plain\r\nContent-Length: 7\r\n\r\nUnknown"
    );
}

#[test]
fn first_user_agent_header_wins() {
    assert_eq!(
        respond_bytes(b"GET /user-agent HTTP/1.1\r\nUser-Agent: one\r\nUser-Agent: two\r\n\r\n"),
        b"HTTP/1.1 200 OK\r\nContent-Type: text/plain\r\nContent-Length: 3\r\n\r\none"
    );
}

#[test]
fn unmatched_path_is_not_found_for_get_and_post() {
    let expected = b"HTTP/1.1 404 Not Found\r\n\r\n";
    assert_eq!(respond_bytes(b"GET /nope HTTP/1.1\r\n\r\n"), expected);
    assert_eq!(respond_bytes(b"POST /nope HTTP/1.1\r\n\r\n"), expected);
}

#[test]
fn files_route_asks_for_the_named_file() {
    let action = handle_request(b"GET /files/foo.txt HTTP/1.1\r\n\r\n").unwrap();
    assert_eq!(action, Action::ServeFile(b"foo.txt".to_vec()));
}

#[test]
fn served_file_bytes_are_returned_exactly() {
    assert_eq!(
        file_response(b"hello"),
        b"HTTP/1.1 200 OK\r\nContent-Type: application/octet-stream\r\nContent-Length: 5\r\n\r\nhello"
    );
}

#[test]
fn parse_failure_surfaces_as_parsing_error() {
    match handle_request(b"PUT / HTTP/1.1\r\n\r\n") {
        Err(ConnectionError::ParsingError(s)) => assert_eq!(s, "malformed request"),
        other => panic!("expected a parsing error, got {:?}", other),
    }
    match handle_request(b"GET /pa") {
        Err(ConnectionError::ParsingError(s)) => assert_eq!(s, "incomplete request"),
        other => panic!("expected a parsing error, got {:?}", other),
    }
}

#[test]
fn dispatch_ignores_the_method() {
    let (get_req, _) = parse_request(b"GET /echo/v HTTP/1.1\r\n\r\n").unwrap();
    let (post_req, _) = parse_request(b"POST /echo/v HTTP/1.1\r\n\r\n").unwrap();
    assert_eq!(dispatch(&get_req), dispatch(&post_req));
    assert_eq!(dispatch(&get_req), RouteOutcome::Echo(b"v".to_vec()));
}

#[test]
fn routes_are_matched_in_priority_order() {
    let (r, _) = parse_request(b"GET / HTTP/1.1\r\n\r\n").unwrap();
    assert_eq!(dispatch(&r), RouteOutcome::Root);
    let (r, _) = parse_request(b"GET /files/a/b HTTP/1.1\r\n\r\n").unwrap();
    assert_eq!(dispatch(&r), RouteOutcome::FileServe(b"a/b".to_vec()));
    let (r, _) = parse_request(b"GET /user-agent-x HTTP/1.1\r\n\r\n").unwrap();
    assert_eq!(dispatch(&r), RouteOutcome::NotFound);
}

#[test]
fn content_length_renders_multi_digit_lengths() {
    let r = content_response(b"text/plain", &[b'a'; 120]);
    let expected_head = b"HTTP/1.1 200 OK\r\nContent-Type: text/plain\r\nContent-Length: 120\r\n\r\n";
    assert_eq!(&r[..expected_head.len()], expected_head.as_slice());
    assert_eq!(r.len(), expected_head.len() + 120);
}

#[test]
fn text_response_is_plain_text() {
    assert_eq!(
        text_response(b"hi"),
        b"HTTP/1.1 200 OK\r\nContent-Type: text/plain\r\nContent-Length: 2\r\n\r\nhi"
    );
}

#[test]
fn not_found_response_has_no_headers_or_body() {
    assert_eq!(not_found_response(), b"HTTP/1.1 404 Not Found\r\n\r\n");
}
