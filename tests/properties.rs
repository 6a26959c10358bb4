use webserver::{assemble_request, parse_request, ParseError, RequestToken, Response, ResponseHeader, Status};

fn s(v: &str) -> String {
    String::from(v)
}

fn all_headers_empty(r: &webserver::Request) -> bool {
    r.host().is_empty()
        && r.user_agent().is_empty()
        && r.accept().is_empty()
        && r.accept_language().is_empty()
        && r.accept_encoding().is_empty()
        && r.cookie().is_empty()
        && r.connection().is_empty()
        && r.upgrade_insecure_requests().is_empty()
        && r.referer().is_empty()
        && r.cache_control().is_empty()
}

#[test]
fn empty_input_is_empty_request() {
    assert!(matches!(parse_request(""), Err(ParseError::EmptyRequest)));
}

#[test]
fn blank_input_is_empty_request() {
    assert!(matches!(parse_request(" \r\n\t\r\n "), Err(ParseError::EmptyRequest)));
}

#[test]
fn host_header_is_stored() {
    let r = parse_request("GET /foo HTTP/1.1\r\nHost: localhost:8080\r\n\r\n").unwrap();
    assert_eq!(r.method(), "GET");
    assert_eq!(r.url(), "/foo");
    assert_eq!(r.version(), "1.1");
    assert_eq!(r.host(), "localhost:8080");
    assert_eq!(r.user_agent(), "");
    assert_eq!(r.accept(), "");
    assert_eq!(r.accept_language(), "");
    assert_eq!(r.accept_encoding(), "");
    assert_eq!(r.cookie(), "");
    assert_eq!(r.connection(), "");
    assert_eq!(r.upgrade_insecure_requests(), "");
    assert_eq!(r.referer(), "");
    assert_eq!(r.cache_control(), "");
}

#[test]
fn first_line_only_defaults_headers() {
    let r = parse_request("GET /foo HTTP/1.1").unwrap();
    assert_eq!(r.method(), "GET");
    assert_eq!(r.url(), "/foo");
    assert_eq!(r.version(), "1.1");
    assert!(all_headers_empty(&r));
}

#[test]
fn unknown_header_is_dropped() {
    let with = parse_request("GET / HTTP/1.1\r\nHost: a\r\nX-Custom: 1\r\nAccept: b\r\n").unwrap();
    let without = parse_request("GET / HTTP/1.1\r\nHost: a\r\nAccept: b\r\n").unwrap();
    assert_eq!(with, without);
    assert_eq!(with.host(), "a");
    assert_eq!(with.accept(), "b");
}

#[test]
fn header_names_are_case_sensitive() {
    let r = parse_request("GET / HTTP/1.1\r\nhost: a\r\nHOST: b").unwrap();
    assert_eq!(r.host(), "");
}

#[test]
fn repeated_header_keeps_last_value() {
    let r = parse_request("GET / HTTP/1.1\r\nHost: first\r\nAccept: x\r\nHost: second\r\n").unwrap();
    assert_eq!(r.host(), "second");
    assert_eq!(r.accept(), "x");
}

#[test]
fn header_name_and_value_are_trimmed() {
    let r = parse_request("GET / HTTP/1.1\r\n  Cookie :  a=b; c=d:e  \r\n").unwrap();
    assert_eq!(r.cookie(), "a=b; c=d:e");
}

#[test]
fn empty_lines_between_headers_are_skipped() {
    let r = parse_request("GET / HTTP/1.1\r\nHost: a\r\n\r\nReferer: b").unwrap();
    assert_eq!(r.host(), "a");
    assert_eq!(r.referer(), "b");
}

#[test]
fn unicode_whitespace_is_trimmed() {
    let r = parse_request("\u{3000}\u{a0}POST /x HTTP/2\u{2028}").unwrap();
    assert_eq!(r.method(), "POST");
    assert_eq!(r.url(), "/x");
    assert_eq!(r.version(), "2");
}

#[test]
fn short_request_line_is_malformed() {
    assert!(matches!(parse_request("GET /foo"), Err(ParseError::MalformedRequestLine)));
}

#[test]
fn long_request_line_is_malformed() {
    assert!(matches!(parse_request("GET /foo HTTP/1.1 extra"), Err(ParseError::MalformedRequestLine)));
}

#[test]
fn double_space_in_request_line_is_malformed() {
    assert!(matches!(parse_request("GET  /foo HTTP/1.1"), Err(ParseError::MalformedRequestLine)));
}

#[test]
fn wrong_protocol_is_malformed_version() {
    assert!(matches!(parse_request("GET /foo FTP/1.1"), Err(ParseError::MalformedVersion)));
}

#[test]
fn missing_version_number_is_malformed_version() {
    assert!(matches!(parse_request("GET /foo HTTP/"), Err(ParseError::MalformedVersion)));
}

#[test]
fn header_line_without_colon_is_malformed() {
    assert!(matches!(
        parse_request("GET / HTTP/1.1\r\nHost: a\r\nno colon here"),
        Err(ParseError::MalformedHeaderLine)
    ));
}

#[test]
fn header_name_without_value_is_dangling() {
    let tokens = vec![
        RequestToken::Method(s("GET")),
        RequestToken::Url(s("/")),
        RequestToken::Version(s("1.1")),
        RequestToken::HeaderName(s("Host")),
        RequestToken::EndOfText,
    ];
    match assemble_request(&tokens) {
        Err(ParseError::DanglingHeaderName(n)) => assert_eq!(n, "Host"),
        other => panic!("unexpected result {:?}", other),
    }
}

#[test]
fn header_name_at_end_of_stream_is_dangling() {
    let tokens = vec![
        RequestToken::Method(s("GET")),
        RequestToken::Url(s("/")),
        RequestToken::Version(s("1.1")),
        RequestToken::HeaderName(s("Accept")),
    ];
    match assemble_request(&tokens) {
        Err(ParseError::DanglingHeaderName(n)) => assert_eq!(n, "Accept"),
        other => panic!("unexpected result {:?}", other),
    }
}

#[test]
fn late_first_line_token_is_internal_violation() {
    let tokens = vec![
        RequestToken::Method(s("GET")),
        RequestToken::Url(s("/")),
        RequestToken::Version(s("1.1")),
        RequestToken::Method(s("POST")),
        RequestToken::EndOfText,
    ];
    let e = assemble_request(&tokens).unwrap_err();
    assert!(matches!(e, ParseError::InternalConsistencyViolation));
    assert!(e.is_internal());
    assert!(!ParseError::MalformedHeaderLine.is_internal());
}

#[test]
fn assembled_tokens_give_request() {
    let tokens = vec![
        RequestToken::Method(s("HEAD")),
        RequestToken::Url(s("/a")),
        RequestToken::Version(s("1.0")),
        RequestToken::HeaderName(s("Connection")),
        RequestToken::HeaderValue(s("close")),
        RequestToken::EndOfText,
        RequestToken::HeaderName(s("Host")),
    ];
    let r = assemble_request(&tokens).unwrap();
    assert_eq!(r.method(), "HEAD");
    assert_eq!(r.connection(), "close");
    assert_eq!(r.host(), "");
}

#[test]
fn render_is_repeatable() {
    let mut sut = Response::new(s("1.1"), Status::NotFound, vec![0, 159, 146, 150]);
    sut.add_header(ResponseHeader::ContentLength(4));
    let first = sut.render();
    let second = sut.render();
    assert_eq!(first, second);
    let mut expected = b"HTTP/1.1 404 NOT FOUND\r\nContent-Length: 4\r\n\r\n".to_vec();
    expected.extend_from_slice(&[0, 159, 146, 150]);
    assert_eq!(first, expected);
}

#[test]
fn headers_render_in_insertion_order_with_duplicates() {
    let mut sut = Response::new(s("1.1"), Status::OK, Vec::new());
    sut.add_header(ResponseHeader::Server(s("ws")));
    sut.add_header(ResponseHeader::ContentType(s("text/html; charset=utf-8")));
    sut.add_header(ResponseHeader::AcceptRanges(s("none")));
    sut.add_header(ResponseHeader::Date(s("Wed, 14 Feb 2018 11:27:44 GMT")));
    sut.add_header(ResponseHeader::Server(s("ws")));
    assert_eq!(
        String::from_utf8(sut.render()).unwrap(),
        "HTTP/1.1 200 OK\r\nServer: ws\r\nContent-Type: text/html; charset=utf-8\r\nAccept-Ranges: none\r\nDate: Wed, 14 Feb 2018 11:27:44 GMT\r\nServer: ws\r\n\r\n"
    );
}

#[test]
fn content_length_is_decimal() {
    assert_eq!(ResponseHeader::ContentLength(0).text(), "Content-Length: 0");
    assert_eq!(ResponseHeader::ContentLength(1234).text(), "Content-Length: 1234");
    assert_eq!(
        ResponseHeader::ContentLength(usize::MAX).text(),
        format!("Content-Length: {}", usize::MAX)
    );
}

#[test]
fn non_ascii_version_is_utf8_encoded() {
    let sut = Response::new(s("1.1é"), Status::OK, b"x".to_vec());
    assert_eq!(sut.render(), "HTTP/1.1é 200 OK\r\n\r\nx".as_bytes().to_vec());
}
