use webserver::{
    parse_first_line, parse_non_first_line, parse_request, scan_request, split_lines, Request,
    RequestToken, Response, ResponseHeader, Status,
};

fn s(v: &str) -> String {
    String::from(v)
}

fn assert_headers(r: &Request, expected: [&str; 10]) {
    assert_eq!(r.host(), expected[0]);
    assert_eq!(r.user_agent(), expected[1]);
    assert_eq!(r.accept(), expected[2]);
    assert_eq!(r.upgrade_insecure_requests(), expected[3]);
    assert_eq!(r.accept_language(), expected[4]);
    assert_eq!(r.accept_encoding(), expected[5]);
    assert_eq!(r.cookie(), expected[6]);
    assert_eq!(r.connection(), expected[7]);
    assert_eq!(r.referer(), expected[8]);
    assert_eq!(r.cache_control(), expected[9]);
}

#[test]
fn test_split_lines() {
    let request_fixture =
        "GET /foo HTTP/1.1\r\nHost: localhost:8080\r\nUser-Agent: curl/7.54.0\r\nAccept: */*\r\n";
    assert_eq!(
        split_lines(request_fixture),
        vec!["GET /foo HTTP/1.1", "Host: localhost:8080", "User-Agent: curl/7.54.0", "Accept: */*"]
    );
}

#[test]
fn test_parse_first_line() {
    let first_line_fixture = "GET /foo HTTP/1.1";
    assert_eq!(
        parse_first_line(first_line_fixture).unwrap(),
        (
            RequestToken::Method(s("GET")),
            RequestToken::Url(s("/foo")),
            RequestToken::Version(s("1.1"))
        )
    );
}

#[test]
fn test_parse_non_first_line_host_header() {
    let host_header_fixture = "Host: localhost:8080";
    assert_eq!(
        parse_non_first_line(host_header_fixture).unwrap(),
        (RequestToken::HeaderName(s("Host")), RequestToken::HeaderValue(s("localhost:8080")))
    );
}

#[test]
fn test_parse_non_first_line_user_agent_header() {
    let user_agent_header_fixture = "User-Agent: curl/7.54.0";
    assert_eq!(
        parse_non_first_line(user_agent_header_fixture).unwrap(),
        (RequestToken::HeaderName(s("User-Agent")), RequestToken::HeaderValue(s("curl/7.54.0")))
    );
}

#[test]
fn test_parse_non_first_line_accept_header() {
    let accept_header_fixture = "Accept: */*";
    assert_eq!(
        parse_non_first_line(accept_header_fixture).unwrap(),
        (RequestToken::HeaderName(s("Accept")), RequestToken::HeaderValue(s("*/*")))
    );
}

#[test]
fn test_scan_request() {
    let request_fixture =
        "GET /foo HTTP/1.1\r\nHost: localhost:8080\r\nUser-Agent: curl/7.54.0\r\nAccept: */*\r\n";
    assert_eq!(
        scan_request(request_fixture).unwrap(),
        vec![
            RequestToken::Method(s("GET")),
            RequestToken::Url(s("/foo")),
            RequestToken::Version(s("1.1")),
            RequestToken::HeaderName(s("Host")),
            RequestToken::HeaderValue(s("localhost:8080")),
            RequestToken::HeaderName(s("User-Agent")),
            RequestToken::HeaderValue(s("curl/7.54.0")),
            RequestToken::HeaderName(s("Accept")),
            RequestToken::HeaderValue(s("*/*")),
            RequestToken::EndOfText,
        ]
    );
}

#[test]
fn test_parse_request() {
    let request_fixture =
        "GET /foo HTTP/1.1\r\nHost: localhost:8080\r\nUser-Agent: curl/7.54.0\r\nAccept: */*\r\n";
    let r = parse_request(request_fixture).unwrap();
    assert_eq!(r.method(), "GET");
    assert_eq!(r.url(), "/foo");
    assert_eq!(r.version(), "1.1");
    assert_headers(&r, ["localhost:8080", "curl/7.54.0", "*/*", "", "", "", "", "", "", ""]);
}

#[test]
fn test_parse_request_firefox() {
    let request_fixture = "GET /hello.html HTTP/1.1\r\nHost: localhost:8080\r\nUser-Agent: Mozilla/5.0 (Macintosh; Intel Mac OS X 10.12; rv:58.0) Gecko/20100101 Firefox/58.0\r\nAccept: text/html,application/xhtml+xml,application/xml;q=0.9,*/*;q=0.8\r\nAccept-Language: en,en-US;q=0.7,de;q=0.3\r\nAccept-Encoding: gzip, deflate\r\nReferer: http://localhost:8080/index.html\r\nCookie: JSESSIONID=node0ag061949mqugevd0gpoadofu2.node0;\r\nConnection: keep-alive\r\nUpgrade-Insecure-Requests: 1\r\nCache-Control: max-age=0\r\n\r\n";
    let r = parse_request(request_fixture).unwrap();
    assert_eq!(r.method(), "GET");
    assert_eq!(r.url(), "/hello.html");
    assert_eq!(r.version(), "1.1");
    assert_headers(
        &r,
        [
            "localhost:8080",
            "Mozilla/5.0 (Macintosh; Intel Mac OS X 10.12; rv:58.0) Gecko/20100101 Firefox/58.0",
            "text/html,application/xhtml+xml,application/xml;q=0.9,*/*;q=0.8",
            "1",
            "en,en-US;q=0.7,de;q=0.3",
            "gzip, deflate",
            "JSESSIONID=node0ag061949mqugevd0gpoadofu2.node0;",
            "keep-alive",
            "http://localhost:8080/index.html",
            "max-age=0",
        ],
    );
}

#[test]
fn test_render_response_without_headers() {
    let sut = Response::new(s("1.1"), Status::OK, "Hello, World!".as_bytes().to_vec());
    assert_eq!(sut.render(), "HTTP/1.1 200 OK\r\n\r\nHello, World!".as_bytes().to_vec());
}

#[test]
fn test_render_response_with_headers() {
    let mut sut =
        Response::new(s("1.1"), Status::MethodNotAllowed, "This is not allowed!".as_bytes().to_vec());
    sut.add_header(ResponseHeader::Allow(s("GET, POST, HEAD")));
    assert_eq!(
        sut.render(),
        "HTTP/1.1 405 METHOD NOT ALLOWED\r\nAllow: GET, POST, HEAD\r\n\r\nThis is not allowed!"
            .as_bytes()
            .to_vec()
    );
}

#[test]
fn status_fmt() {
    assert_eq!(Status::OK.text(), "200 OK");
    assert_eq!(Status::NotFound.text(), "404 NOT FOUND");
    assert_eq!(Status::MethodNotAllowed.text(), "405 METHOD NOT ALLOWED");
}

#[test]
fn response_header_fmt() {
    assert_eq!(ResponseHeader::Allow(s("GET, POST, HEAD")).text(), "Allow: GET, POST, HEAD");
}
