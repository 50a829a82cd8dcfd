use weblite::header::RequestHeader;
use weblite::request::{Method, Request, RequestError};

#[test]
fn test_http_request_parsing_single_receive() {
    let req = "GET / HTTP/1.1\r\nContent-Length: 0\r\n\r\n".as_bytes();

    let req = Request::parse(req).unwrap();
    assert!(req.method == Method::GET);
    assert!(req.path == "/");
    assert!(req.content_length == 0, "{:?}", req);

    let req = "GET /index.html HTTP/1.1\r\nContent-Length: 3\r\n\r\nabc".as_bytes();

    let req = Request::parse(req).unwrap();
    assert!(req.method == Method::GET);
    assert!(req.path == "/index.html");
    assert!(req.content_length == 3, "{:?}", req);
    assert_eq!(req.get_body(), Some("abc".as_bytes()));

    let req = "GET /index.html HTTP/1.1\r\ncontent-type: application/json\r\ncontent-length: 3\r\naccept: application/json\r\nAccept-Encoding: gzip\r\n\r\nabc".as_bytes();

    let req = Request::parse(req).unwrap();
    assert!(req.method == Method::GET);
    assert!(req.path == "/index.html");
    assert!(req.content_length == 3, "{:?}", req);
    assert_eq!(req.content_type, Some("application/json"));
    assert_eq!(
        req.get_header(RequestHeader::ContentType("")),
        Some(RequestHeader::ContentType("application/json"))
    );
    assert_eq!(
        req.get_header(RequestHeader::AcceptEncoding("")),
        Some(RequestHeader::AcceptEncoding("gzip"))
    );
    assert_eq!(
        req.get_header(RequestHeader::Accept("")),
        Some(RequestHeader::Accept("application/json"))
    );
    assert_eq!(req.get_body(), Some("abc".as_bytes()));
}

#[test]
fn test_http_request_parsing_multiple_updates() {
    let mut http_buf = [0u8; 1024];
    let req_part_one = "GET / HTTP/1.1\r\nContentType:".as_bytes();
    let req_part_two = "application/json\r\n\r\n".as_bytes();

    http_buf[..req_part_one.len()].copy_from_slice(&req_part_one);
    http_buf[req_part_one.len()..req_part_one.len() + req_part_two.len()]
        .copy_from_slice(&req_part_two);

    let req = Request::parse(&http_buf[..]).unwrap();
    assert!(req.method == Method::GET);
    assert!(req.path == "/");
}

#[test]
fn a_request_without_a_body_has_none() {
    let req = Request::parse(b"GET / HTTP/1.1\r\nContent-Length: 0\r\n\r\n").unwrap();
    assert_eq!(req.get_body(), None);
    assert_eq!(req.host, "");
    assert_eq!(req.content_type, None);
    assert_eq!(req.user_agent, None);
    assert_eq!(req.header_slice, Some("Content-Length: 0\r\n".as_bytes()));
}

#[test]
fn a_request_without_headers_keeps_no_header_block() {
    let req = Request::parse(b"GET / HTTP/1.1\r\n\r\n").unwrap();
    assert_eq!(req.header_slice, None);
    assert_eq!(req.get_header(RequestHeader::Host("")), None);
}

#[test]
fn a_split_request_parses_like_a_whole_one() {
    let whole = "POST /submit HTTP/1.1\r\nHost: example\r\nContent-Length: 3\r\n\r\nabc".as_bytes();
    let single = Request::parse(whole).unwrap();
    for cut in 0..whole.len() {
        let mut buffer = Vec::new();
        buffer.extend_from_slice(&whole[..cut]);
        let first = Request::parse(&buffer);
        assert!(matches!(first, Err(RequestError::Incomplete(_))), "cut at {}", cut);
        buffer.extend_from_slice(&whole[cut..]);
        let again = Request::parse(&buffer).unwrap();
        assert_eq!(again.method, single.method);
        assert_eq!(again.path, single.path);
        assert_eq!(again.host, single.host);
        assert_eq!(again.content_length, single.content_length);
        assert_eq!(again.get_body(), single.get_body());
        assert_eq!(again.header_slice, single.header_slice);
    }
}

#[test]
fn the_cached_headers_are_trimmed() {
    let req = Request::parse(
        b"PUT /a?b=c HTTP/1.1\r\n  Host :  example.org  \r\nUser-Agent:\tcurl/8 \r\nCONTENT-TYPE:text/plain\r\n\r\n",
    )
    .unwrap();
    assert_eq!(req.method, Method::PUT);
    assert_eq!(req.path, "/a?b=c");
    assert_eq!(req.host, "example.org");
    assert_eq!(req.user_agent, Some("curl/8"));
    assert_eq!(req.content_type, Some("text/plain"));
    assert_eq!(req.content_length, 0);
}

#[test]
fn trimming_takes_unicode_whitespace_too() {
    let req = Request::parse("GET / HTTP/1.1\r\nHost:\u{a0}\u{2003}h\u{3000}\r\n\r\n".as_bytes()).unwrap();
    assert_eq!(req.host, "h");
}

#[test]
fn the_last_of_repeated_headers_is_cached_and_the_first_is_looked_up() {
    let req = Request::parse(b"GET / HTTP/1.1\r\nHost: a\r\nHost: b\r\n\r\n").unwrap();
    assert_eq!(req.host, "b");
    assert_eq!(req.get_header(RequestHeader::Host("")), Some(RequestHeader::Host("a")));
}

#[test]
fn every_method_is_read() {
    let cases = [
        ("GET", Method::GET),
        ("POST", Method::POST),
        ("PUT", Method::PUT),
        ("PATCH", Method::PATCH),
        ("DELETE", Method::DELETE),
        ("OPTIONS", Method::OPTIONS),
        ("HEAD", Method::HEAD),
    ];
    for (name, method) in cases {
        let text = format!("{} /x HTTP/1.1\r\n\r\n", name);
        let req = Request::parse(text.as_bytes()).unwrap();
        assert_eq!(req.method, method);
        assert_eq!(Method::try_from(name.as_bytes()), Ok(method));
    }
    assert_eq!(Method::try_from("get".as_bytes()), Err("unknown http method"));
    assert_eq!(Method::try_from("".as_bytes()), Err("unknown http method"));
}

#[test]
fn an_unknown_method_is_a_protocol_error() {
    assert_eq!(
        Request::parse(b"FETCH / HTTP/1.1\r\n\r\n").unwrap_err(),
        RequestError::ProtocolError("unknown http method")
    );
    assert_eq!(
        Request::parse(b"get / HTTP/1.1\r\n").unwrap_err(),
        RequestError::ProtocolError("unknown http method")
    );
}

#[test]
fn a_missing_path_is_a_protocol_error() {
    assert_eq!(
        Request::parse(b"GET\r\n\r\n").unwrap_err(),
        RequestError::ProtocolError("malformed HTTP request")
    );
    assert_eq!(
        Request::parse(b"GET  HTTP/1.1\r\n\r\n").unwrap_err(),
        RequestError::ProtocolError("malformed HTTP request")
    );
    assert_eq!(
        Request::parse(b"GET\r\n").unwrap_err(),
        RequestError::ProtocolError("malformed HTTP request")
    );
}

#[test]
fn a_blank_first_line_is_a_protocol_error() {
    assert_eq!(
        Request::parse(b"\r\nGET / HTTP/1.1\r\n\r\n").unwrap_err(),
        RequestError::ProtocolError("malformed HTTP request")
    );
    assert_eq!(
        Request::parse(b"\r\n").unwrap_err(),
        RequestError::ProtocolError("malformed HTTP request")
    );
}

#[test]
fn a_missing_version_is_a_protocol_error() {
    assert_eq!(
        Request::parse(b"GET /\r\n\r\n").unwrap_err(),
        RequestError::ProtocolError("malformed http request")
    );
    assert_eq!(
        Request::parse(b"GET / \r\n\r\n").unwrap_err(),
        RequestError::ProtocolError("malformed http request")
    );
    assert_eq!(
        Request::parse(b"POST /index.html\r\nHost: a\r\n\r\n").unwrap_err(),
        RequestError::ProtocolError("malformed http request")
    );
    // the request line is judged as soon as it is complete
    assert_eq!(
        Request::parse(b"GET /\r\n").unwrap_err(),
        RequestError::ProtocolError("malformed http request")
    );
}

#[test]
fn the_version_must_be_there_and_is_not_looked_at() {
    let req = Request::parse(b"GET / anything at all\r\n\r\n").unwrap();
    assert_eq!(req.path, "/");
    let req = Request::parse(b"GET / 1\r\n\r\n").unwrap();
    assert_eq!(req.path, "/");
    let req = Request::parse(b"GET /  \r\n\r\n").unwrap();
    assert_eq!(req.path, "/");
}

#[test]
fn bytes_that_are_no_text_are_a_protocol_error() {
    assert_eq!(
        Request::parse(b"GET / HTTP/1.1\r\nContent-Length: 1\r\n\r\n\xff").unwrap_err(),
        RequestError::ProtocolError("http request is not valid utf8")
    );
    assert_eq!(
        Request::parse(b"\xc3").unwrap_err(),
        RequestError::ProtocolError("http request is not valid utf8")
    );
}

#[test]
fn a_content_length_that_is_no_number_is_a_protocol_error() {
    assert_eq!(
        Request::parse(b"GET / HTTP/1.1\r\nContent-Length: three\r\n\r\n").unwrap_err(),
        RequestError::ProtocolError("invalid content-length")
    );
    assert_eq!(
        Request::parse(b"GET / HTTP/1.1\r\nContent-Length:\r\n\r\n").unwrap_err(),
        RequestError::ProtocolError("invalid content-length")
    );
}

#[test]
fn a_buffer_without_the_blank_line_is_incomplete() {
    assert_eq!(Request::parse(b"").unwrap_err(), RequestError::Incomplete(None));
    assert_eq!(Request::parse(b"GET / HT").unwrap_err(), RequestError::Incomplete(None));
    assert_eq!(
        Request::parse(b"GET / HTTP/1.1\r\nHost: a\r\n").unwrap_err(),
        RequestError::Incomplete(None)
    );
    assert_eq!(
        Request::parse(b"GET / HTTP/1.1\r\nHost: a\r\n\r").unwrap_err(),
        RequestError::Incomplete(None)
    );
}

#[test]
fn a_short_body_is_incomplete_with_the_announced_length() {
    assert_eq!(
        Request::parse(b"POST / HTTP/1.1\r\nContent-Length: 5\r\n\r\nabc").unwrap_err(),
        RequestError::Incomplete(Some(5))
    );
    let req = Request::parse(b"POST / HTTP/1.1\r\nContent-Length: 5\r\n\r\nabcdefgh").unwrap();
    assert_eq!(req.get_body(), Some("abcde".as_bytes()));
}

#[test]
fn a_line_without_a_colon_is_passed_over() {
    let req = Request::parse(b"GET / HTTP/1.1\r\nnonsense\r\nHost: a\r\n\r\n").unwrap();
    assert_eq!(req.host, "a");
    assert_eq!(req.header_slice, Some("nonsense\r\nHost: a\r\n".as_bytes()));
    assert_eq!(req.get_header(RequestHeader::Host("")), Some(RequestHeader::Host("a")));
}

#[test]
fn other_headers_are_found_by_name_without_regard_to_case() {
    let req = Request::parse(b"GET / HTTP/1.1\r\nX-Trace: 1\r\nx-other: 2\r\n\r\n").unwrap();
    assert_eq!(
        req.get_header(RequestHeader::Other("X-OTHER", "")),
        Some(RequestHeader::Other("x-other", "2"))
    );
    assert_eq!(
        req.get_header(RequestHeader::Other("x-trace", "ignored")),
        Some(RequestHeader::Other("X-Trace", "1"))
    );
    assert_eq!(req.get_header(RequestHeader::Other("X-None", "")), None);
    assert_eq!(req.get_header(RequestHeader::Host("")), None);
}

#[test]
fn a_value_keeps_the_colons_after_the_first() {
    let req = Request::parse(b"GET / HTTP/1.1\r\nHost: example.org:8080\r\n\r\n").unwrap();
    assert_eq!(req.host, "example.org:8080");
}

#[test]
fn the_line_functions_work_on_a_request_at_hand() {
    let mut req = Request::parse(b"GET /a HTTP/1.1\r\n\r\n").unwrap();
    assert_eq!(req.parse_request_line(b"POST /b HTTP/1.1"), Ok(()));
    assert_eq!(req.method, Method::POST);
    assert_eq!(req.path, "/b");
    assert_eq!(
        req.parse_request_line(b"DELETE"),
        Err(RequestError::ProtocolError("malformed HTTP request"))
    );
    assert_eq!(
        req.parse_request_line(b"DELETE "),
        Err(RequestError::ProtocolError("malformed HTTP request"))
    );
    assert_eq!(
        req.parse_request_line(b"DELETE  HTTP/1.1"),
        Err(RequestError::ProtocolError("malformed HTTP request"))
    );
    assert_eq!(
        req.parse_request_line(b"GET /"),
        Err(RequestError::ProtocolError("malformed http request"))
    );
    assert_eq!(
        req.parse_request_line(b"DELETE /c "),
        Err(RequestError::ProtocolError("malformed http request"))
    );
    assert_eq!(
        req.parse_request_line(b"DELETE \xff HTTP/1.1"),
        Err(RequestError::ProtocolError("http request is not valid utf8"))
    );
    // a line that is refused changes nothing
    assert_eq!(req.method, Method::POST);
    assert_eq!(req.path, "/b");
    assert_eq!(req.parse_request_line(b"DELETE /c HTTP/1.1"), Ok(()));
    assert_eq!(req.method, Method::DELETE);
    assert_eq!(req.path, "/c");
    assert_eq!(req.parse_request_line(b"PUT /b HTTP/1.1"), Ok(()));
    assert_eq!(
        req.parse_request_line(b"NOPE /c HTTP/1.1"),
        Err(RequestError::ProtocolError("unknown http method"))
    );
    assert_eq!(
        req.parse_request_line(b"NOPE"),
        Err(RequestError::ProtocolError("unknown http method"))
    );
    assert_eq!(req.method, Method::PUT);
    assert_eq!(req.path, "/b");
    assert_eq!(req.parse_header_line(b"content-length: 12"), Ok(()));
    assert_eq!(req.content_length, 12);
    assert_eq!(
        req.parse_header_line(b"content-length: 1x"),
        Err(RequestError::ProtocolError("invalid content-length"))
    );
    assert_eq!(req.content_length, 12);
    assert_eq!(req.parse_header_line(b"ETag: \"x\""), Ok(()));
    assert_eq!(req.resolve_header(b"ETag: \"x\""), Ok(Some(RequestHeader::ETag("\"x\""))));
    assert_eq!(req.resolve_header(b"no colon"), Ok(None));
    assert_eq!(
        req.resolve_header(b"Host: \xff"),
        Err(RequestError::ProtocolError("http request is not valid utf8"))
    );
}
