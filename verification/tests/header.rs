use weblite::header::{RequestHeader, RequestHeaderKind, ResponseHeader};

fn line(header: ResponseHeader<'_>) -> Vec<u8> {
    let mut out = Vec::new();
    header.write(&mut out);
    out
}

#[test]
fn known_names_are_matched_without_regard_to_case() {
    assert_eq!(RequestHeader::try_from(("Host", "a")), Ok(RequestHeader::Host("a")));
    assert_eq!(RequestHeader::try_from(("hOsT", "a")), Ok(RequestHeader::Host("a")));
    assert_eq!(RequestHeader::try_from(("USER-AGENT", "b")), Ok(RequestHeader::UserAgent("b")));
    assert_eq!(RequestHeader::try_from(("upgrade", "c")), Ok(RequestHeader::Upgrade("c")));
    assert_eq!(
        RequestHeader::try_from(("sec-websocket-key", "d")),
        Ok(RequestHeader::SecWebSocketKey("d"))
    );
    assert_eq!(RequestHeader::try_from(("accept", "e")), Ok(RequestHeader::Accept("e")));
    assert_eq!(
        RequestHeader::try_from(("accept-language", "f")),
        Ok(RequestHeader::AcceptLanguage("f"))
    );
    assert_eq!(
        RequestHeader::try_from(("accept-encoding", "g")),
        Ok(RequestHeader::AcceptEncoding("g"))
    );
    assert_eq!(RequestHeader::try_from(("referer", "h")), Ok(RequestHeader::Referer("h")));
    assert_eq!(RequestHeader::try_from(("connection", "i")), Ok(RequestHeader::Connection("i")));
    assert_eq!(
        RequestHeader::try_from(("upgrade-insecure-requests", "j")),
        Ok(RequestHeader::UpgradeInsecureRequests("j"))
    );
    assert_eq!(
        RequestHeader::try_from(("if-modified-since", "k")),
        Ok(RequestHeader::IfModifiedSince("k"))
    );
    assert_eq!(
        RequestHeader::try_from(("if-none-match", "l")),
        Ok(RequestHeader::IfNoneMatch("l"))
    );
    assert_eq!(
        RequestHeader::try_from(("cache-control", "m")),
        Ok(RequestHeader::CacheControl("m"))
    );
    assert_eq!(
        RequestHeader::try_from(("content-range", "n")),
        Ok(RequestHeader::ContentRange("n"))
    );
    assert_eq!(RequestHeader::try_from(("content-type", "o")), Ok(RequestHeader::ContentType("o")));
    assert_eq!(
        RequestHeader::try_from(("content-encoding", "p")),
        Ok(RequestHeader::ContentEncoding("p"))
    );
    assert_eq!(
        RequestHeader::try_from(("content-location", "q")),
        Ok(RequestHeader::ContentLocation("q"))
    );
    assert_eq!(
        RequestHeader::try_from(("content-language", "r")),
        Ok(RequestHeader::ContentLanguage("r"))
    );
    assert_eq!(RequestHeader::try_from(("etag", "s")), Ok(RequestHeader::ETag("s")));
}

#[test]
fn content_length_must_be_a_number() {
    assert_eq!(RequestHeader::try_from(("Content-Length", "42")), Ok(RequestHeader::ContentLength(42)));
    assert_eq!(
        RequestHeader::try_from(("content-length", "4 2")),
        Err(Some("invalid content-length"))
    );
    assert_eq!(RequestHeader::try_from(("content-length", "")), Err(Some("invalid content-length")));
}

#[test]
fn an_unknown_name_is_kept_as_it_is() {
    assert_eq!(RequestHeader::try_from(("X-Foo", " Bar ")), Ok(RequestHeader::Other("X-Foo", " Bar ")));
    assert_eq!(RequestHeader::try_from(("Hosts", "a")), Ok(RequestHeader::Other("Hosts", "a")));
    assert_eq!(RequestHeader::try_from(("", "")), Ok(RequestHeader::Other("", "")));
}

#[test]
fn a_header_knows_its_kind() {
    assert_eq!(RequestHeader::Host("a").kind(), RequestHeaderKind::Host);
    assert_eq!(RequestHeader::ContentLength(1).kind(), RequestHeaderKind::ContentLength);
    assert_eq!(RequestHeader::Other("a", "b").kind(), RequestHeaderKind::Other);
    assert!(RequestHeader::Host("").answered_by(&RequestHeader::Host("x")));
    assert!(!RequestHeader::Host("").answered_by(&RequestHeader::ETag("x")));
    assert!(RequestHeader::Other("A-b", "").answered_by(&RequestHeader::Other("a-B", "x")));
    assert!(!RequestHeader::Other("A-b", "").answered_by(&RequestHeader::Other("a-c", "x")));
    assert!(!RequestHeader::Other("Host", "").answered_by(&RequestHeader::Host("x")));
}

#[test]
fn response_headers_are_written_as_lines() {
    assert_eq!(
        line(ResponseHeader::AccessControlAllowOrigin("*")),
        b"Access-Control-Allow-Origin: *\r\n"
    );
    assert_eq!(line(ResponseHeader::Connection("close")), b"Connection: close\r\n");
    assert_eq!(line(ResponseHeader::Date("today")), b"Date: today\r\n");
    assert_eq!(line(ResponseHeader::KeepAlive("timeout=5")), b"Keep-Alive: timeout=5\r\n");
    assert_eq!(line(ResponseHeader::LastModified("then")), b"Last-Modified: then\r\n");
    assert_eq!(line(ResponseHeader::Server("s")), b"Server: s\r\n");
    assert_eq!(line(ResponseHeader::SetCookie("a=b")), b"Set-Cookie: a=b\r\n");
    assert_eq!(line(ResponseHeader::TransferEncoding("gzip")), b"Transfer-Encoding: gzip\r\n");
    assert_eq!(line(ResponseHeader::Vary("*")), b"Vary: *\r\n");
    assert_eq!(line(ResponseHeader::ContentRange("bytes 0-1/2")), b"Content-Range: bytes 0-1/2\r\n");
    assert_eq!(line(ResponseHeader::ContentType("text/html")), b"Content-Type: text/html\r\n");
    assert_eq!(line(ResponseHeader::ContentEncoding("br")), b"Content-Encoding: br\r\n");
    assert_eq!(line(ResponseHeader::ContentLocation("/x")), b"Content-Location: /x\r\n");
    assert_eq!(line(ResponseHeader::ContentLanguage("en")), b"Content-Language: en\r\n");
    assert_eq!(line(ResponseHeader::ETag("\"1\"")), b"ETag: \"1\"\r\n");
    assert_eq!(
        line(ResponseHeader::SecWebSocketAccept(*b"s3pPLMBiTxaQ9kYGzzhZRbK+xOo=")),
        b"Sec-WebSocket-Accept: s3pPLMBiTxaQ9kYGzzhZRbK+xOo=\r\n"
    );
    assert_eq!(line(ResponseHeader::Other("Foo", "Bar")), b"Foo: Bar\r\n");
    assert_eq!(line(ResponseHeader::Server("")), b"Server: \r\n");
}

#[test]
fn a_content_length_of_zero_writes_nothing() {
    assert_eq!(line(ResponseHeader::ContentLength(0)), b"");
    assert_eq!(line(ResponseHeader::ContentLength(1)), b"Content-Length: 1\r\n");
    assert_eq!(line(ResponseHeader::ContentLength(114)), b"Content-Length: 114\r\n");
}

#[test]
fn a_header_is_appended_to_what_is_there() {
    let mut out = b"HTTP/1.1 200 OK\r\n".to_vec();
    ResponseHeader::ContentType("a/b").write(&mut out);
    ResponseHeader::ContentLength(0).write(&mut out);
    ResponseHeader::ContentLength(7).write(&mut out);
    assert_eq!(out, b"HTTP/1.1 200 OK\r\nContent-Type: a/b\r\nContent-Length: 7\r\n");
}
