use aegis::bytes::find_subslice;
use aegis::http::{
    parse_response, parse_target, prepare_request, request_head, ResponseError, TargetError,
};

#[test]
fn parse_target_defaults_and_scheme() {
    let t = parse_target("http://127.0.0.1:8080").unwrap();
    assert_eq!(t.authority, "127.0.0.1:8080");
    assert_eq!(t.host_header, "127.0.0.1:8080");

    // Bare host:port (no scheme).
    let t = parse_target("127.0.0.1:9000").unwrap();
    assert_eq!(t.authority, "127.0.0.1:9000");

    // Default port when omitted; Host header drops the default port.
    let t = parse_target("http://example.test").unwrap();
    assert_eq!(t.authority, "example.test:80");
    assert_eq!(t.host_header, "example.test");

    // A pasted trailing path is ignored for connection purposes.
    let t = parse_target("http://127.0.0.1:8080/api/v1/agents").unwrap();
    assert_eq!(t.authority, "127.0.0.1:8080");
}

#[test]
fn parse_target_ipv6() {
    let t = parse_target("http://[::1]:8080").unwrap();
    assert_eq!(t.authority, "[::1]:8080");
    assert_eq!(t.host_header, "[::1]:8080");
}

#[test]
fn parse_target_rejects_https_and_empty() {
    assert!(parse_target("https://127.0.0.1:8080").is_err());
    assert!(parse_target("http://").is_err());
}

#[test]
fn parse_target_edge_cases() {
    let t = parse_target("  http://host:81?x=1 \n").unwrap();
    assert_eq!(t.authority, "host:81");
    assert_eq!(t.host_header, "host:81");
    let t = parse_target("[::1]").unwrap();
    assert_eq!(t.authority, "[::1]:80");
    assert_eq!(t.host_header, "[::1]");
    // A trailing colon names no port.
    let t = parse_target("host:").unwrap();
    assert_eq!(t.authority, "host::80");
    let t = parse_target("host:+65535").unwrap();
    assert_eq!(t.authority, "host:65535");
    assert!(matches!(parse_target("https://x"), Err(TargetError::HttpsUnsupported)));
    assert!(matches!(parse_target("/path"), Err(TargetError::EmptyAddress)));
    match parse_target("[::1") {
        Err(TargetError::MalformedIpv6(a)) => assert_eq!(a, "[::1"),
        other => panic!("unexpected: {other:?}"),
    }
    match parse_target("host:65536") {
        Err(TargetError::InvalidPort(p)) => assert_eq!(p, "65536"),
        other => panic!("unexpected: {other:?}"),
    }
    match parse_target("[::1]:x") {
        Err(e) => assert_eq!(e.message(), "invalid port: x"),
        other => panic!("unexpected: {other:?}"),
    }
    assert_eq!(
        parse_target("http://").unwrap_err().message(),
        "empty server address"
    );
}

#[test]
fn request_head_with_and_without_body() {
    assert_eq!(
        request_head("GET", "/x", "h:1", None),
        "GET /x HTTP/1.1\r\nHost: h:1\r\nUser-Agent: aegisctl\r\nAccept: application/json\r\nConnection: close\r\n\r\n"
    );
    assert_eq!(
        request_head("POST", "/x", "h", Some(12)),
        "POST /x HTTP/1.1\r\nHost: h\r\nUser-Agent: aegisctl\r\nAccept: application/json\r\nConnection: close\r\nContent-Type: application/json\r\nContent-Length: 12\r\n\r\n"
    );
    let r = prepare_request("http://a.test", "DELETE", "/t", Some(b"{}")).unwrap();
    assert_eq!(r.authority, "a.test:80");
    assert!(r.head.contains("Host: a.test\r\n"));
    assert!(r.head.contains("Content-Length: 2\r\n"));
    assert!(prepare_request("https://a", "GET", "/", None).is_err());
}

#[test]
fn parse_response_extracts_status_and_body() {
    let raw = b"HTTP/1.1 201 Created\r\nContent-Type: application/json\r\nContent-Length: 2\r\n\r\n{}";
    let r = parse_response(raw).unwrap();
    assert_eq!(r.status, 201);
    assert_eq!(r.body, b"{}");
}

#[test]
fn parse_response_handles_no_content() {
    let raw = b"HTTP/1.1 204 No Content\r\nConnection: close\r\n\r\n";
    let r = parse_response(raw).unwrap();
    assert_eq!(r.status, 204);
    assert!(r.body.is_empty());
}

#[test]
fn parse_response_rejects_garbage() {
    assert!(parse_response(b"").is_err());
    assert!(parse_response(b"not http at all").is_err());
}

#[test]
fn parse_response_error_variants() {
    assert!(matches!(parse_response(b""), Err(ResponseError::Empty)));
    assert!(matches!(
        parse_response(b"HTTP/1.1 200 OK\r\n"),
        Err(ResponseError::NoHeaderTerminator)
    ));
    assert!(matches!(
        parse_response(b"\xff 200\r\n\r\n"),
        Err(ResponseError::NonUtf8StatusLine)
    ));
    assert!(matches!(
        parse_response(b"   \r\n\r\n"),
        Err(ResponseError::EmptyStatusLine)
    ));
    assert!(matches!(
        parse_response(b"HTTP/1.1\r\n\r\n"),
        Err(ResponseError::MissingStatusCode(_))
    ));
    match parse_response(b"HTTP/1.1 abc OK\r\n\r\n") {
        Err(ResponseError::InvalidStatusCode(c)) => assert_eq!(c, "abc"),
        other => panic!("unexpected: {other:?}"),
    }
    // A bare LF terminator is tolerated.
    let r = parse_response(b"HTTP/1.1 200 OK\nX: y\n\nbody").unwrap();
    assert_eq!(r.status, 200);
    assert_eq!(r.body, b"body");
}

#[test]
fn find_subslice_basic() {
    assert_eq!(find_subslice(b"abcde", b"cd"), Some(2));
    assert_eq!(find_subslice(b"abcde", b"xy"), None);
    assert_eq!(find_subslice(b"ab", b"abc"), None);
}

#[test]
fn find_subslice_takes_the_first_match() {
    assert_eq!(find_subslice(b"aXaX", b"aX"), Some(0));
    assert_eq!(find_subslice(b"abc", b""), None);
    assert_eq!(find_subslice(b"abc", b"abc"), Some(0));
}
