use rprxy::http_core::{
    dec_string, parse_request_header, parse_response_header, parse_status_code, HTTPMethod,
    HTTPVersion, ParseError, Request, Response,
};

#[test]
fn method_parse_recognized_tokens() {
    assert_eq!(HTTPMethod::parse("GET"), HTTPMethod::GET);
    assert_eq!(HTTPMethod::parse("POST"), HTTPMethod::POST);
    assert_eq!(HTTPMethod::parse("HEAD"), HTTPMethod::HEAD);
    assert_eq!(HTTPMethod::parse("CONNECT"), HTTPMethod::CONNECT);
    assert_eq!(
        HTTPMethod::parse("PATCH"),
        HTTPMethod::OTHERS(String::from("PATCH"))
    );
}

#[test]
fn method_round_trip() {
    for token in ["GET", "POST", "HEAD", "CONNECT", "PATCH", "TRACE", "put", ""] {
        let once = HTTPMethod::parse(token);
        let again = HTTPMethod::parse(once.to_string().as_str());
        assert_eq!(once, again);
        assert_eq!(once.to_string(), token);
    }
}

#[test]
fn method_default_is_get() {
    assert_eq!(HTTPMethod::default(), HTTPMethod::GET);
}

#[test]
fn version_round_trip() {
    for token in ["HTTP/1.0", "HTTP/1.1", "HTTP/2", "HTTP/3"] {
        let v = HTTPVersion::parse(token).unwrap();
        assert_eq!(v.to_string(), token);
    }
}

#[test]
fn version_rejects_unknown_tokens() {
    for token in ["HTTP/4", "http/1.1", "HTTP/1.2", "", "BOGUS"] {
        match HTTPVersion::parse(token) {
            Err(ParseError::InvalidVersion(s)) => assert_eq!(s, token),
            other => panic!("expected an invalid-version error, got {:?}", other),
        }
    }
}

#[test]
fn version_default_is_1_1() {
    assert_eq!(HTTPVersion::default(), HTTPVersion::HTTPv1_1);
}

#[test]
fn request_header_well_formed() {
    let rl = parse_request_header("GET /foo HTTP/1.1").unwrap();
    assert_eq!(rl.method, HTTPMethod::GET);
    assert_eq!(rl.path, "/foo");
    assert_eq!(rl.version, HTTPVersion::HTTPv1_1);
}

#[test]
fn request_header_unknown_method_is_kept() {
    let rl = parse_request_header("PATCH /x HTTP/2").unwrap();
    assert_eq!(rl.method, HTTPMethod::OTHERS(String::from("PATCH")));
    assert_eq!(rl.path, "/x");
    assert_eq!(rl.version, HTTPVersion::HTTPv2);
}

#[test]
fn request_header_wrong_token_count() {
    assert!(matches!(
        parse_request_header("GET /foo"),
        Err(ParseError::MalformedRequestLine)
    ));
    assert!(matches!(
        parse_request_header("GET /foo HTTP/1.1 extra"),
        Err(ParseError::MalformedRequestLine)
    ));
    assert!(matches!(
        parse_request_header(""),
        Err(ParseError::MalformedRequestLine)
    ));
}

#[test]
fn request_header_bad_version() {
    match parse_request_header("GET /foo BOGUS") {
        Err(ParseError::InvalidVersion(s)) => assert_eq!(s, "BOGUS"),
        other => panic!("expected an invalid-version error, got {:?}", other),
    }
}

#[test]
fn response_header_well_formed() {
    let rl = parse_response_header("HTTP/1.1 200 OK").unwrap();
    assert_eq!(rl.version, HTTPVersion::HTTPv1_1);
    assert_eq!(rl.code, 200);
    assert_eq!(rl.text, "OK");
}

#[test]
fn response_header_reason_keeps_spaces() {
    let rl = parse_response_header("HTTP/1.1 200 OK Extra Words").unwrap();
    assert_eq!(rl.code, 200);
    assert_eq!(rl.text, "OK Extra Words");
}

#[test]
fn response_header_bad_code() {
    match parse_response_header("HTTP/1.1 notanumber OK") {
        Err(ParseError::InvalidStatusCode(s)) => assert_eq!(s, "notanumber"),
        other => panic!("expected an invalid-status-code error, got {:?}", other),
    }
}

#[test]
fn response_header_wrong_token_count() {
    assert!(matches!(
        parse_response_header("HTTP/1.1 200"),
        Err(ParseError::MalformedResponseLine)
    ));
    assert!(matches!(
        parse_response_header(""),
        Err(ParseError::MalformedResponseLine)
    ));
}

#[test]
fn response_header_bad_version_reported_first() {
    match parse_response_header("BOGUS notanumber OK") {
        Err(ParseError::InvalidVersion(s)) => assert_eq!(s, "BOGUS"),
        other => panic!("expected an invalid-version error, got {:?}", other),
    }
}

#[test]
fn status_code_bounds() {
    assert_eq!(parse_status_code("0"), Some(0));
    assert_eq!(parse_status_code("007"), Some(7));
    assert_eq!(parse_status_code("+200"), Some(200));
    assert_eq!(parse_status_code("65535"), Some(65535));
    assert_eq!(parse_status_code("65536"), None);
    assert_eq!(parse_status_code("99999999999999999999"), None);
    assert_eq!(parse_status_code(""), None);
    assert_eq!(parse_status_code("+"), None);
    assert_eq!(parse_status_code("12a3"), None);
    assert_eq!(parse_status_code("-1"), None);
}

#[test]
fn decimal_rendering() {
    assert_eq!(dec_string(0), "0");
    assert_eq!(dec_string(7), "7");
    assert_eq!(dec_string(200), "200");
    assert_eq!(dec_string(65535), "65535");
}

#[test]
fn request_to_bytes_wire_format() {
    let mut req = Request::new();
    req.method = HTTPMethod::GET;
    req.path = String::from("/foo");
    req.version = HTTPVersion::HTTPv1_1;
    req.headers
        .insert(String::from("Host"), String::from("example.com"));
    let bytes = req.to_bytes();
    assert_eq!(bytes, b"GET /foo HTTP/1.1\r\nHost: example.com\r\n".to_vec());
}

#[test]
fn request_to_bytes_is_cached() {
    let mut req = Request::new();
    req.path = String::from("/a");
    req.headers.insert(String::from("A"), String::from("1"));
    req.headers.insert(String::from("B"), String::from("2"));
    let first = req.to_bytes();
    let second = req.to_bytes();
    assert_eq!(first, second);
    // The cache is not invalidated by later mutation.
    req.path = String::from("/changed");
    let third = req.to_bytes();
    assert_eq!(first, third);
}

#[test]
fn request_default_serializes_empty_start_line() {
    let mut req = Request::default();
    assert_eq!(req.to_bytes(), b"GET  HTTP/1.1\r\n".to_vec());
}

#[test]
fn response_to_bytes_wire_format_appends_body() {
    let mut resp = Response::new();
    resp.version = HTTPVersion::HTTPv1_1;
    resp.code = 200;
    resp.text = String::from("OK");
    resp.headers
        .insert(String::from("Connection"), String::from("close"));
    resp.body = b"hello".to_vec();
    let bytes = resp.to_bytes();
    assert_eq!(
        bytes,
        b"HTTP/1.1 200 OK\r\nConnection: close\r\nhello".to_vec()
    );
}

#[test]
fn response_to_bytes_drains_body_and_keeps_cache() {
    let mut resp = Response::new();
    resp.code = 404;
    resp.text = String::from("Not Found");
    resp.body = b"gone".to_vec();
    let first = resp.to_bytes();
    assert!(resp.body.is_empty());
    let second = resp.to_bytes();
    assert_eq!(first, second);
}

#[test]
fn request_to_string_diagnostic() {
    let mut req = Request::new();
    req.path = String::from("/foo");
    req.headers
        .insert(String::from("Host"), String::from("example.com"));
    assert_eq!(
        req.to_string(),
        "GET /foo HTTP/1.1 \n {\"Host\": \"example.com\"}"
    );
}

#[test]
fn response_to_string_diagnostic() {
    let resp = {
        let mut r = Response::new();
        r.code = 200;
        r.text = String::from("OK");
        r
    };
    assert_eq!(resp.to_string(), "HTTP/1.1 200 OK \n {}");
}
