use supplier_api::request::parse_request;

#[test]
fn request_parts_are_split() {
    let raw = "POST /api/supplier HTTP/1.1\r\nHost: localhost\r\nContent-Type: application/json\r\n\r\n{\"name\": \"Acme\"}\r\n";
    let head = parse_request(raw).unwrap();
    assert_eq!(head.method, "POST");
    assert_eq!(head.path, "/api/supplier");
    assert_eq!(head.http_version, "HTTP/1.1");
    assert_eq!(
        head.headers,
        vec![
            ("Host".to_string(), "localhost".to_string()),
            ("Content-Type".to_string(), "application/json".to_string())
        ]
    );
    assert_eq!(head.body, "{\"name\": \"Acme\"}");
}

#[test]
fn request_without_body_or_version() {
    let head = parse_request("GET /api HTTP/1.1\nAccept: */*").unwrap();
    assert_eq!(head.path, "/api");
    assert_eq!(head.headers.len(), 1);
    assert_eq!(head.body, "");
    assert!(parse_request("GET /api").is_none());
    assert!(parse_request("").is_none());
    assert!(parse_request("\r\nGET / HTTP/1.1").is_none());
}

#[test]
fn header_lines_without_colon_are_skipped() {
    let head = parse_request("GET / HTTP/1.1\r\nbroken\r\nX-A :  b:c \r\n\r\nline one\r\nline two\r\n").unwrap();
    assert_eq!(head.headers, vec![("X-A".to_string(), "b:c".to_string())]);
    assert_eq!(head.body, "line one\nline two");
}
