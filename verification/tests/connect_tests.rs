use secure_proxy::connect::{head_complete, parse_connect_request, parse_request_line};

#[test]
fn parses_host_and_port() {
    let head = b"CONNECT example.com:8443 HTTP/1.1\r\nHost: example.com\r\n\r\n";
    let (host, port) = parse_connect_request(head).expect("should parse");
    assert_eq!(host, b"example.com".to_vec());
    assert_eq!(port, 8443);
}

#[test]
fn port_defaults_to_443_when_colon_absent() {
    let head = b"CONNECT example.com HTTP/1.1\r\n\r\n";
    let (host, port) = parse_connect_request(head).expect("should parse");
    assert_eq!(host, b"example.com".to_vec());
    assert_eq!(port, 443);
}

#[test]
fn port_defaults_to_443_when_digits_bad() {
    let head = b"CONNECT example.com:notanumber HTTP/1.1\r\n\r\n";
    let (host, port) = parse_connect_request(head).expect("should parse");
    assert_eq!(host, b"example.com".to_vec());
    assert_eq!(port, 443);
    let head = b"CONNECT example.com:99999 HTTP/1.1\r\n\r\n";
    let (_, port) = parse_connect_request(head).expect("should parse");
    assert_eq!(port, 443);
}

#[test]
fn last_colon_split_keeps_bracketed_ipv6() {
    // Only a bracketed IPv6 authority survives last-colon splitting with the
    // address intact; an unbracketed one is cut at its last colon.
    let head = b"CONNECT [2001:db8::1]:8443 HTTP/1.1\r\n\r\n";
    let (host, port) = parse_connect_request(head).expect("should parse");
    assert_eq!(host, b"[2001:db8::1]".to_vec());
    assert_eq!(port, 8443);
}

#[test]
fn rejects_wrong_method_and_short_lines() {
    assert!(parse_connect_request(b"GET / HTTP/1.1\r\n\r\n").is_none());
    assert!(parse_connect_request(b"CONNECT example.com:443\r\n\r\n").is_none());
    assert!(parse_connect_request(b"\r\n\r\n").is_none());
    assert!(parse_connect_request(b"connect example.com:443 HTTP/1.1\r\n\r\n").is_none());
}

#[test]
fn head_complete_finds_terminator() {
    assert!(head_complete(b"CONNECT a:443 HTTP/1.1\r\n\r\n"));
    assert!(!head_complete(b"CONNECT a:443 HTTP/1.1\r\n"));
    assert!(!head_complete(b""));
}

#[test]
fn head_complete_ignores_terminator_past_ceiling() {
    let mut head = vec![b'X'; 4096];
    head.extend_from_slice(b"\r\n\r\n");
    assert!(!head_complete(&head));
    let mut head = vec![b'X'; 4092];
    head.extend_from_slice(b"\r\n\r\n");
    assert!(head_complete(&head));
}

#[test]
fn request_line_tokens() {
    let (method, path) = parse_request_line(b"GET /v1/users HTTP/1.1\r\nHost: x\r\n\r\n");
    assert_eq!(method, b"GET".to_vec());
    assert_eq!(path, b"/v1/users".to_vec());
}

#[test]
fn request_line_fallback_when_short() {
    let (method, path) = parse_request_line(b"");
    assert_eq!(method, b"?".to_vec());
    assert_eq!(path, b"/".to_vec());
    let (method, path) = parse_request_line(b"GET\r\n");
    assert_eq!(method, b"?".to_vec());
    assert_eq!(path, b"/".to_vec());
}
