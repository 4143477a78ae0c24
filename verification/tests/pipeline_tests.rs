use secure_proxy::ca::CaAuthority;
use secure_proxy::pipeline::{Conn, Ev, Ingress, Op, Outcome, Phase};
use secure_proxy::policy::{HostRule, Mode, PolicySnapshot, Reason};

fn snapshot(mode: Mode, rules: &[(&str, &[&str])]) -> PolicySnapshot {
    PolicySnapshot {
        mode,
        rules: rules
            .iter()
            .map(|(h, ps)| HostRule {
                host: h.as_bytes().to_vec(),
                allowed_paths: ps.iter().map(|p| p.as_bytes().to_vec()).collect(),
            })
            .collect(),
    }
}

fn ca() -> CaAuthority {
    CaAuthority::new().expect("CA generation should succeed")
}

/// Drive a CONNECT-ingress connection up to the dial.
fn connect_until_dial(conn: &mut Conn, ca: &CaAuthority, head: &[u8]) -> (Vec<u8>, u16) {
    match conn.step(ca, Ev::ClientBytes(head.to_vec())) {
        Op::Dial(host, port) => (host, port),
        _ => panic!("expected a dial"),
    }
}

#[test]
fn monitor_passthrough_full_run() {
    let ca = ca();
    let mut conn = Conn::new(snapshot(Mode::Monitor, &[]), Ingress::Connect);
    let (host, port) =
        connect_until_dial(&mut conn, &ca, b"CONNECT example.com:443 HTTP/1.1\r\n\r\n");
    assert_eq!(host, b"example.com".to_vec());
    assert_eq!(port, 443);

    // Dial succeeded: a leaf for the host plus the exact 200 go-ahead.
    match conn.step(&ca, Ev::DialResult(true)) {
        Op::AcceptTls(est, leaf) => {
            assert_eq!(leaf.host, b"example.com".to_vec());
            assert!(!leaf.cert_der.is_empty());
            assert!(!leaf.key_der.is_empty());
            assert_eq!(
                est.expect("CONNECT ingress writes the go-ahead"),
                b"HTTP/1.1 200 Connection Established\r\n\r\n".to_vec()
            );
        }
        _ => panic!("expected the inbound TLS accept"),
    }

    // Inbound handshake done: outbound TLS must use the same name.
    match conn.step(&ca, Ev::InboundTls(true)) {
        Op::ConnectTls(sni) => assert_eq!(sni, b"example.com".to_vec()),
        _ => panic!("expected the outbound TLS connect"),
    }
    assert!(matches!(conn.step(&ca, Ev::OutboundTls(true)), Op::ReadRequest));

    let request = b"GET / HTTP/1.1\r\nHost: example.com\r\n\r\n".to_vec();
    match conn.step(&ca, Ev::FirstRequest(request.clone())) {
        Op::Forward(bytes) => assert_eq!(bytes, request),
        _ => panic!("expected the request to be forwarded"),
    }

    assert_eq!(conn.phase, Phase::Done);
    assert_eq!(conn.outcome, Outcome::Forwarded);
    assert_eq!(conn.events.len(), 1);
    let ev = &conn.events[0];
    assert!(ev.allowed);
    assert_eq!(ev.host, b"example.com".to_vec());
    assert_eq!(ev.path, b"/".to_vec());
    assert_eq!(ev.method, b"GET".to_vec());
    assert_eq!(ev.mode, Mode::Monitor);
    assert_eq!(ev.reason, Reason::MonitorMode);
}

#[test]
fn enforce_host_deny_sends_403_without_dial() {
    let ca = ca();
    let mut conn = Conn::new(
        snapshot(Mode::Enforce, &[("allowed.test", &[])]),
        Ingress::Connect,
    );
    match conn.step(&ca, Ev::ClientBytes(b"CONNECT blocked.test:443 HTTP/1.1\r\n\r\n".to_vec())) {
        Op::WriteThenClose(resp) => assert_eq!(
            resp,
            b"HTTP/1.1 403 Forbidden\r\nContent-Type: text/plain\r\n\r\nHost not allowed".to_vec()
        ),
        _ => panic!("expected the host-blocked response, never a dial"),
    }
    assert_eq!(conn.outcome, Outcome::HostBlocked);
    assert_eq!(conn.events.len(), 1);
    let ev = &conn.events[0];
    assert!(!ev.allowed);
    assert_eq!(ev.host, b"blocked.test".to_vec());
    assert_eq!(ev.path, b"/".to_vec());
    assert_eq!(ev.method, b"CONNECT".to_vec());
    assert_eq!(ev.reason, Reason::HostNotAllowed);
}

#[test]
fn enforce_path_allow_forwards() {
    let ca = ca();
    let mut conn = Conn::new(
        snapshot(Mode::Enforce, &[("api.test", &["/v1/"])]),
        Ingress::Connect,
    );
    connect_until_dial(&mut conn, &ca, b"CONNECT api.test:443 HTTP/1.1\r\n\r\n");
    assert!(matches!(conn.step(&ca, Ev::DialResult(true)), Op::AcceptTls(_, _)));
    assert!(matches!(conn.step(&ca, Ev::InboundTls(true)), Op::ConnectTls(_)));
    assert!(matches!(conn.step(&ca, Ev::OutboundTls(true)), Op::ReadRequest));
    let request = b"GET /v1/users HTTP/1.1\r\n\r\n".to_vec();
    match conn.step(&ca, Ev::FirstRequest(request.clone())) {
        Op::Forward(bytes) => assert_eq!(bytes, request),
        _ => panic!("expected the request to be forwarded"),
    }
    assert_eq!(conn.events.len(), 1);
    assert!(conn.events[0].allowed);
    assert_eq!(conn.events[0].reason, Reason::PathMatch);
}

#[test]
fn enforce_path_deny_sends_canned_403() {
    let ca = ca();
    let mut conn = Conn::new(
        snapshot(Mode::Enforce, &[("api.test", &["/v1/"])]),
        Ingress::Connect,
    );
    connect_until_dial(&mut conn, &ca, b"CONNECT api.test:443 HTTP/1.1\r\n\r\n");
    assert!(matches!(conn.step(&ca, Ev::DialResult(true)), Op::AcceptTls(_, _)));
    assert!(matches!(conn.step(&ca, Ev::InboundTls(true)), Op::ConnectTls(_)));
    assert!(matches!(conn.step(&ca, Ev::OutboundTls(true)), Op::ReadRequest));
    match conn.step(&ca, Ev::FirstRequest(b"GET /v2/admin HTTP/1.1\r\n\r\n".to_vec())) {
        Op::TlsWriteThenClose(resp) => assert_eq!(
            resp,
            b"HTTP/1.1 403 Forbidden\r\nContent-Type: text/plain\r\nContent-Length: 24\r\nConnection: close\r\n\r\nBlocked by Secure Proxy".to_vec()
        ),
        _ => panic!("expected the in-TLS 403, nothing forwarded"),
    }
    assert_eq!(conn.outcome, Outcome::PathBlocked);
    assert_eq!(conn.events.len(), 1);
    assert!(!conn.events[0].allowed);
    assert_eq!(conn.events[0].reason, Reason::PathNotAllowed);
    assert_eq!(conn.events[0].path, b"/v2/admin".to_vec());
    assert_eq!(conn.events[0].method, b"GET".to_vec());
}

#[test]
fn subdomain_suffix_allows_with_host_match() {
    let ca = ca();
    let mut conn = Conn::new(
        snapshot(Mode::Enforce, &[("example.com", &[])]),
        Ingress::Connect,
    );
    connect_until_dial(&mut conn, &ca, b"CONNECT a.b.example.com:443 HTTP/1.1\r\n\r\n");
    assert!(matches!(conn.step(&ca, Ev::DialResult(true)), Op::AcceptTls(_, _)));
    assert!(matches!(conn.step(&ca, Ev::InboundTls(true)), Op::ConnectTls(_)));
    assert!(matches!(conn.step(&ca, Ev::OutboundTls(true)), Op::ReadRequest));
    assert!(matches!(
        conn.step(&ca, Ev::FirstRequest(b"GET /anything HTTP/1.1\r\n\r\n".to_vec())),
        Op::Forward(_)
    ));
    assert_eq!(conn.events.len(), 1);
    assert_eq!(conn.events[0].reason, Reason::HostMatch);
}

#[test]
fn upstream_down_sends_502_with_host() {
    let ca = ca();
    let mut conn = Conn::new(snapshot(Mode::Monitor, &[]), Ingress::Connect);
    connect_until_dial(&mut conn, &ca, b"CONNECT nonexistent.invalid:443 HTTP/1.1\r\n\r\n");
    match conn.step(&ca, Ev::DialResult(false)) {
        Op::WriteThenClose(resp) => assert_eq!(
            resp,
            b"HTTP/1.1 502 Bad Gateway\r\n\r\nFailed to connect to nonexistent.invalid".to_vec()
        ),
        _ => panic!("expected the 502 response"),
    }
    assert_eq!(conn.outcome, Outcome::DialFailed);
    assert!(conn.events.is_empty());
}

#[test]
fn malformed_connect_head_gets_400() {
    let ca = ca();
    let mut conn = Conn::new(snapshot(Mode::Monitor, &[]), Ingress::Connect);
    match conn.step(&ca, Ev::ClientBytes(b"GET / HTTP/1.1\r\n\r\n".to_vec())) {
        Op::WriteThenClose(resp) => {
            assert_eq!(resp, b"HTTP/1.1 400 Bad Request\r\n\r\n".to_vec())
        }
        _ => panic!("expected the 400 response"),
    }
    assert_eq!(conn.outcome, Outcome::BadRequest);
    assert!(conn.events.is_empty());
}

#[test]
fn oversized_connect_head_gets_400() {
    let ca = ca();
    let mut conn = Conn::new(snapshot(Mode::Monitor, &[]), Ingress::Connect);
    // Feed just under the ceiling without a terminator: keep reading.
    assert!(matches!(
        conn.step(&ca, Ev::ClientBytes(vec![b'A'; 4000])),
        Op::ReadMore
    ));
    // Crossing the 4096-byte ceiling without CRLFCRLF fails with 400.
    match conn.step(&ca, Ev::ClientBytes(vec![b'A'; 96])) {
        Op::WriteThenClose(resp) => {
            assert_eq!(resp, b"HTTP/1.1 400 Bad Request\r\n\r\n".to_vec())
        }
        _ => panic!("expected the 400 response"),
    }
    assert_eq!(conn.outcome, Outcome::BadRequest);
}

#[test]
fn connect_head_split_across_reads() {
    let ca = ca();
    let mut conn = Conn::new(snapshot(Mode::Monitor, &[]), Ingress::Connect);
    assert!(matches!(
        conn.step(&ca, Ev::ClientBytes(b"CONNECT exa".to_vec())),
        Op::ReadMore
    ));
    let (host, port) =
        match conn.step(&ca, Ev::ClientBytes(b"mple.com:444 HTTP/1.1\r\n\r\n".to_vec())) {
            Op::Dial(h, p) => (h, p),
            _ => panic!("expected a dial"),
        };
    assert_eq!(host, b"example.com".to_vec());
    assert_eq!(port, 444);
}

#[test]
fn client_eof_gets_400() {
    let ca = ca();
    let mut conn = Conn::new(snapshot(Mode::Monitor, &[]), Ingress::Connect);
    assert!(matches!(
        conn.step(&ca, Ev::ClientBytes(Vec::new())),
        Op::WriteThenClose(_)
    ));
    assert_eq!(conn.outcome, Outcome::BadRequest);
}

fn client_hello(name: &[u8]) -> Vec<u8> {
    let mut hello: Vec<u8> = Vec::new();
    hello.extend_from_slice(&[0x03, 0x03]);
    hello.extend_from_slice(&[0u8; 32]);
    hello.push(0);
    hello.extend_from_slice(&[0x00, 0x02, 0x13, 0x01]);
    hello.extend_from_slice(&[0x01, 0x00]);
    let mut entry: Vec<u8> = Vec::new();
    entry.extend_from_slice(&((name.len() + 3) as u16).to_be_bytes());
    entry.push(0);
    entry.extend_from_slice(&(name.len() as u16).to_be_bytes());
    entry.extend_from_slice(name);
    let mut exts: Vec<u8> = vec![0x00, 0x00];
    exts.extend_from_slice(&(entry.len() as u16).to_be_bytes());
    exts.extend_from_slice(&entry);
    hello.extend_from_slice(&(exts.len() as u16).to_be_bytes());
    hello.extend_from_slice(&exts);
    let mut hs: Vec<u8> = vec![0x01];
    let hl = (hello.len() as u32).to_be_bytes();
    hs.extend_from_slice(&hl[1..]);
    hs.extend_from_slice(&hello);
    let mut rec: Vec<u8> = vec![0x16, 0x03, 0x01];
    rec.extend_from_slice(&(hs.len() as u16).to_be_bytes());
    rec.extend_from_slice(&hs);
    rec
}

#[test]
fn sni_ingress_dials_port_443_after_gate() {
    let ca = ca();
    let mut conn = Conn::new(snapshot(Mode::Monitor, &[]), Ingress::Sni);
    match conn.step(&ca, Ev::Peeked(client_hello(b"example.com"))) {
        Op::Dial(host, port) => {
            assert_eq!(host, b"example.com".to_vec());
            assert_eq!(port, 443);
        }
        _ => panic!("expected a dial"),
    }
    // In SNI ingress there is no 200 go-ahead before the inbound handshake.
    match conn.step(&ca, Ev::DialResult(true)) {
        Op::AcceptTls(est, leaf) => {
            assert!(est.is_none());
            assert_eq!(leaf.host, b"example.com".to_vec());
        }
        _ => panic!("expected the inbound TLS accept"),
    }
}

#[test]
fn sni_ingress_blocked_host_closes_silently() {
    let ca = ca();
    let mut conn = Conn::new(
        snapshot(Mode::Enforce, &[("allowed.test", &[])]),
        Ingress::Sni,
    );
    assert!(matches!(
        conn.step(&ca, Ev::Peeked(client_hello(b"blocked.test"))),
        Op::Close
    ));
    assert_eq!(conn.outcome, Outcome::HostBlocked);
    assert_eq!(conn.events.len(), 1);
    assert_eq!(conn.events[0].reason, Reason::HostNotAllowed);
}

#[test]
fn sni_ingress_garbage_closes_silently_without_event() {
    let ca = ca();
    let mut conn = Conn::new(snapshot(Mode::Enforce, &[]), Ingress::Sni);
    assert!(matches!(
        conn.step(&ca, Ev::Peeked(b"not a client hello".to_vec())),
        Op::Close
    ));
    assert_eq!(conn.outcome, Outcome::SniRejected);
    assert!(conn.events.is_empty());
}

#[test]
fn sni_ingress_dial_failure_closes_without_502() {
    let ca = ca();
    let mut conn = Conn::new(snapshot(Mode::Monitor, &[]), Ingress::Sni);
    assert!(matches!(
        conn.step(&ca, Ev::Peeked(client_hello(b"example.com"))),
        Op::Dial(_, _)
    ));
    assert!(matches!(conn.step(&ca, Ev::DialResult(false)), Op::Close));
    assert_eq!(conn.outcome, Outcome::DialFailed);
}

#[test]
fn empty_first_request_is_gated_as_fallback_tokens() {
    let ca = ca();
    let mut conn = Conn::new(snapshot(Mode::Enforce, &[("api.test", &["/v1/"])]), Ingress::Connect);
    connect_until_dial(&mut conn, &ca, b"CONNECT api.test:443 HTTP/1.1\r\n\r\n");
    assert!(matches!(conn.step(&ca, Ev::DialResult(true)), Op::AcceptTls(_, _)));
    assert!(matches!(conn.step(&ca, Ev::InboundTls(true)), Op::ConnectTls(_)));
    assert!(matches!(conn.step(&ca, Ev::OutboundTls(true)), Op::ReadRequest));
    // An empty read parses as ("?", "/"), which /v1/ does not prefix.
    assert!(matches!(
        conn.step(&ca, Ev::FirstRequest(Vec::new())),
        Op::TlsWriteThenClose(_)
    ));
    assert_eq!(conn.events.len(), 1);
    assert_eq!(conn.events[0].method, b"?".to_vec());
    assert_eq!(conn.events[0].path, b"/".to_vec());
    assert_eq!(conn.events[0].reason, Reason::PathNotAllowed);
}

#[test]
fn failed_handshakes_close_without_events() {
    let ca = ca();
    let mut conn = Conn::new(snapshot(Mode::Monitor, &[]), Ingress::Connect);
    connect_until_dial(&mut conn, &ca, b"CONNECT example.com:443 HTTP/1.1\r\n\r\n");
    assert!(matches!(conn.step(&ca, Ev::DialResult(true)), Op::AcceptTls(_, _)));
    assert!(matches!(conn.step(&ca, Ev::InboundTls(false)), Op::Close));
    assert_eq!(conn.outcome, Outcome::TlsFailed);
    assert!(conn.events.is_empty());
}
