use socks6_app::error::{ProxyError, Socks6Request};
use socks6_app::socks6::{
    connect_request, method_request, target_request, parse_auth_reply, parse_method_choice, parse_reply,
    udp_associate_request, user_pass_request, AuthMethod, Credentials, Socks6Handshake,
    Socks6Stage, Socks6Step,
};
use socks6_app::socks5::{parse_request, target_host, Socks5Target};
use socks6_app::text::{format_ipv4, parse_ipv4};
use socks6_app::wire::Scan;

fn creds() -> Credentials {
    Credentials { user: "alice".to_string(), pass: "pw".to_string() }
}

#[test]
fn method_request_offers_one_method() {
    assert_eq!(method_request(false), vec![6, 1, 0]);
    assert_eq!(method_request(true), vec![6, 1, 2]);
}

#[test]
fn method_choice_outcomes() {
    assert!(matches!(parse_method_choice(&[6], false), Ok(Scan::Need(2))));
    assert!(matches!(parse_method_choice(&[6, 0], true), Ok(Scan::Done(AuthMethod::NoAuth))));
    assert!(matches!(parse_method_choice(&[6, 2], true), Ok(Scan::Done(AuthMethod::UserPass))));
    assert_eq!(parse_method_choice(&[6, 2], false).err(), Some(ProxyError::AuthRequired));
    assert_eq!(parse_method_choice(&[6, 0xff], false).err(), Some(ProxyError::AuthMethodsRejected));
    assert_eq!(parse_method_choice(&[6, 1], false).err(), Some(ProxyError::UnsupportedMethod(1)));
    assert_eq!(parse_method_choice(&[5, 0], false).err(), Some(ProxyError::NotSocks6(5)));
}

#[test]
fn user_pass_message_layout() {
    assert_eq!(user_pass_request(&creds()), vec![1, 5, b'a', b'l', b'i', b'c', b'e', 2, b'p', b'w']);
}

#[test]
fn user_pass_length_byte_wraps() {
    let long = Credentials { user: "u".repeat(300), pass: String::new() };
    let m = user_pass_request(&long);
    assert_eq!(m[1], (300 % 256) as u8);
    assert_eq!(m.len(), 1 + 1 + 300 + 1);
}

#[test]
fn auth_reply_looks_at_status_only() {
    assert!(matches!(parse_auth_reply(&[1]), Ok(Scan::Need(2))));
    assert!(matches!(parse_auth_reply(&[9, 0]), Ok(Scan::Done(()))));
    assert_eq!(parse_auth_reply(&[1, 1]).err(), Some(ProxyError::AuthFailed));
}

#[test]
fn connect_request_by_host_kind() {
    assert_eq!(connect_request("10.0.0.1", None, 80), vec![6, 1, 1, 10, 0, 0, 1, 0, 80, 0, 0]);
    let mut v6 = vec![6, 1, 4];
    v6.extend_from_slice(&[0; 15]);
    v6.push(1);
    v6.extend_from_slice(&[1, 0xbb, 0, 0]);
    let mut o = [0u8; 16];
    o[15] = 1;
    assert_eq!(connect_request("[::1]", Some(o), 443), v6);
    let mut d = vec![6, 1, 3, 7];
    d.extend_from_slice(b"a.b.com");
    d.extend_from_slice(&[0x1f, 0x90, 0, 0]);
    assert_eq!(connect_request("a.b.com", None, 8080), d);
    // A leading zero makes it a domain, not an IPv4 literal.
    assert_eq!(connect_request("010.0.0.1", None, 1)[2], 3);
}

#[test]
fn udp_associate_request_bytes() {
    assert_eq!(udp_associate_request(), vec![6, 3, 1, 0, 0, 0, 0, 0, 0, 0, 0]);
}

#[test]
fn reply_is_read_exactly() {
    let r = Socks6Request::Connect;
    assert!(matches!(parse_reply(&[6, 0], r), Ok(Scan::Need(3))));
    assert!(matches!(parse_reply(&[6, 0, 1], r), Ok(Scan::Need(11))));
    assert!(matches!(parse_reply(&[6, 0, 1, 0, 0, 0, 0, 0, 0, 0, 0], r), Ok(Scan::Done(11))));
    assert!(matches!(parse_reply(&[6, 0, 1, 0, 0, 0, 0, 0, 0, 0, 3], r), Ok(Scan::Need(14))));
    assert!(matches!(parse_reply(&[6, 0, 3], r), Ok(Scan::Need(4))));
    assert!(matches!(parse_reply(&[6, 0, 3, 2], r), Ok(Scan::Need(10))));
    assert!(matches!(parse_reply(&[6, 0, 4], r), Ok(Scan::Need(23))));
}

#[test]
fn reply_errors() {
    assert_eq!(parse_reply(&[5, 0, 1], Socks6Request::Connect).err(), Some(ProxyError::InvalidReply(5)));
    assert_eq!(
        parse_reply(&[6, 2, 1], Socks6Request::UdpAssociate).err(),
        Some(ProxyError::RequestRejected(Socks6Request::UdpAssociate, 2))
    );
    assert_eq!(
        parse_reply(&[6, 0, 7], Socks6Request::Connect).err(),
        Some(ProxyError::UnknownReplyAddressType(7))
    );
}

#[test]
fn handshake_without_auth() {
    let mut h = Socks6Handshake::connect(&Socks5Target::Ipv4([1, 2, 3, 4]), None, 80, None);
    match h.step(&[]) {
        Socks6Step::Send(b) => assert_eq!(b, vec![6, 1, 0]),
        other => panic!("{:?}", other),
    }
    assert!(matches!(h.step(&[]), Socks6Step::Read(2)));
    match h.step(&[6, 0]) {
        Socks6Step::Send(b) => assert_eq!(b, vec![6, 1, 1, 1, 2, 3, 4, 0, 80, 0, 0]),
        other => panic!("{:?}", other),
    }
    assert!(matches!(h.step(&[6, 0, 1]), Socks6Step::Read(11)));
    assert!(matches!(h.step(&[6, 0, 1, 0, 0, 0, 0, 0, 0, 0, 0]), Socks6Step::Established));
    assert_eq!(h.stage, Socks6Stage::Established);
}

#[test]
fn handshake_with_auth() {
    let mut h = Socks6Handshake::udp_associate(Some(creds()));
    match h.step(&[]) {
        Socks6Step::Send(b) => assert_eq!(b, vec![6, 1, 2]),
        other => panic!("{:?}", other),
    }
    match h.step(&[6, 2]) {
        Socks6Step::Send(b) => assert_eq!(b[0], 1),
        other => panic!("{:?}", other),
    }
    assert_eq!(h.stage, Socks6Stage::AuthReply);
    match h.step(&[1, 0]) {
        Socks6Step::Send(b) => assert_eq!(b, vec![6, 3, 1, 0, 0, 0, 0, 0, 0, 0, 0]),
        other => panic!("{:?}", other),
    }
    match h.step(&[6, 1, 1]) {
        Socks6Step::Fail(e) => assert_eq!(e, ProxyError::RequestRejected(Socks6Request::UdpAssociate, 1)),
        other => panic!("{:?}", other),
    }
}

#[test]
fn handshake_auth_failure() {
    let mut h = Socks6Handshake::connect(&Socks5Target::Domain("x".to_string()), None, 1, Some(creds()));
    let _ = h.step(&[]);
    let _ = h.step(&[6, 2]);
    match h.step(&[1, 1]) {
        Socks6Step::Fail(e) => assert_eq!(e, ProxyError::AuthFailed),
        other => panic!("{:?}", other),
    }
    assert_eq!(h.stage, Socks6Stage::Failed);
}

#[test]
fn ipv4_text_roundtrip() {
    for o in [[0u8, 0, 0, 0], [255, 255, 255, 255], [10, 0, 100, 9], [1, 22, 199, 200]] {
        assert_eq!(parse_ipv4(&format_ipv4(&o)), Some(o));
    }
    assert_eq!(format_ipv4(&[192, 168, 0, 10]), "192.168.0.10");
}

#[test]
fn ipv4_parse_rejects_non_canonical_text() {
    for s in ["", "1.2.3", "1.2.3.4.5", "256.0.0.1", "01.2.3.4", "1..2.3", "1.2.3.4 ", "a.b.c.d", "1.2.3.0004"] {
        assert_eq!(parse_ipv4(s), None, "{s}");
    }
    assert_eq!(parse_ipv4("0.10.255.1"), Some([0, 10, 255, 1]));
}

#[test]
fn ipv4_target_is_forwarded_with_its_address() {
    let req = match parse_request(&[5, 1, 0, 1, 8, 8, 4, 4, 0, 53]) {
        Ok(Scan::Done(r)) => r,
        other => panic!("{:?}", other),
    };
    assert!(matches!(req.target, Socks5Target::Ipv4(_)));
    let host = target_host(&req.target, "");
    assert_eq!(connect_request(&host, None, req.port), vec![6, 1, 1, 8, 8, 4, 4, 0, 53, 0, 0]);
}

#[test]
fn ipv6_target_is_forwarded_with_its_address() {
    let mut b = vec![5, 1, 0, 4];
    let o = [0x20, 0x01, 0x0d, 0xb8, 1, 2, 3, 4, 5, 6, 7, 8, 9, 10, 11, 12];
    b.extend_from_slice(&o);
    b.extend_from_slice(&[0x01, 0xbb]);
    let req = match parse_request(&b) {
        Ok(Scan::Done(r)) => r,
        other => panic!("{:?}", other),
    };
    let mut expected = vec![6, 1, 4];
    expected.extend_from_slice(&o);
    expected.extend_from_slice(&[0x01, 0xbb, 0, 0]);
    assert_eq!(target_request(&req.target, None, req.port), expected);
    // The same bytes as the host-text route, where the bracketed text reads
    // back as the same address.
    let text = "2001:db8:102:304:506:708:90a:b0c";
    let host = target_host(&req.target, text);
    assert_eq!(connect_request(&host, Some(o), req.port), expected);
}

#[test]
fn domain_target_uses_host_text() {
    let t = Socks5Target::Domain("10.1.2.3".to_string());
    assert_eq!(target_request(&t, None, 7), vec![6, 1, 1, 10, 1, 2, 3, 0, 7, 0, 0]);
    let t = Socks5Target::Domain("[::1]".to_string());
    let mut o = [0u8; 16];
    o[15] = 1;
    assert_eq!(target_request(&t, Some(o), 7)[2], 4);
    let t = Socks5Target::Domain("host".to_string());
    assert_eq!(target_request(&t, None, 7), vec![6, 1, 3, 4, b'h', b'o', b's', b't', 0, 7, 0, 0]);
}
