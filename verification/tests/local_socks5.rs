use socks6_app::error::ProxyError;
use socks6_app::socks5::{
    command_not_supported_reply, encode_reply, parse_greeting, parse_request, relay_bind_host,
    success_reply, target_host, trim_brackets, udp_relay_reply, BindAddress, Socks5Command,
    Socks5Handshake, Socks5Stage, Socks5Step, Socks5Target,
};
use socks6_app::wire::Scan;

fn need<T>(r: Result<Scan<T>, ProxyError>) -> usize {
    match r {
        Ok(Scan::Need(n)) => n,
        _ => panic!("expected Need"),
    }
}

#[test]
fn greeting_needs_header_then_methods() {
    assert_eq!(need(parse_greeting(&[])), 2);
    assert_eq!(need(parse_greeting(&[5])), 2);
    assert_eq!(need(parse_greeting(&[5, 2])), 4);
    assert_eq!(need(parse_greeting(&[5, 2, 1])), 4);
}

#[test]
fn greeting_accepts_no_auth_anywhere_in_list() {
    assert!(matches!(parse_greeting(&[5, 2, 2, 0]), Ok(Scan::Done(true))));
    assert!(matches!(parse_greeting(&[5, 1, 0]), Ok(Scan::Done(true))));
    assert!(matches!(parse_greeting(&[5, 2, 1, 2]), Ok(Scan::Done(false))));
    assert!(matches!(parse_greeting(&[5, 0]), Ok(Scan::Done(false))));
}

#[test]
fn greeting_of_other_version_is_refused() {
    assert!(matches!(parse_greeting(&[4, 1, 0]), Err(ProxyError::NotSocks5(4))));
}

#[test]
fn request_ipv4_connect() {
    match parse_request(&[5, 1, 0, 1, 93, 184, 216, 34, 0x01, 0xbb]) {
        Ok(Scan::Done(r)) => {
            assert_eq!(r.command, Socks5Command::Connect);
            assert!(matches!(r.target, Socks5Target::Ipv4([93, 184, 216, 34])));
            assert_eq!(r.port, 443);
            assert_eq!(target_host(&r.target, ""), "93.184.216.34");
        }
        other => panic!("{:?}", other),
    }
}

#[test]
fn request_needs_bytes_step_by_step() {
    assert_eq!(need(parse_request(&[5, 1])), 4);
    assert_eq!(need(parse_request(&[5, 1, 0, 1])), 10);
    assert_eq!(need(parse_request(&[5, 1, 0, 3])), 5);
    assert_eq!(need(parse_request(&[5, 1, 0, 3, 11])), 18);
    assert_eq!(need(parse_request(&[5, 1, 0, 4])), 22);
}

#[test]
fn request_domain_udp_associate() {
    let mut b = vec![5, 3, 0, 3, 11];
    b.extend_from_slice(b"example.com");
    b.extend_from_slice(&[0, 53]);
    match parse_request(&b) {
        Ok(Scan::Done(r)) => {
            assert_eq!(r.command, Socks5Command::UdpAssociate);
            match &r.target {
                Socks5Target::Domain(d) => assert_eq!(d, "example.com"),
                other => panic!("{:?}", other),
            }
            assert_eq!(r.port, 53);
        }
        other => panic!("{:?}", other),
    }
}

#[test]
fn request_ipv6() {
    let mut b = vec![5, 1, 0, 4];
    b.extend_from_slice(&[0x20, 0x01, 0x0d, 0xb8, 0, 0, 0, 0, 0, 0, 0, 0, 0, 0, 0, 1]);
    b.extend_from_slice(&[0x1f, 0x90]);
    match parse_request(&b) {
        Ok(Scan::Done(r)) => {
            assert!(matches!(r.target, Socks5Target::Ipv6(_)));
            assert_eq!(r.port, 8080);
            assert_eq!(target_host(&r.target, "2001:db8::1"), "[2001:db8::1]");
        }
        other => panic!("{:?}", other),
    }
}

#[test]
fn request_errors() {
    assert!(matches!(parse_request(&[4, 1, 0, 1]), Err(ProxyError::NotSocks5(4))));
    assert!(matches!(parse_request(&[5, 2, 0, 1]), Err(ProxyError::UnsupportedCommand(2))));
    assert!(matches!(parse_request(&[5, 1, 0, 9]), Err(ProxyError::UnsupportedAddressType(9))));
    assert!(matches!(
        parse_request(&[5, 1, 0, 3, 2, 0xff, 0xfe, 0, 80]),
        Err(ProxyError::InvalidDomain)
    ));
}

#[test]
fn replies_have_the_expected_bytes() {
    assert_eq!(success_reply(), vec![5, 0, 0, 1, 0, 0, 0, 0, 0, 0]);
    assert_eq!(command_not_supported_reply(), vec![5, 7, 0, 1, 0, 0, 0, 0, 0, 0]);
    assert_eq!(
        udp_relay_reply(&BindAddress::V4([127, 0, 0, 1], 40000)),
        vec![5, 0, 0, 1, 127, 0, 0, 1, 0x9c, 0x40]
    );
    let v6 = encode_reply(0, &BindAddress::V6([0; 16], 1));
    assert_eq!(v6.len(), 22);
    assert_eq!(&v6[..4], &[5, 0, 0, 4]);
    assert_eq!(&v6[20..], &[0, 1]);
}

#[test]
fn handshake_accepts_and_reads_request() {
    let mut h = Socks5Handshake::new();
    assert!(matches!(h.step(&[]), Socks5Step::Read(2)));
    assert!(matches!(h.step(&[5, 1]), Socks5Step::Read(3)));
    match h.step(&[5, 1, 0]) {
        Socks5Step::Reply(b) => assert_eq!(b, vec![5, 0]),
        other => panic!("{:?}", other),
    }
    assert_eq!(h.stage, Socks5Stage::Request);
    assert!(matches!(h.step(&[]), Socks5Step::Read(4)));
    match h.step(&[5, 1, 0, 1, 10, 0, 0, 1, 0, 80]) {
        Socks5Step::Accept(r) => assert_eq!(r.port, 80),
        other => panic!("{:?}", other),
    }
    assert_eq!(h.stage, Socks5Stage::Finished);
}

#[test]
fn handshake_rejects_client_without_no_auth() {
    let mut h = Socks5Handshake::new();
    match h.step(&[5, 1, 2]) {
        Socks5Step::Fail(b, e) => {
            assert_eq!(b, vec![5, 0xff]);
            assert_eq!(e, ProxyError::NoAcceptableMethod);
        }
        other => panic!("{:?}", other),
    }
}

#[test]
fn handshake_answers_unsupported_command() {
    let mut h = Socks5Handshake::new();
    let _ = h.step(&[5, 1, 0]);
    match h.step(&[5, 2, 0, 1]) {
        Socks5Step::Fail(b, e) => {
            assert_eq!(b, vec![5, 7, 0, 1, 0, 0, 0, 0, 0, 0]);
            assert_eq!(e, ProxyError::UnsupportedCommand(2));
        }
        other => panic!("{:?}", other),
    }
}

#[test]
fn handshake_bad_version_fails_silently() {
    let mut h = Socks5Handshake::new();
    match h.step(&[4, 1]) {
        Socks5Step::Fail(b, e) => {
            assert!(b.is_empty());
            assert_eq!(e, ProxyError::NotSocks5(4));
        }
        other => panic!("{:?}", other),
    }
}

#[test]
fn brackets_are_trimmed_at_both_ends_only() {
    assert_eq!(trim_brackets("[::1]"), "::1");
    assert_eq!(trim_brackets("[[a]b]]"), "a]b");
    assert_eq!(trim_brackets("[]"), "");
    assert_eq!(trim_brackets("host"), "host");
}

#[test]
fn relay_binds_loopback_only_for_loopback_clients() {
    assert_eq!(relay_bind_host(true), "127.0.0.1");
    assert_eq!(relay_bind_host(false), "0.0.0.0");
}
