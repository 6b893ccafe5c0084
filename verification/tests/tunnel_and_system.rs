use socks6_app::sysproxy::{macos_proxy_commands, network_services, split_lines, windows_proxy_commands};
use socks6_app::tunnel::{contains_eof, is_retriable, retry_after, HandshakeFailure, IoErrorClass, RetryDecision, MAX_TLS_TRIES};

#[test]
fn retriable_errors() {
    assert!(is_retriable(IoErrorClass::UnexpectedEof, "x"));
    assert!(is_retriable(IoErrorClass::ConnectionReset, ""));
    assert!(is_retriable(IoErrorClass::ConnectionAborted, ""));
    assert!(is_retriable(IoErrorClass::Other, "peer closed connection without sending TLS close_notify: Unexpected EOF"));
    assert!(is_retriable(IoErrorClass::Other, "EoF"));
    assert!(!is_retriable(IoErrorClass::Other, "certificate error"));
    assert!(!is_retriable(IoErrorClass::Other, "e o f"));
}

#[test]
fn retry_backoff_and_limit() {
    assert_eq!(MAX_TLS_TRIES, 3);
    assert_eq!(retry_after(1, HandshakeFailure::Timeout), RetryDecision::RetryAfterMillis(100));
    assert_eq!(retry_after(2, HandshakeFailure::Error(true)), RetryDecision::RetryAfterMillis(160));
    assert_eq!(retry_after(3, HandshakeFailure::Timeout), RetryDecision::GiveUp);
    assert_eq!(retry_after(1, HandshakeFailure::Error(false)), RetryDecision::GiveUp);
}

#[test]
fn lines_split_like_str_lines() {
    let text = "a\r\nb\n\nc\r";
    let expected: Vec<String> = text.lines().map(|s| s.to_string()).collect();
    assert_eq!(split_lines(text), expected);
    assert_eq!(split_lines("x\n"), vec!["x".to_string()]);
    assert!(split_lines("").is_empty());
}

#[test]
fn services_skip_header_disabled_and_empty_lines() {
    let listing = "An asterisk (*) denotes that a network service is disabled.\nWi-Fi\n*Bluetooth PAN\n\nThunderbolt Bridge\n";
    assert_eq!(network_services(listing), vec!["Wi-Fi".to_string(), "Thunderbolt Bridge".to_string()]);
    assert!(network_services("").is_empty());
}

#[test]
fn macos_commands_per_service() {
    let services = vec!["Wi-Fi".to_string(), "Ethernet".to_string()];
    let on = macos_proxy_commands(true, "127.0.0.1", "1080", &services);
    assert_eq!(on.len(), 4);
    assert_eq!(on[0], vec!["-setsocksfirewallproxy", "Wi-Fi", "127.0.0.1", "1080"]);
    assert_eq!(on[1], vec!["-setsocksfirewallproxystate", "Wi-Fi", "on"]);
    assert_eq!(on[3], vec!["-setsocksfirewallproxystate", "Ethernet", "on"]);
    let off = macos_proxy_commands(false, "", "", &services);
    assert_eq!(off, vec![
        vec!["-setsocksfirewallproxystate".to_string(), "Wi-Fi".to_string(), "off".to_string()],
        vec!["-setsocksfirewallproxystate".to_string(), "Ethernet".to_string(), "off".to_string()],
    ]);
}

#[test]
fn windows_commands() {
    let key = r"HKCU\Software\Microsoft\Windows\CurrentVersion\Internet Settings";
    let on = windows_proxy_commands(true, "127.0.0.1:1080");
    assert_eq!(on, vec![
        vec!["add", key, "/v", "ProxyServer", "/t", "REG_SZ", "/d", "socks=127.0.0.1:1080", "/f"],
        vec!["add", key, "/v", "ProxyEnable", "/t", "REG_DWORD", "/d", "1", "/f"],
    ]);
    let off = windows_proxy_commands(false, "ignored");
    assert_eq!(off, vec![vec!["add", key, "/v", "ProxyEnable", "/t", "REG_DWORD", "/d", "0", "/f"]]);
}

#[test]
fn eof_search_is_exact_and_case_sensitive() {
    assert!(contains_eof("unexpected eof"));
    assert!(contains_eof("eof"));
    assert!(!contains_eof("EOF"));
    assert!(!contains_eof("eo"));
    assert!(!contains_eof(""));
}
