use socks6_app::engine::{profile_credentials, tls_slots, Engine, ProxyConfig};
use socks6_app::error::ProxyError;
use socks6_app::profiles::Profile;

fn profile() -> Profile {
    Profile {
        id: "p1".to_string(),
        name: "home".to_string(),
        server: "vpn.example:443".to_string(),
        server_name: "www.example".to_string(),
        secret: "AAAAAAAAAAAAAAAAAAAAAAAAAAAAAAAAAAAAAAAAAAA=".to_string(),
        short_id: "0102030405060708".to_string(),
        auth_user: "u".to_string(),
        auth_pass: "p".to_string(),
        listen: "127.0.0.1:1080".to_string(),
        max_tls_parallel: 0,
        auth_time_offset_secs: -5,
    }
}

fn begin(e: &mut Engine) {
    e.begin(
        "p1".to_string(),
        "127.0.0.1:1080".to_string(),
        "vpn.example:443".to_string(),
    );
}

#[test]
fn config_from_profile() {
    let cfg = ProxyConfig::from_profile(&profile()).unwrap();
    assert_eq!(cfg.secret, [0u8; 32]);
    assert_eq!(cfg.short_id, [1, 2, 3, 4, 5, 6, 7, 8]);
    assert_eq!(cfg.tls_slots, 1);
    assert_eq!(cfg.auth_time_offset_secs, -5);
    let c = cfg.auth.unwrap();
    assert_eq!((c.user.as_str(), c.pass.as_str()), ("u", "p"));
    assert_eq!(cfg.server, "vpn.example:443");
    assert_eq!(cfg.server_name, "www.example");
}

#[test]
fn credentials_need_both_fields() {
    let mut p = profile();
    p.auth_pass = String::new();
    assert!(profile_credentials(&p).is_none());
    p.auth_pass = "x".to_string();
    p.auth_user = String::new();
    assert!(profile_credentials(&p).is_none());
}

#[test]
fn tls_slots_at_least_one() {
    assert_eq!(tls_slots(0), 1);
    assert_eq!(tls_slots(1), 1);
    assert_eq!(tls_slots(12), 12);
}

#[test]
fn secret_checked_before_short_id() {
    let mut p = profile();
    p.secret = "!!".to_string();
    p.short_id = "x".to_string();
    assert_eq!(ProxyConfig::from_profile(&p).err().map(|e| e), Some(ProxyError::InvalidSecretEncoding));
    p.secret = "AAAAAAAAAAAAAAAAAAAAAAAAAAAAAAAAAAAAAAAAAAA=".to_string();
    assert_eq!(ProxyConfig::from_profile(&p).err(), Some(ProxyError::InvalidShortIdEncoding));
}

#[test]
fn start_refused_while_running_before_any_other_check() {
    let mut e = Engine::new();
    begin(&mut e);
    let mut p = profile();
    p.secret = "bad".to_string();
    assert_eq!(e.prepare_start(&p, false).err(), Some(ProxyError::AlreadyRunning));
}

#[test]
fn bad_listen_address_reported_before_keys() {
    let e = Engine::new();
    let mut p = profile();
    p.secret = "bad".to_string();
    assert_eq!(e.prepare_start(&p, false).err(), Some(ProxyError::InvalidListenAddress));
    assert!(e.prepare_start(&profile(), true).is_ok());
}

#[test]
fn status_follows_start_and_stop() {
    let mut e = Engine::new();
    let st = e.status(99);
    assert!(!st.connected);
    assert_eq!((st.uptime_secs, st.connections), (0, 0));
    assert!(st.profile_id.is_none());
    begin(&mut e);
    assert!(e.is_running());
    e.record_connection();
    e.record_connection();
    e.record_connection();
    let st = e.status(42);
    assert!(st.connected);
    assert_eq!(st.profile_id.as_deref(), Some("p1"));
    assert_eq!(st.listen_addr.as_deref(), Some("127.0.0.1:1080"));
    assert_eq!(st.server.as_deref(), Some("vpn.example:443"));
    assert_eq!((st.uptime_secs, st.connections), (42, 3));
    let s = e.stop().unwrap();
    assert_eq!(s.profile_id, "p1");
    assert_eq!(s.connections, 3);
    assert!(!e.status(1).connected);
}

#[test]
fn stop_when_idle_is_refused() {
    let mut e = Engine::new();
    assert_eq!(e.stop().err(), Some(ProxyError::NotRunning));
    begin(&mut e);
    e.clear();
    assert_eq!(e.stop().err(), Some(ProxyError::NotRunning));
}

#[test]
fn connection_count_starts_at_zero_and_counts_accepts() {
    let mut e = Engine::new();
    e.record_connection();
    assert_eq!(e.status(0).connections, 0);
    begin(&mut e);
    assert_eq!(e.status(5).connections, 0);
    for _ in 0..10 {
        e.record_connection();
    }
    let st = e.status(6);
    assert_eq!(st.connections, 10);
    assert_eq!(st.uptime_secs, 6);
    let _ = e.stop();
    begin(&mut e);
    assert_eq!(e.status(0).connections, 0);
}
