use socks6_app::error::ProxyError;
use socks6_app::keys::{
    decode_secret, decode_short_id, generate_keys, keys_from_bytes, secret_from_bytes,
    short_id_from_bytes,
};
use socks6_app::text::{hex_decode, hex_encode};

#[test]
fn secret_of_32_zero_bytes_decodes() {
    let s = decode_secret("AAAAAAAAAAAAAAAAAAAAAAAAAAAAAAAAAAAAAAAAAAA=").unwrap();
    assert_eq!(s, [0u8; 32]);
}

#[test]
fn secret_with_bad_base64_is_refused() {
    assert_eq!(decode_secret("not base64!"), Err(ProxyError::InvalidSecretEncoding));
    // Missing padding is not canonical for the standard engine.
    assert_eq!(
        decode_secret("AAAAAAAAAAAAAAAAAAAAAAAAAAAAAAAAAAAAAAAAAAA"),
        Err(ProxyError::InvalidSecretEncoding)
    );
}

#[test]
fn secret_of_wrong_length_is_refused() {
    assert_eq!(decode_secret("AAAA"), Err(ProxyError::SecretLength(3)));
    assert_eq!(decode_secret(""), Err(ProxyError::SecretLength(0)));
    assert_eq!(secret_from_bytes(vec![1; 33]), Err(ProxyError::SecretLength(33)));
    assert_eq!(secret_from_bytes(vec![7; 32]), Ok([7u8; 32]));
}

#[test]
fn short_id_decodes_either_case() {
    assert_eq!(
        decode_short_id("0123456789abcdef").unwrap(),
        [0x01, 0x23, 0x45, 0x67, 0x89, 0xab, 0xcd, 0xef]
    );
    assert_eq!(
        decode_short_id("0123456789ABCDEF").unwrap(),
        [0x01, 0x23, 0x45, 0x67, 0x89, 0xab, 0xcd, 0xef]
    );
}

#[test]
fn short_id_errors() {
    assert_eq!(decode_short_id("abc"), Err(ProxyError::InvalidShortIdEncoding));
    assert_eq!(decode_short_id("zz00000000000000"), Err(ProxyError::InvalidShortIdEncoding));
    assert_eq!(decode_short_id("0011"), Err(ProxyError::ShortIdLength(2)));
    assert_eq!(short_id_from_bytes(vec![0; 9]), Err(ProxyError::ShortIdLength(9)));
}

#[test]
fn hex_codec_values() {
    assert_eq!(hex_encode(&[0x00, 0x0f, 0xa0, 0xff]), "000fa0ff");
    assert_eq!(hex_decode("000FA0ff"), Some(vec![0x00, 0x0f, 0xa0, 0xff]));
    assert_eq!(hex_decode(""), Some(vec![]));
    assert_eq!(hex_decode("0g"), None);
}

#[test]
fn keys_from_bytes_encodes_both_keys() {
    let k = keys_from_bytes(&[0u8; 32], &[0xde, 0xad, 0xbe, 0xef, 0, 1, 2, 3]);
    assert_eq!(k.secret, "AAAAAAAAAAAAAAAAAAAAAAAAAAAAAAAAAAAAAAAAAAA=");
    assert_eq!(k.short_id, "deadbeef00010203");
}

#[test]
fn generated_keys_are_accepted() {
    for _ in 0..20 {
        let k = generate_keys();
        assert_eq!(k.secret.len(), 44);
        assert_eq!(k.short_id.len(), 16);
        assert!(decode_secret(&k.secret).is_ok());
        assert!(decode_short_id(&k.short_id).is_ok());
    }
}

#[test]
fn generated_keys_differ() {
    let a = generate_keys();
    let b = generate_keys();
    assert_ne!(a.secret, b.secret);
}

#[test]
fn error_messages() {
    assert_eq!(ProxyError::AlreadyRunning.message(), "proxy already running — disconnect first");
    assert_eq!(ProxyError::SecretLength(3).message(), "secret must be 32 bytes, got 3");
    assert_eq!(ProxyError::SecretLength(0).message(), "secret must be 32 bytes, got 0");
    assert_eq!(
        ProxyError::ShortIdLength(1234).message(),
        "short_id must be 8 bytes (16 hex chars), got 1234"
    );
    assert_eq!(ProxyError::NotSocks5(4).message(), format!("not SOCKS5: {:#x}", 4u8));
    assert_eq!(ProxyError::NotSocks5(0).message(), "not SOCKS5: 0x0");
    assert_eq!(ProxyError::UnsupportedCommand(0xab).message(), "unsupported command: 0xab");
    assert_eq!(ProxyError::UnsupportedAddressType(0x10).message(), "unsupported ATYP: 0x10");
    assert_eq!(
        ProxyError::RequestRejected(socks6_app::error::Socks6Request::Connect, 5).message(),
        "CONNECT rejected: 0x5"
    );
    assert_eq!(
        ProxyError::RequestRejected(socks6_app::error::Socks6Request::UdpAssociate, 0xff).message(),
        "UDP ASSOCIATE rejected: 0xff"
    );
    assert_eq!(ProxyError::NotRunning.message(), "proxy is not running");
    for b in 0..=255u8 {
        assert_eq!(ProxyError::InvalidReply(b).message(), format!("invalid SOCKS6 reply: {b:#x}"));
    }
    for n in [0usize, 9, 10, 99, 100, 65535, usize::MAX] {
        assert_eq!(ProxyError::SecretLength(n).message(), format!("secret must be 32 bytes, got {n}"));
    }
}
