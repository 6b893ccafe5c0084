//! Errors that the proxy core reports.
use vstd::prelude::*;

use crate::text::{nat_decimal_text, prefixed_hex_text, push_decimal_usize, push_prefixed_hex};

verus! {

/// Which SOCKS6 request a server reply answers.
#[derive(Clone, Copy, Debug, PartialEq, Eq, Structural)]
pub enum Socks6Request {
    Connect,
    UdpAssociate,
}

/// Why an operation of the proxy core was refused.
#[derive(Clone, Copy, Debug, PartialEq, Eq, Structural)]
pub enum ProxyError {
    /// A start was asked for while a session is running.
    AlreadyRunning,
    /// A stop was asked for while no session is running.
    NotRunning,
    /// The profile's listen address is not a socket address.
    InvalidListenAddress,
    /// The profile's secret is not valid base64.
    InvalidSecretEncoding,
    /// The profile's secret does not decode to 32 bytes; the decoded length.
    SecretLength(usize),
    /// The profile's short id is not valid hexadecimal.
    InvalidShortIdEncoding,
    /// The profile's short id does not decode to 8 bytes; the decoded length.
    ShortIdLength(usize),
    /// A local client message does not start with version 5; the byte found.
    NotSocks5(u8),
    /// The local client does not offer the no-authentication method.
    NoAcceptableMethod,
    /// The local client asked for a command other than CONNECT and UDP ASSOCIATE.
    UnsupportedCommand(u8),
    /// The local client named an unknown address type.
    UnsupportedAddressType(u8),
    /// A domain name from the local client is not valid UTF-8.
    InvalidDomain,
    /// A server message does not start with version 6; the byte found.
    NotSocks6(u8),
    /// The server asked for credentials that the profile does not hold.
    AuthRequired,
    /// The server refused the credentials.
    AuthFailed,
    /// The server accepts none of the offered methods.
    AuthMethodsRejected,
    /// The server chose a method that was not offered; the method byte.
    UnsupportedMethod(u8),
    /// A server reply does not start with version 6; the byte found.
    InvalidReply(u8),
    /// The server refused the request; the request and the reply code.
    RequestRejected(Socks6Request, u8),
    /// A server reply names an unknown address type.
    UnknownReplyAddressType(u8),
    /// The platform has no system proxy setting that this program can change.
    UnsupportedPlatform,
}

/// The text that tells the user about an error.
pub open spec fn error_text(e: ProxyError) -> Seq<char> {
    match e {
        ProxyError::AlreadyRunning => "proxy already running — disconnect first"@,
        ProxyError::NotRunning => "proxy is not running"@,
        ProxyError::InvalidListenAddress => "invalid listen address"@,
        ProxyError::InvalidSecretEncoding => "invalid base64 secret"@,
        ProxyError::SecretLength(n) => "secret must be 32 bytes, got "@ + nat_decimal_text(n as nat),
        ProxyError::InvalidShortIdEncoding => "invalid hex short_id"@,
        ProxyError::ShortIdLength(n) => "short_id must be 8 bytes (16 hex chars), got "@
            + nat_decimal_text(n as nat),
        ProxyError::NotSocks5(b) => "not SOCKS5: "@ + prefixed_hex_text(b),
        ProxyError::NoAcceptableMethod => "client does not support no-auth method"@,
        ProxyError::UnsupportedCommand(c) => "unsupported command: "@ + prefixed_hex_text(c),
        ProxyError::UnsupportedAddressType(a) => "unsupported ATYP: "@ + prefixed_hex_text(a),
        ProxyError::InvalidDomain => "invalid domain"@,
        ProxyError::NotSocks6(b) => "server not SOCKS6: "@ + prefixed_hex_text(b),
        ProxyError::AuthRequired => "server requires auth"@,
        ProxyError::AuthFailed => "server auth failed"@,
        ProxyError::AuthMethodsRejected => "server rejected auth methods"@,
        ProxyError::UnsupportedMethod(m) => "unsupported method: "@ + prefixed_hex_text(m),
        ProxyError::InvalidReply(b) => "invalid SOCKS6 reply: "@ + prefixed_hex_text(b),
        ProxyError::RequestRejected(Socks6Request::Connect, c) => "CONNECT rejected: "@
            + prefixed_hex_text(c),
        ProxyError::RequestRejected(Socks6Request::UdpAssociate, c) => "UDP ASSOCIATE rejected: "@
            + prefixed_hex_text(c),
        ProxyError::UnknownReplyAddressType(a) => "unknown ATYP in reply: "@ + prefixed_hex_text(a),
        ProxyError::UnsupportedPlatform => "system proxy not supported on this platform"@,
    }
}

fn text_with_hex(prefix: &str, b: u8) -> (s: String)
    ensures
        s@ == prefix@ + prefixed_hex_text(b),
{
    let mut s = String::from_str(prefix);
    push_prefixed_hex(&mut s, b);
    s
}

fn text_with_decimal(prefix: &str, n: usize) -> (s: String)
    ensures
        s@ == prefix@ + nat_decimal_text(n as nat),
{
    let mut s = String::from_str(prefix);
    push_decimal_usize(&mut s, n);
    s
}

impl ProxyError {
    /// The text that tells the user about this error.
    pub fn message(&self) -> (s: String)
        ensures
            s@ == error_text(*self),
    {
        match self {
            ProxyError::AlreadyRunning => String::from_str("proxy already running — disconnect first"),
            ProxyError::NotRunning => String::from_str("proxy is not running"),
            ProxyError::InvalidListenAddress => String::from_str("invalid listen address"),
            ProxyError::InvalidSecretEncoding => String::from_str("invalid base64 secret"),
            ProxyError::SecretLength(n) => text_with_decimal("secret must be 32 bytes, got ", *n),
            ProxyError::InvalidShortIdEncoding => String::from_str("invalid hex short_id"),
            ProxyError::ShortIdLength(n) => text_with_decimal(
                "short_id must be 8 bytes (16 hex chars), got ",
                *n,
            ),
            ProxyError::NotSocks5(b) => text_with_hex("not SOCKS5: ", *b),
            ProxyError::NoAcceptableMethod => String::from_str("client does not support no-auth method"),
            ProxyError::UnsupportedCommand(c) => text_with_hex("unsupported command: ", *c),
            ProxyError::UnsupportedAddressType(a) => text_with_hex("unsupported ATYP: ", *a),
            ProxyError::InvalidDomain => String::from_str("invalid domain"),
            ProxyError::NotSocks6(b) => text_with_hex("server not SOCKS6: ", *b),
            ProxyError::AuthRequired => String::from_str("server requires auth"),
            ProxyError::AuthFailed => String::from_str("server auth failed"),
            ProxyError::AuthMethodsRejected => String::from_str("server rejected auth methods"),
            ProxyError::UnsupportedMethod(m) => text_with_hex("unsupported method: ", *m),
            ProxyError::InvalidReply(b) => text_with_hex("invalid SOCKS6 reply: ", *b),
            ProxyError::RequestRejected(Socks6Request::Connect, c) => text_with_hex(
                "CONNECT rejected: ",
                *c,
            ),
            ProxyError::RequestRejected(Socks6Request::UdpAssociate, c) => text_with_hex(
                "UDP ASSOCIATE rejected: ",
                *c,
            ),
            ProxyError::UnknownReplyAddressType(a) => text_with_hex("unknown ATYP in reply: ", *a),
            ProxyError::UnsupportedPlatform => String::from_str(
                "system proxy not supported on this platform",
            ),
        }
    }
}

} // verus!
