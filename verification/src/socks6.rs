//! The remote side: a SOCKS6 client handshake as spoken to the server
//! through the tunnel, with optional username/password authentication.
use vstd::prelude::*;
use vstd::utf8::{decode_utf8_encode_utf8, encode_utf8};

use crate::error::{ProxyError, Socks6Request};
use crate::socks5::{domain_bytes, request_fields, spec_request_scan, target_host_text, Socks5Request, Socks5Target};
use crate::text::{
    decimal_text, ipv4_text, is_digit, is_ipv4_text_of, lemma_decimal_text_parses,
    lemma_ipv4_text_injective, parse_ipv4,
};
use crate::wire::{be16, be16_bytes, push_all, push_be16, read_be16, Scan};

verus! {

pub const SOCKS6_VERSION: u8 = 6;

/// Method byte: no authentication.
pub const METHOD_NO_AUTH: u8 = 0;

/// Method byte: username and password.
pub const METHOD_USER_PASS: u8 = 2;

/// Method byte: no acceptable method.
pub const METHOD_REJECTED: u8 = 0xff;

/// Username and password for the server.
#[derive(Debug)]
pub struct Credentials {
    pub user: String,
    pub pass: String,
}

/// The method the server chose.
#[derive(Clone, Copy, Debug, PartialEq, Eq, Structural)]
pub enum AuthMethod {
    NoAuth,
    UserPass,
}

/// The method request: version, then one offered method, username and
/// password when credentials are held, else no authentication.
pub open spec fn method_request_bytes(has_auth: bool) -> Seq<u8> {
    if has_auth {
        seq![SOCKS6_VERSION, 1u8, METHOD_USER_PASS]
    } else {
        seq![SOCKS6_VERSION, 1u8, METHOD_NO_AUTH]
    }
}

pub fn method_request(has_auth: bool) -> (r: Vec<u8>)
    ensures
        r@ == method_request_bytes(has_auth),
{
    let mut r: Vec<u8> = Vec::new();
    r.push(SOCKS6_VERSION);
    r.push(1);
    r.push(if has_auth { METHOD_USER_PASS } else { METHOD_NO_AUTH });
    assert(r@ =~= method_request_bytes(has_auth));
    r
}

/// What the server's method choice in `buf` decides.
pub open spec fn spec_method_choice(buf: Seq<u8>, has_auth: bool) -> Result<Scan<AuthMethod>, ProxyError> {
    if buf.len() < 2 {
        Ok(Scan::Need(2))
    } else if buf[0] != SOCKS6_VERSION {
        Err(ProxyError::NotSocks6(buf[0]))
    } else if buf[1] == METHOD_NO_AUTH {
        Ok(Scan::Done(AuthMethod::NoAuth))
    } else if buf[1] == METHOD_USER_PASS {
        if has_auth {
            Ok(Scan::Done(AuthMethod::UserPass))
        } else {
            Err(ProxyError::AuthRequired)
        }
    } else if buf[1] == METHOD_REJECTED {
        Err(ProxyError::AuthMethodsRejected)
    } else {
        Err(ProxyError::UnsupportedMethod(buf[1]))
    }
}

/// Reads the server's method choice.
pub fn parse_method_choice(buf: &[u8], has_auth: bool) -> (r: Result<Scan<AuthMethod>, ProxyError>)
    ensures
        r == spec_method_choice(buf@, has_auth),
{
    if buf.len() < 2 {
        return Ok(Scan::Need(2));
    }
    if buf[0] != SOCKS6_VERSION {
        return Err(ProxyError::NotSocks6(buf[0]));
    }
    let m = buf[1];
    if m == METHOD_NO_AUTH {
        Ok(Scan::Done(AuthMethod::NoAuth))
    } else if m == METHOD_USER_PASS {
        if has_auth {
            Ok(Scan::Done(AuthMethod::UserPass))
        } else {
            Err(ProxyError::AuthRequired)
        }
    } else if m == METHOD_REJECTED {
        Err(ProxyError::AuthMethodsRejected)
    } else {
        Err(ProxyError::UnsupportedMethod(m))
    }
}

/// The UTF-8 bytes of a text preceded by their count, kept to one byte.
pub open spec fn short_field(text: Seq<char>) -> Seq<u8> {
    seq![(encode_utf8(text).len() % 256) as u8] + encode_utf8(text)
}

/// The username/password message: sub-version 1, then the username and the
/// password, each preceded by its length in one byte.
pub open spec fn user_pass_bytes(user: Seq<char>, pass: Seq<char>) -> Seq<u8> {
    seq![1u8] + short_field(user) + short_field(pass)
}

fn push_short_field(out: &mut Vec<u8>, text: &str)
    ensures
        final(out)@ == old(out)@ + short_field(text@),
{
    let bytes = text.as_bytes();
    out.push((bytes.len() % 256) as u8);
    push_all(out, bytes);
    assert(out@ =~= old(out)@ + short_field(text@));
}

pub fn user_pass_request(creds: &Credentials) -> (r: Vec<u8>)
    ensures
        r@ == user_pass_bytes(creds.user@, creds.pass@),
{
    let mut r: Vec<u8> = Vec::new();
    r.push(1);
    push_short_field(&mut r, creds.user.as_str());
    push_short_field(&mut r, creds.pass.as_str());
    assert(r@ =~= user_pass_bytes(creds.user@, creds.pass@));
    r
}

/// What the server's answer to the credentials in `buf` decides; only its
/// status byte is looked at.
pub open spec fn spec_auth_reply(buf: Seq<u8>) -> Result<Scan<()>, ProxyError> {
    if buf.len() < 2 {
        Ok(Scan::Need(2))
    } else if buf[1] != 0 {
        Err(ProxyError::AuthFailed)
    } else {
        Ok(Scan::Done(()))
    }
}

pub fn parse_auth_reply(buf: &[u8]) -> (r: Result<Scan<()>, ProxyError>)
    ensures
        r == spec_auth_reply(buf@),
{
    if buf.len() < 2 {
        Ok(Scan::Need(2))
    } else if buf[1] != 0 {
        Err(ProxyError::AuthFailed)
    } else {
        Ok(Scan::Done(()))
    }
}

/// The octets of an IPv4 literal host (meaningful when there is one).
pub open spec fn ipv4_octets(host: Seq<char>) -> Seq<u8> {
    choose|o: Seq<u8>| is_ipv4_text_of(host, o)
}

/// `host` is a dotted-decimal IPv4 literal.
pub open spec fn is_ipv4_host(host: Seq<char>) -> bool {
    exists|o: Seq<u8>| is_ipv4_text_of(host, o)
}

/// How a host is named in a request: an IPv4 literal as type 1 and its four
/// octets; else, when the host (brackets trimmed) is an IPv6 literal with
/// the octets `ipv6`, type 4 and those octets; else type 3, the length of its
/// UTF-8 bytes kept to one byte, and the bytes.
pub open spec fn host_address_bytes(host: Seq<char>, ipv6: Option<Seq<u8>>) -> Seq<u8> {
    if is_ipv4_host(host) {
        seq![1u8] + ipv4_octets(host)
    } else if ipv6 is Some {
        seq![4u8] + ipv6->0
    } else {
        seq![3u8] + short_field(host)
    }
}

/// The CONNECT request: version, command 1, the host's address, the port and
/// an empty option list.
pub open spec fn connect_request_bytes(host: Seq<char>, ipv6: Option<Seq<u8>>, port: u16) -> Seq<u8> {
    seq![SOCKS6_VERSION, 1u8] + host_address_bytes(host, ipv6) + be16_bytes(port) + seq![0u8, 0u8]
}

/// The UDP ASSOCIATE request: version, command 3, the address 0.0.0.0:0 and
/// an empty option list.
pub open spec fn udp_associate_request_bytes() -> Seq<u8> {
    seq![SOCKS6_VERSION, 3u8, 1u8, 0u8, 0u8, 0u8, 0u8, 0u8, 0u8, 0u8, 0u8]
}

/// Encodes a CONNECT request for `host:port`. `ipv6` is the host, brackets
/// trimmed, read as an IPv6 literal (`None` when it is not one).
pub fn connect_request(host: &str, ipv6: Option<[u8; 16]>, port: u16) -> (r: Vec<u8>)
    ensures
        r@ == connect_request_bytes(
            host@,
            match ipv6 {
                Some(o) => Some(o@),
                None => None,
            },
            port,
        ),
{
    let ghost v6 = match ipv6 {
        Some(o) => Some(o@),
        None => None::<Seq<u8>>,
    };
    let mut r: Vec<u8> = Vec::new();
    r.push(SOCKS6_VERSION);
    r.push(1);
    let ghost start = r@;
    match parse_ipv4(host) {
        Some(o) => {
            proof {
                let c = ipv4_octets(host@);
                assert(is_ipv4_text_of(host@, o@));
                lemma_ipv4_text_injective(c, o@);
            }
            r.push(1);
            push_all(&mut r, o.as_slice());
        },
        None => match ipv6 {
            Some(o) => {
                r.push(4);
                push_all(&mut r, o.as_slice());
            },
            None => {
                r.push(3);
                push_short_field(&mut r, host);
            },
        },
    }
    assert(r@ =~= start + host_address_bytes(host@, v6));
    push_be16(&mut r, port);
    r.push(0);
    r.push(0);
    assert(r@ =~= connect_request_bytes(host@, v6, port));
    r
}

/// How a destination from a local request is named in a request to the
/// server: an IPv4 or IPv6 destination by its own type and octets; a domain
/// as its host text is (see `host_address_bytes`), where `domain_ipv6` is the
/// domain, brackets trimmed, read as an IPv6 literal.
pub open spec fn target_address_bytes(t: Socks5Target, domain_ipv6: Option<Seq<u8>>) -> Seq<u8> {
    match t {
        Socks5Target::Ipv4(o) => seq![1u8] + o@,
        Socks5Target::Ipv6(o) => seq![4u8] + o@,
        Socks5Target::Domain(d) => host_address_bytes(d@, domain_ipv6),
    }
}

/// The CONNECT request for a destination from a local request.
pub open spec fn target_request_bytes(t: Socks5Target, domain_ipv6: Option<Seq<u8>>, port: u16) -> Seq<
    u8,
> {
    seq![SOCKS6_VERSION, 1u8] + target_address_bytes(t, domain_ipv6) + be16_bytes(port) + seq![
        0u8,
        0u8,
    ]
}

/// Encodes the CONNECT request for a destination from a local request.
/// `domain_ipv6` is only read for a domain: the domain, brackets trimmed,
/// read as an IPv6 literal.
pub fn target_request(t: &Socks5Target, domain_ipv6: Option<[u8; 16]>, port: u16) -> (r: Vec<u8>)
    ensures
        r@ == target_request_bytes(
            *t,
            match domain_ipv6 {
                Some(o) => Some(o@),
                None => None,
            },
            port,
        ),
{
    match t {
        Socks5Target::Domain(d) => connect_request(d.as_str(), domain_ipv6, port),
        Socks5Target::Ipv4(o) => {
            let mut r: Vec<u8> = Vec::new();
            r.push(SOCKS6_VERSION);
            r.push(1);
            r.push(1);
            push_all(&mut r, o.as_slice());
            push_be16(&mut r, port);
            r.push(0);
            r.push(0);
            assert(r@ =~= target_request_bytes(*t, None, port));
            r
        },
        Socks5Target::Ipv6(o) => {
            let mut r: Vec<u8> = Vec::new();
            r.push(SOCKS6_VERSION);
            r.push(1);
            r.push(4);
            push_all(&mut r, o.as_slice());
            push_be16(&mut r, port);
            r.push(0);
            r.push(0);
            assert(r@ =~= target_request_bytes(*t, None, port));
            r
        },
    }
}

pub fn udp_associate_request() -> (r: Vec<u8>)
    ensures
        r@ == udp_associate_request_bytes(),
{
    let r = vec![SOCKS6_VERSION, 3u8, 1u8, 0u8, 0u8, 0u8, 0u8, 0u8, 0u8, 0u8, 0u8];
    assert(r@ =~= udp_associate_request_bytes());
    r
}

/// Where the address in a reply ends: 3 header bytes, then 4 + 2 bytes for
/// type 1, a length byte and that many + 2 bytes for type 3, 16 + 2 bytes
/// for type 4.
pub open spec fn reply_address_end(buf: Seq<u8>) -> int {
    if buf[2] == 1 {
        9
    } else if buf[2] == 3 {
        6 + buf[3]
    } else {
        21
    }
}

/// What the server's reply in `buf` to the request `req` decides: the bytes
/// still needed, an error, or its end (after the bound address, the option
/// length and the options).
pub open spec fn spec_reply(buf: Seq<u8>, req: Socks6Request) -> Result<Scan<usize>, ProxyError> {
    if buf.len() < 3 {
        Ok(Scan::Need(3))
    } else if buf[0] != SOCKS6_VERSION {
        Err(ProxyError::InvalidReply(buf[0]))
    } else if buf[1] != 0 {
        Err(ProxyError::RequestRejected(req, buf[1]))
    } else if buf[2] != 1 && buf[2] != 3 && buf[2] != 4 {
        Err(ProxyError::UnknownReplyAddressType(buf[2]))
    } else if buf[2] == 3 && buf.len() < 4 {
        Ok(Scan::Need(4))
    } else {
        let end = reply_address_end(buf);
        if buf.len() < end + 2 {
            Ok(Scan::Need((end + 2) as usize))
        } else {
            let total = end + 2 + be16(buf[end], buf[end + 1]);
            if buf.len() < total {
                Ok(Scan::Need(total as usize))
            } else {
                Ok(Scan::Done(total as usize))
            }
        }
    }
}

/// Reads the server's reply to a request.
pub fn parse_reply(buf: &[u8], req: Socks6Request) -> (r: Result<Scan<usize>, ProxyError>)
    ensures
        r == spec_reply(buf@, req),
{
    let len = buf.len();
    if len < 3 {
        return Ok(Scan::Need(3));
    }
    if buf[0] != SOCKS6_VERSION {
        return Err(ProxyError::InvalidReply(buf[0]));
    }
    if buf[1] != 0 {
        return Err(ProxyError::RequestRejected(req, buf[1]));
    }
    let atyp = buf[2];
    let end: usize = if atyp == 1 {
        9
    } else if atyp == 3 {
        if len < 4 {
            return Ok(Scan::Need(4));
        }
        6 + buf[3] as usize
    } else if atyp == 4 {
        21
    } else {
        return Err(ProxyError::UnknownReplyAddressType(atyp));
    };
    if len < end + 2 {
        return Ok(Scan::Need(end + 2));
    }
    let opts = read_be16(buf[end], buf[end + 1]) as usize;
    let total = end + 2 + opts;
    if len < total {
        Ok(Scan::Need(total))
    } else {
        Ok(Scan::Done(total))
    }
}

/// Where the handshake with the server stands.
#[derive(Clone, Copy, Debug, PartialEq, Eq, Structural)]
pub enum Socks6Stage {
    /// Nothing sent yet.
    Start,
    /// The method request was sent; waiting for the server's choice.
    MethodChoice,
    /// The credentials were sent; waiting for the server's verdict.
    AuthReply,
    /// The request was sent; waiting for the server's reply.
    Reply,
    /// The server accepted the request; the stream now carries the payload.
    Established,
    /// The handshake failed.
    Failed,
}

/// What the caller does next in the handshake with the server.
#[derive(Debug)]
pub enum Socks6Step {
    /// Write these bytes; step again with an empty message.
    Send(Vec<u8>),
    /// Read until the current message holds this many bytes, then step again.
    Read(usize),
    /// The server accepted the request.
    Established,
    /// Give up with the error.
    Fail(ProxyError),
}

/// The handshake for one request to the server.
pub struct Socks6Handshake {
    pub stage: Socks6Stage,
    pub kind: Socks6Request,
    pub request: Vec<u8>,
    pub auth: Option<Credentials>,
}

/// `r` and `next` are what a step of the handshake `h` gives for the current
/// message `buf`.
pub open spec fn socks6_step_outcome(
    h: Socks6Handshake,
    buf: Seq<u8>,
    next: Socks6Stage,
    r: Socks6Step,
) -> bool {
    match h.stage {
        Socks6Stage::Start => {
            &&& next == Socks6Stage::MethodChoice
            &&& r matches Socks6Step::Send(b) && b@ == method_request_bytes(h.auth is Some)
        },
        Socks6Stage::MethodChoice => match spec_method_choice(buf, h.auth is Some) {
            Ok(Scan::Need(n)) => {
                &&& next == Socks6Stage::MethodChoice
                &&& r matches Socks6Step::Read(m) && m == n
            },
            Ok(Scan::Done(AuthMethod::NoAuth)) => {
                &&& next == Socks6Stage::Reply
                &&& r matches Socks6Step::Send(b) && b@ == h.request@
            },
            Ok(Scan::Done(AuthMethod::UserPass)) => {
                &&& next == Socks6Stage::AuthReply
                &&& r matches Socks6Step::Send(b) && b@ == user_pass_bytes(
                    h.auth->0.user@,
                    h.auth->0.pass@,
                )
            },
            Err(e) => {
                &&& next == Socks6Stage::Failed
                &&& r == Socks6Step::Fail(e)
            },
        },
        Socks6Stage::AuthReply => match spec_auth_reply(buf) {
            Ok(Scan::Need(n)) => {
                &&& next == Socks6Stage::AuthReply
                &&& r matches Socks6Step::Read(m) && m == n
            },
            Ok(Scan::Done(_)) => {
                &&& next == Socks6Stage::Reply
                &&& r matches Socks6Step::Send(b) && b@ == h.request@
            },
            Err(e) => {
                &&& next == Socks6Stage::Failed
                &&& r == Socks6Step::Fail(e)
            },
        },
        Socks6Stage::Reply => match spec_reply(buf, h.kind) {
            Ok(Scan::Need(n)) => {
                &&& next == Socks6Stage::Reply
                &&& r matches Socks6Step::Read(m) && m == n
            },
            Ok(Scan::Done(_)) => {
                &&& next == Socks6Stage::Established
                &&& r == Socks6Step::Established
            },
            Err(e) => {
                &&& next == Socks6Stage::Failed
                &&& r == Socks6Step::Fail(e)
            },
        },
        _ => false,
    }
}

impl Socks6Handshake {
    /// The handshake for a CONNECT to the destination `target` of a local
    /// request, on `port`; `domain_ipv6` is only read for a domain (the
    /// domain, brackets trimmed, read as an IPv6 literal).
    pub fn connect(
        target: &Socks5Target,
        domain_ipv6: Option<[u8; 16]>,
        port: u16,
        auth: Option<Credentials>,
    ) -> (h: Self)
        ensures
            h.stage == Socks6Stage::Start,
            h.kind == Socks6Request::Connect,
            h.request@ == target_request_bytes(
                *target,
                match domain_ipv6 {
                    Some(o) => Some(o@),
                    None => None,
                },
                port,
            ),
            h.auth == auth,
    {
        Socks6Handshake {
            stage: Socks6Stage::Start,
            kind: Socks6Request::Connect,
            request: target_request(target, domain_ipv6, port),
            auth,
        }
    }

    /// The handshake for a UDP ASSOCIATE.
    pub fn udp_associate(auth: Option<Credentials>) -> (h: Self)
        ensures
            h.stage == Socks6Stage::Start,
            h.kind == Socks6Request::UdpAssociate,
            h.request@ == udp_associate_request_bytes(),
            h.auth == auth,
    {
        Socks6Handshake {
            stage: Socks6Stage::Start,
            kind: Socks6Request::UdpAssociate,
            request: udp_associate_request(),
            auth,
        }
    }

    /// Decides the next move from the bytes of the current message.
    pub fn step(&mut self, buf: &[u8]) -> (r: Socks6Step)
        requires
            old(self).stage != Socks6Stage::Established,
            old(self).stage != Socks6Stage::Failed,
        ensures
            socks6_step_outcome(*old(self), buf@, final(self).stage, r),
            r matches Socks6Step::Read(n) ==> buf@.len() < n,
            final(self).kind == old(self).kind,
            final(self).request == old(self).request,
            final(self).auth == old(self).auth,
    {
        match self.stage {
            Socks6Stage::Start => {
                self.stage = Socks6Stage::MethodChoice;
                Socks6Step::Send(method_request(self.auth.is_some()))
            },
            Socks6Stage::MethodChoice => match parse_method_choice(buf, self.auth.is_some()) {
                Ok(Scan::Need(n)) => Socks6Step::Read(n),
                Ok(Scan::Done(AuthMethod::NoAuth)) => {
                    self.stage = Socks6Stage::Reply;
                    Socks6Step::Send(self.request.clone())
                },
                Ok(Scan::Done(AuthMethod::UserPass)) => {
                    self.stage = Socks6Stage::AuthReply;
                    match &self.auth {
                        Some(c) => Socks6Step::Send(user_pass_request(c)),
                        None => Socks6Step::Fail(ProxyError::AuthRequired),
                    }
                },
                Err(e) => {
                    self.stage = Socks6Stage::Failed;
                    Socks6Step::Fail(e)
                },
            },
            Socks6Stage::AuthReply => match parse_auth_reply(buf) {
                Ok(Scan::Need(n)) => Socks6Step::Read(n),
                Ok(Scan::Done(_)) => {
                    self.stage = Socks6Stage::Reply;
                    Socks6Step::Send(self.request.clone())
                },
                Err(e) => {
                    self.stage = Socks6Stage::Failed;
                    Socks6Step::Fail(e)
                },
            },
            Socks6Stage::Reply => match parse_reply(buf, self.kind) {
                Ok(Scan::Need(n)) => Socks6Step::Read(n),
                Ok(Scan::Done(_)) => {
                    self.stage = Socks6Stage::Established;
                    Socks6Step::Established
                },
                Err(e) => {
                    self.stage = Socks6Stage::Failed;
                    Socks6Step::Fail(e)
                },
            },
            // Excluded by the precondition: a finished handshake is not stepped.
            _ => Socks6Step::Fail(ProxyError::AuthFailed),
        }
    }
}

proof fn lemma_be16_bytes_of(hi: u8, lo: u8)
    ensures
        be16_bytes(be16(hi, lo)) == seq![hi, lo],
{
    assert(be16_bytes(be16(hi, lo)) =~= seq![hi, lo]);
}

proof fn lemma_ipv4_host(o: Seq<u8>)
    requires
        o.len() == 4,
    ensures
        is_ipv4_host(ipv4_text(o)),
        ipv4_octets(ipv4_text(o)) == o,
{
    assert(is_ipv4_text_of(ipv4_text(o), o));
    let c = ipv4_octets(ipv4_text(o));
    lemma_ipv4_text_injective(c, o);
}

/// The CONNECT that the server receives names the destination that the
/// local client asked for, with the same port bytes: an IPv4 destination as
/// type 1 with the same four octets, an IPv6 destination as type 4 with the
/// same sixteen octets, and a domain that is neither an IPv4 literal nor an
/// IPv6 literal as type 3 with the same length byte and bytes.
pub proof fn lemma_connect_forwards_target(
    buf: Seq<u8>,
    req: Socks5Request,
    domain_ipv6: Option<Seq<u8>>,
)
    requires
        spec_request_scan(buf) == Ok::<Option<int>, ProxyError>(None),
        request_fields(buf, req),
    ensures
        req.target is Ipv4 ==> target_request_bytes(req.target, domain_ipv6, req.port) == seq![
            SOCKS6_VERSION,
            1u8,
            1u8,
        ] + buf.subrange(4, 8) + seq![buf[8], buf[9], 0u8, 0u8],
        req.target is Ipv6 ==> target_request_bytes(req.target, domain_ipv6, req.port) == seq![
            SOCKS6_VERSION,
            1u8,
            4u8,
        ] + buf.subrange(4, 20) + seq![buf[20], buf[21], 0u8, 0u8],
        req.target matches Socks5Target::Domain(d) && !is_ipv4_host(d@) && domain_ipv6 is None
            ==> target_request_bytes(req.target, domain_ipv6, req.port) == seq![
            SOCKS6_VERSION,
            1u8,
            3u8,
            buf[4],
        ] + domain_bytes(buf) + seq![buf[5 + buf[4]], buf[6 + buf[4]], 0u8, 0u8],
{
    match req.target {
        Socks5Target::Ipv4(o) => {
            lemma_be16_bytes_of(buf[8], buf[9]);
            assert(target_request_bytes(req.target, domain_ipv6, req.port) =~= seq![
                SOCKS6_VERSION,
                1u8,
                1u8,
            ] + buf.subrange(4, 8) + seq![buf[8], buf[9], 0u8, 0u8]);
        },
        Socks5Target::Ipv6(o) => {
            lemma_be16_bytes_of(buf[20], buf[21]);
            assert(target_request_bytes(req.target, domain_ipv6, req.port) =~= seq![
                SOCKS6_VERSION,
                1u8,
                4u8,
            ] + buf.subrange(4, 20) + seq![buf[20], buf[21], 0u8, 0u8]);
        },
        Socks5Target::Domain(d) => {
            if !is_ipv4_host(d@) && domain_ipv6 is None {
                let l = buf[4] as int;
                decode_utf8_encode_utf8(domain_bytes(buf));
                assert(encode_utf8(d@) == domain_bytes(buf));
                assert((encode_utf8(d@).len() % 256) as u8 == buf[4]);
                lemma_be16_bytes_of(buf[5 + l], buf[6 + l]);
                assert(target_request_bytes(req.target, domain_ipv6, req.port) =~= seq![
                    SOCKS6_VERSION,
                    1u8,
                    3u8,
                    buf[4],
                ] + domain_bytes(buf) + seq![buf[5 + l], buf[6 + l], 0u8, 0u8]);
            }
        },
    }
}

/// Naming a destination by its type and octets gives the same request as
/// naming it by its host text and reading that text back: an IPv4
/// destination's dotted-decimal text is read back as the same octets
/// whatever the IPv6 reading is; an IPv6 destination's bracketed text, when
/// its IPv6 reading gives the same octets, is sent as type 4 with them; a
/// domain is its own host text.
pub proof fn lemma_target_request_is_host_request(
    t: Socks5Target,
    ipv6_text: Seq<char>,
    ipv6: Option<Seq<u8>>,
    port: u16,
)
    ensures
        t is Ipv4 ==> target_request_bytes(t, ipv6, port) == connect_request_bytes(
            target_host_text(t, ipv6_text),
            ipv6,
            port,
        ),
        t matches Socks5Target::Ipv6(o) && ipv6 == Some(o@) ==> target_request_bytes(t, ipv6, port)
            == connect_request_bytes(target_host_text(t, ipv6_text), ipv6, port),
        t is Domain ==> target_request_bytes(t, ipv6, port) == connect_request_bytes(
            target_host_text(t, ipv6_text),
            ipv6,
            port,
        ),
{
    let host = target_host_text(t, ipv6_text);
    match t {
        Socks5Target::Ipv4(o) => {
            lemma_ipv4_host(o@);
        },
        Socks5Target::Ipv6(o) => {
            if ipv6 == Some(o@) {
                assert(!is_ipv4_host(host)) by {
                    if is_ipv4_host(host) {
                        let w = choose|w: Seq<u8>| is_ipv4_text_of(host, w);
                        lemma_decimal_text_parses(w[0]);
                        assert(host[0] == ipv4_text(w)[0]);
                        assert(ipv4_text(w)[0] == decimal_text(w[0])[0]);
                        assert(is_digit(decimal_text(w[0])[0]));
                    }
                }
            }
        },
        Socks5Target::Domain(_) => {},
    }
}

/// A reply that reports an IPv4 bound address and carries `opts.len()`
/// bytes of options is read in full and no further.
pub proof fn lemma_reply_read_exactly(
    addr: Seq<u8>,
    opts: Seq<u8>,
    req: Socks6Request,
)
    requires
        addr.len() == 6,
        opts.len() <= 0xffff,
    ensures
        spec_reply(
            seq![SOCKS6_VERSION, 0u8, 1u8] + addr + be16_bytes(opts.len() as u16) + opts,
            req,
        ) == Ok::<Scan<usize>, ProxyError>(Scan::Done((11 + opts.len()) as usize)),
{
    let b = seq![SOCKS6_VERSION, 0u8, 1u8] + addr + be16_bytes(opts.len() as u16) + opts;
    let n = opts.len() as u16;
    assert(b[9] == be16_bytes(n)[0]);
    assert(b[10] == be16_bytes(n)[1]);
    assert(be16(b[9], b[10]) == n);
}

/// A successful reply of any bound-address type is read to exactly its full
/// length: 3 header bytes, the address (4 octets for type 1, a length byte
/// and that many bytes for type 3, 16 octets for type 4), 2 port bytes, the
/// 2-byte option length `L` and `L` option bytes.
pub proof fn lemma_reply_read_to_its_end(
    atyp: u8,
    addr: Seq<u8>,
    port: Seq<u8>,
    opts: Seq<u8>,
    req: Socks6Request,
)
    requires
        port.len() == 2,
        opts.len() <= 0xffff,
        (atyp == 1 && addr.len() == 4) || (atyp == 4 && addr.len() == 16) || (atyp == 3
            && addr.len() >= 1 && addr.len() == 1 + addr[0]),
    ensures
        spec_reply(
            seq![SOCKS6_VERSION, 0u8, atyp] + addr + port + be16_bytes(opts.len() as u16) + opts,
            req,
        ) == Ok::<Scan<usize>, ProxyError>(
            Scan::Done((3 + addr.len() + 2 + 2 + opts.len()) as usize),
        ),
{
    let b = seq![SOCKS6_VERSION, 0u8, atyp] + addr + port + be16_bytes(opts.len() as u16) + opts;
    let n = opts.len() as u16;
    let e: int = 3 + addr.len() as int + 2;
    if atyp == 3 {
        assert(b[3] == addr[0]);
    }
    assert(reply_address_end(b) == e);
    assert(b[e] == be16_bytes(n)[0]);
    assert(b[e + 1] == be16_bytes(n)[1]);
    assert(be16(b[e], b[e + 1]) == n);
}

} // verus!
