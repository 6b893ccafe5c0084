//! The local side: a SOCKS5 server handshake (RFC 1928) as spoken to the
//! applications that use the proxy. Only the no-authentication method and
//! the CONNECT and UDP ASSOCIATE commands are served.
use vstd::prelude::*;
use vstd::utf8::{decode_utf8, valid_utf8};

use crate::bindings::{push_char, string_from_utf8};
use crate::error::ProxyError;
use crate::text::{format_ipv4, ipv4_text};
use crate::wire::{be16, be16_bytes, copy_array, copy_range, push_all, push_be16, read_be16, Scan};

verus! {

pub const SOCKS5_VERSION: u8 = 5;

/// Reply code of a SOCKS5 reply that reports success.
pub const REPLY_SUCCEEDED: u8 = 0;

/// Reply code of a SOCKS5 reply that reports an unsupported command.
pub const REPLY_COMMAND_NOT_SUPPORTED: u8 = 7;

/// The command of a client request.
#[derive(Clone, Copy, Debug, PartialEq, Eq, Structural)]
pub enum Socks5Command {
    Connect,
    UdpAssociate,
}

/// The destination named in a client request.
#[derive(Debug)]
pub enum Socks5Target {
    Ipv4([u8; 4]),
    Domain(String),
    Ipv6([u8; 16]),
}

/// A complete client request.
#[derive(Debug)]
pub struct Socks5Request {
    pub command: Socks5Command,
    pub target: Socks5Target,
    pub port: u16,
}

/// The address that a reply reports to the client.
#[derive(Clone, Copy, Debug)]
pub enum BindAddress {
    V4([u8; 4], u16),
    V6([u8; 16], u16),
}

/// What the greeting in `buf` decides: the bytes still needed, a version
/// error, or whether the client offers the no-authentication method (0).
pub open spec fn spec_greeting(buf: Seq<u8>) -> Result<Scan<bool>, ProxyError> {
    if buf.len() < 2 {
        Ok(Scan::Need(2))
    } else if buf[0] != SOCKS5_VERSION {
        Err(ProxyError::NotSocks5(buf[0]))
    } else if buf.len() < 2 + buf[1] {
        Ok(Scan::Need((2 + buf[1]) as usize))
    } else {
        Ok(Scan::Done(buf.subrange(2, 2 + buf[1]).contains(0u8)))
    }
}

/// A complete greeting is accepted exactly when the byte 0 (no
/// authentication) occurs at some position among its method bytes.
pub proof fn lemma_greeting_accepts_no_auth_anywhere(buf: Seq<u8>)
    requires
        buf.len() >= 2,
        buf[0] == SOCKS5_VERSION,
        buf.len() >= 2 + buf[1],
    ensures
        spec_greeting(buf) == Ok::<Scan<bool>, ProxyError>(
            Scan::Done(exists|i: int| 2 <= i < 2 + buf[1] && buf[i] == 0u8),
        ),
{
    let m = buf.subrange(2, 2 + buf[1]);
    let offered = exists|i: int| 2 <= i < 2 + buf[1] && buf[i] == 0u8;
    if offered {
        let i = choose|i: int| 2 <= i < 2 + buf[1] && buf[i] == 0u8;
        assert(m[i - 2] == 0u8);
        assert(m.contains(0u8));
    }
    if m.contains(0u8) {
        let j = choose|j: int| 0 <= j < m.len() && m[j] == 0u8;
        assert(buf[j + 2] == 0u8);
    }
}

/// Reads a client greeting (version, method count, methods).
pub fn parse_greeting(buf: &[u8]) -> (r: Result<Scan<bool>, ProxyError>)
    ensures
        r == spec_greeting(buf@),
{
    if buf.len() < 2 {
        return Ok(Scan::Need(2));
    }
    if buf[0] != SOCKS5_VERSION {
        return Err(ProxyError::NotSocks5(buf[0]));
    }
    let n = buf[1] as usize;
    if buf.len() < 2 + n {
        return Ok(Scan::Need(2 + n));
    }
    let mut i: usize = 2;
    while i < 2 + n
        invariant
            2 <= i <= 2 + n,
            2 + n <= buf@.len(),
            n == buf@[1],
            buf@[0] == SOCKS5_VERSION,
            forall|j: int| 2 <= j < i ==> buf@[j] != 0u8,
        decreases 2 + n - i,
    {
        if buf[i] == 0 {
            proof {
                assert(buf@.subrange(2, 2 + n as int)[i - 2] == 0u8);
                assert(buf@.subrange(2, 2 + n as int).contains(0u8));
            }
            return Ok(Scan::Done(true));
        }
        i = i + 1;
    }
    proof {
        let m = buf@.subrange(2, 2 + n as int);
        assert forall|j: int| 0 <= j < m.len() implies m[j] != 0u8 by {
            assert(m[j] == buf@[j + 2]);
        }
    }
    Ok(Scan::Done(false))
}

/// The bytes of a client request that a domain target occupies.
pub open spec fn domain_bytes(buf: Seq<u8>) -> Seq<u8> {
    buf.subrange(5, 5 + buf[4])
}

/// What the request in `buf` decides before its target is decoded: an
/// error, `Some(n)` when `n` bytes are needed in total, or `None` when the
/// request is complete.
pub open spec fn spec_request_scan(buf: Seq<u8>) -> Result<Option<int>, ProxyError> {
    if buf.len() < 4 {
        Ok(Some(4))
    } else if buf[0] != SOCKS5_VERSION {
        Err(ProxyError::NotSocks5(buf[0]))
    } else if buf[1] != 1 && buf[1] != 3 {
        Err(ProxyError::UnsupportedCommand(buf[1]))
    } else if buf[3] == 1 {
        if buf.len() < 10 {
            Ok(Some(10))
        } else {
            Ok(None)
        }
    } else if buf[3] == 3 {
        if buf.len() < 5 {
            Ok(Some(5))
        } else if buf.len() < 7 + buf[4] {
            Ok(Some(7 + buf[4]))
        } else {
            Ok(None)
        }
    } else if buf[3] == 4 {
        if buf.len() < 22 {
            Ok(Some(22))
        } else {
            Ok(None)
        }
    } else {
        Err(ProxyError::UnsupportedAddressType(buf[3]))
    }
}

/// `req` is what the complete request in `buf` asks for.
pub open spec fn request_fields(buf: Seq<u8>, req: Socks5Request) -> bool {
    &&& req.command == (if buf[1] == 1 {
        Socks5Command::Connect
    } else {
        Socks5Command::UdpAssociate
    })
    &&& match req.target {
        Socks5Target::Ipv4(o) => buf[3] == 1 && o@ == buf.subrange(4, 8) && req.port == be16(
            buf[8],
            buf[9],
        ),
        Socks5Target::Domain(d) => {
            let l = buf[4] as int;
            &&& buf[3] == 3
            &&& valid_utf8(domain_bytes(buf))
            &&& d@ == decode_utf8(domain_bytes(buf))
            &&& req.port == be16(buf[5 + l], buf[6 + l])
        },
        Socks5Target::Ipv6(o) => buf[3] == 4 && o@ == buf.subrange(4, 20) && req.port == be16(
            buf[20],
            buf[21],
        ),
    }
}

/// `r` is what reading the request in `buf` gives.
pub open spec fn request_outcome(buf: Seq<u8>, r: Result<Scan<Socks5Request>, ProxyError>) -> bool {
    match spec_request_scan(buf) {
        Err(e) => r == Err::<Scan<Socks5Request>, ProxyError>(e),
        Ok(Some(n)) => r matches Ok(Scan::Need(m)) && m == n,
        Ok(None) => if buf[3] == 3 && !valid_utf8(domain_bytes(buf)) {
            r == Err::<Scan<Socks5Request>, ProxyError>(ProxyError::InvalidDomain)
        } else {
            r matches Ok(Scan::Done(req)) && request_fields(buf, req)
        },
    }
}

/// Reads a client request (version, command, reserved byte, address type,
/// address, port). The target of a CONNECT or UDP ASSOCIATE is decoded in
/// both cases; a domain must be valid UTF-8.
pub fn parse_request(buf: &[u8]) -> (r: Result<Scan<Socks5Request>, ProxyError>)
    ensures
        request_outcome(buf@, r),
{
    let len = buf.len();
    if len < 4 {
        return Ok(Scan::Need(4));
    }
    if buf[0] != SOCKS5_VERSION {
        return Err(ProxyError::NotSocks5(buf[0]));
    }
    let cmd = buf[1];
    if cmd != 1 && cmd != 3 {
        return Err(ProxyError::UnsupportedCommand(cmd));
    }
    let command = if cmd == 1 {
        Socks5Command::Connect
    } else {
        Socks5Command::UdpAssociate
    };
    let atyp = buf[3];
    if atyp == 1 {
        if len < 10 {
            return Ok(Scan::Need(10));
        }
        let o: [u8; 4] = copy_array(buf, 4);
        let port = read_be16(buf[8], buf[9]);
        Ok(Scan::Done(Socks5Request { command, target: Socks5Target::Ipv4(o), port }))
    } else if atyp == 3 {
        if len < 5 {
            return Ok(Scan::Need(5));
        }
        let l = buf[4] as usize;
        if len < 7 + l {
            return Ok(Scan::Need(7 + l));
        }
        let bytes = copy_range(buf, 5, 5 + l);
        let port = read_be16(buf[5 + l], buf[6 + l]);
        match string_from_utf8(bytes) {
            Some(d) => Ok(Scan::Done(Socks5Request { command, target: Socks5Target::Domain(d), port })),
            None => Err(ProxyError::InvalidDomain),
        }
    } else if atyp == 4 {
        if len < 22 {
            return Ok(Scan::Need(22));
        }
        let o: [u8; 16] = copy_array(buf, 4);
        let port = read_be16(buf[20], buf[21]);
        Ok(Scan::Done(Socks5Request { command, target: Socks5Target::Ipv6(o), port }))
    } else {
        Err(ProxyError::UnsupportedAddressType(atyp))
    }
}

/// The bytes of a reply with code `rep` that reports `addr`.
pub open spec fn reply_bytes(rep: u8, addr: BindAddress) -> Seq<u8> {
    match addr {
        BindAddress::V4(o, p) => seq![SOCKS5_VERSION, rep, 0u8, 1u8] + o@ + be16_bytes(p),
        BindAddress::V6(o, p) => seq![SOCKS5_VERSION, rep, 0u8, 4u8] + o@ + be16_bytes(p),
    }
}

/// Encodes a reply with code `rep` that reports `addr`.
pub fn encode_reply(rep: u8, addr: &BindAddress) -> (r: Vec<u8>)
    ensures
        r@ == reply_bytes(rep, *addr),
{
    let mut r: Vec<u8> = Vec::new();
    r.push(SOCKS5_VERSION);
    r.push(rep);
    r.push(0);
    match addr {
        BindAddress::V4(o, p) => {
            r.push(1);
            push_all(&mut r, o.as_slice());
            push_be16(&mut r, *p);
        },
        BindAddress::V6(o, p) => {
            r.push(4);
            push_all(&mut r, o.as_slice());
            push_be16(&mut r, *p);
        },
    }
    proof {
        assert(r@ =~= reply_bytes(rep, *addr));
    }
    r
}

/// The reply sent when a CONNECT has been set up.
pub fn success_reply() -> (r: Vec<u8>)
    ensures
        r@ == seq![5u8, 0u8, 0u8, 1u8, 0u8, 0u8, 0u8, 0u8, 0u8, 0u8],
{
    let r = encode_reply(REPLY_SUCCEEDED, &BindAddress::V4([0u8; 4], 0));
    assert(r@ =~= seq![5u8, 0u8, 0u8, 1u8, 0u8, 0u8, 0u8, 0u8, 0u8, 0u8]);
    r
}

/// The reply sent when a UDP ASSOCIATE has been set up, reporting the relay
/// socket's address.
pub fn udp_relay_reply(relay: &BindAddress) -> (r: Vec<u8>)
    ensures
        r@ == reply_bytes(REPLY_SUCCEEDED, *relay),
{
    encode_reply(REPLY_SUCCEEDED, relay)
}

/// The reply sent when the client asks for an unsupported command.
pub fn command_not_supported_reply() -> (r: Vec<u8>)
    ensures
        r@ == seq![5u8, 7u8, 0u8, 1u8, 0u8, 0u8, 0u8, 0u8, 0u8, 0u8],
{
    let r = encode_reply(REPLY_COMMAND_NOT_SUPPORTED, &BindAddress::V4([0u8; 4], 0));
    assert(r@ =~= seq![5u8, 7u8, 0u8, 1u8, 0u8, 0u8, 0u8, 0u8, 0u8, 0u8]);
    r
}

/// A request to reach the IPv4 address `o` on `port` is accepted and read
/// back as that command, that address and that port.
pub proof fn lemma_ipv4_request_read_back(cmd: u8, o: Seq<u8>, port: u16, req: Socks5Request)
    requires
        cmd == 1 || cmd == 3,
        o.len() == 4,
        request_fields(seq![SOCKS5_VERSION, cmd, 0u8, 1u8] + o + be16_bytes(port), req),
    ensures
        spec_request_scan(seq![SOCKS5_VERSION, cmd, 0u8, 1u8] + o + be16_bytes(port)) == Ok::<
            Option<int>,
            ProxyError,
        >(None),
        req.command == (if cmd == 1 {
            Socks5Command::Connect
        } else {
            Socks5Command::UdpAssociate
        }),
        req.target matches Socks5Target::Ipv4(a) && a@ == o,
        req.port == port,
{
    let b = seq![SOCKS5_VERSION, cmd, 0u8, 1u8] + o + be16_bytes(port);
    assert(b.subrange(4, 8) =~= o);
    assert(b[8] == be16_bytes(port)[0]);
    assert(b[9] == be16_bytes(port)[1]);
}

/// A request to reach the domain whose UTF-8 bytes are `name` on `port` is
/// accepted and read back as that command, that domain and that port.
pub proof fn lemma_domain_request_read_back(cmd: u8, name: Seq<u8>, port: u16, req: Socks5Request)
    requires
        cmd == 1 || cmd == 3,
        name.len() <= 255,
        valid_utf8(name),
        request_fields(
            seq![SOCKS5_VERSION, cmd, 0u8, 3u8, name.len() as u8] + name + be16_bytes(port),
            req,
        ),
    ensures
        spec_request_scan(
            seq![SOCKS5_VERSION, cmd, 0u8, 3u8, name.len() as u8] + name + be16_bytes(port),
        ) == Ok::<Option<int>, ProxyError>(None),
        req.command == (if cmd == 1 {
            Socks5Command::Connect
        } else {
            Socks5Command::UdpAssociate
        }),
        req.target matches Socks5Target::Domain(d) && d@ == decode_utf8(name),
        req.port == port,
{
    let b = seq![SOCKS5_VERSION, cmd, 0u8, 3u8, name.len() as u8] + name + be16_bytes(port);
    let l = name.len() as int;
    assert(domain_bytes(b) =~= name);
    assert(b[5 + l] == be16_bytes(port)[0]);
    assert(b[6 + l] == be16_bytes(port)[1]);
}

/// A request to reach the IPv6 address `o` on `port` is accepted and read
/// back as that command, that address and that port.
pub proof fn lemma_ipv6_request_read_back(cmd: u8, o: Seq<u8>, port: u16, req: Socks5Request)
    requires
        cmd == 1 || cmd == 3,
        o.len() == 16,
        request_fields(seq![SOCKS5_VERSION, cmd, 0u8, 4u8] + o + be16_bytes(port), req),
    ensures
        spec_request_scan(seq![SOCKS5_VERSION, cmd, 0u8, 4u8] + o + be16_bytes(port)) == Ok::<
            Option<int>,
            ProxyError,
        >(None),
        req.command == (if cmd == 1 {
            Socks5Command::Connect
        } else {
            Socks5Command::UdpAssociate
        }),
        req.target matches Socks5Target::Ipv6(a) && a@ == o,
        req.port == port,
{
    let b = seq![SOCKS5_VERSION, cmd, 0u8, 4u8] + o + be16_bytes(port);
    assert(b.subrange(4, 20) =~= o);
    assert(b[20] == be16_bytes(port)[0]);
    assert(b[21] == be16_bytes(port)[1]);
}

/// Where the handshake with a local client stands.
#[derive(Clone, Copy, Debug, PartialEq, Eq, Structural)]
pub enum Socks5Stage {
    /// Waiting for the greeting.
    Greeting,
    /// The no-authentication method was chosen; waiting for the request.
    Request,
    /// The handshake has ended, with a request or with an error.
    Finished,
}

/// What the caller does next in the handshake with a local client.
#[derive(Debug)]
pub enum Socks5Step {
    /// Read until the current message holds this many bytes, then step again.
    Read(usize),
    /// Write these bytes; the current message is consumed; step again with
    /// an empty message.
    Reply(Vec<u8>),
    /// Write these bytes (none when empty), then give up with the error.
    Fail(Vec<u8>, ProxyError),
    /// The handshake is complete with this request.
    Accept(Socks5Request),
}

/// The handshake with one local client, message by message.
pub struct Socks5Handshake {
    pub stage: Socks5Stage,
}

/// `r` and `next` are what a step of the handshake at `stage` gives for the
/// current message `buf`.
pub open spec fn socks5_step_outcome(
    stage: Socks5Stage,
    buf: Seq<u8>,
    next: Socks5Stage,
    r: Socks5Step,
) -> bool {
    match stage {
        Socks5Stage::Greeting => match spec_greeting(buf) {
            Ok(Scan::Need(n)) => {
                &&& next == Socks5Stage::Greeting
                &&& r matches Socks5Step::Read(m) && m == n
            },
            Ok(Scan::Done(true)) => {
                &&& next == Socks5Stage::Request
                &&& r matches Socks5Step::Reply(b) && b@ == seq![SOCKS5_VERSION, 0u8]
            },
            Ok(Scan::Done(false)) => {
                &&& next == Socks5Stage::Finished
                &&& r matches Socks5Step::Fail(b, e) && b@ == seq![SOCKS5_VERSION, 0xffu8] && e
                    == ProxyError::NoAcceptableMethod
            },
            Err(e) => {
                &&& next == Socks5Stage::Finished
                &&& r matches Socks5Step::Fail(b, e2) && b@.len() == 0 && e2 == e
            },
        },
        Socks5Stage::Request => match spec_request_scan(buf) {
            Ok(Some(n)) => {
                &&& next == Socks5Stage::Request
                &&& r matches Socks5Step::Read(m) && m == n
            },
            Err(ProxyError::UnsupportedCommand(c)) => {
                &&& next == Socks5Stage::Finished
                &&& r matches Socks5Step::Fail(b, e) && b@ == seq![
                    SOCKS5_VERSION,
                    REPLY_COMMAND_NOT_SUPPORTED,
                    0u8,
                    1u8,
                    0u8,
                    0u8,
                    0u8,
                    0u8,
                    0u8,
                    0u8,
                ] && e == ProxyError::UnsupportedCommand(c)
            },
            Err(e) => {
                &&& next == Socks5Stage::Finished
                &&& r matches Socks5Step::Fail(b, e2) && b@.len() == 0 && e2 == e
            },
            Ok(None) => {
                &&& next == Socks5Stage::Finished
                &&& if buf[3] == 3 && !valid_utf8(domain_bytes(buf)) {
                    r matches Socks5Step::Fail(b, e) && b@.len() == 0 && e
                        == ProxyError::InvalidDomain
                } else {
                    r matches Socks5Step::Accept(req) && request_fields(buf, req)
                }
            },
        },
        Socks5Stage::Finished => false,
    }
}

impl Socks5Handshake {
    /// A handshake waiting for the client's greeting.
    pub fn new() -> (h: Self)
        ensures
            h.stage == Socks5Stage::Greeting,
    {
        Socks5Handshake { stage: Socks5Stage::Greeting }
    }

    /// Decides the next move from the bytes of the current message.
    pub fn step(&mut self, buf: &[u8]) -> (r: Socks5Step)
        requires
            old(self).stage != Socks5Stage::Finished,
        ensures
            socks5_step_outcome(old(self).stage, buf@, final(self).stage, r),
            r matches Socks5Step::Read(n) ==> buf@.len() < n,
    {
        match self.stage {
            Socks5Stage::Greeting => match parse_greeting(buf) {
                Ok(Scan::Need(n)) => Socks5Step::Read(n),
                Ok(Scan::Done(true)) => {
                    self.stage = Socks5Stage::Request;
                    let mut b: Vec<u8> = Vec::new();
                    b.push(SOCKS5_VERSION);
                    b.push(0);
                    assert(b@ =~= seq![SOCKS5_VERSION, 0u8]);
                    Socks5Step::Reply(b)
                },
                Ok(Scan::Done(false)) => {
                    self.stage = Socks5Stage::Finished;
                    let mut b: Vec<u8> = Vec::new();
                    b.push(SOCKS5_VERSION);
                    b.push(0xff);
                    assert(b@ =~= seq![SOCKS5_VERSION, 0xffu8]);
                    Socks5Step::Fail(b, ProxyError::NoAcceptableMethod)
                },
                Err(e) => {
                    self.stage = Socks5Stage::Finished;
                    Socks5Step::Fail(Vec::new(), e)
                },
            },
            Socks5Stage::Request => match parse_request(buf) {
                Ok(Scan::Need(n)) => Socks5Step::Read(n),
                Ok(Scan::Done(req)) => {
                    self.stage = Socks5Stage::Finished;
                    Socks5Step::Accept(req)
                },
                Err(ProxyError::UnsupportedCommand(c)) => {
                    self.stage = Socks5Stage::Finished;
                    let b = command_not_supported_reply();
                    Socks5Step::Fail(b, ProxyError::UnsupportedCommand(c))
                },
                Err(e) => {
                    self.stage = Socks5Stage::Finished;
                    Socks5Step::Fail(Vec::new(), e)
                },
            },
            // Excluded by the precondition: a finished handshake is not stepped.
            Socks5Stage::Finished => Socks5Step::Fail(Vec::new(), ProxyError::NotSocks5(0)),
        }
    }
}

/// The host text of a target: an IPv4 address in dotted-decimal form, a
/// domain as it is, an IPv6 address as `ipv6_text` in square brackets.
pub open spec fn target_host_text(t: Socks5Target, ipv6_text: Seq<char>) -> Seq<char> {
    match t {
        Socks5Target::Ipv4(o) => ipv4_text(o@),
        Socks5Target::Domain(d) => d@,
        Socks5Target::Ipv6(_) => seq!['['] + ipv6_text + seq![']'],
    }
}

/// The host text of a target. `ipv6_text` is the textual form of the
/// target's IPv6 address (only read for an IPv6 target).
pub fn target_host(t: &Socks5Target, ipv6_text: &str) -> (s: String)
    ensures
        s@ == target_host_text(*t, ipv6_text@),
{
    match t {
        Socks5Target::Ipv4(o) => format_ipv4(o),
        Socks5Target::Domain(d) => d.clone(),
        Socks5Target::Ipv6(_) => {
            let mut s = String::new();
            push_char(&mut s, '[');
            s.append(ipv6_text);
            push_char(&mut s, ']');
            assert(s@ =~= seq!['['] + ipv6_text@ + seq![']']);
            s
        },
    }
}

/// The host to bind the UDP relay socket to: the loopback address when the
/// client reached the proxy over loopback, else every interface.
pub fn relay_bind_host(local_is_loopback: bool) -> (s: String)
    ensures
        s@ == if local_is_loopback {
            "127.0.0.1"@
        } else {
            "0.0.0.0"@
        },
{
    if local_is_loopback {
        String::from_str("127.0.0.1")
    } else {
        String::from_str("0.0.0.0")
    }
}

pub open spec fn is_bracket(c: char) -> bool {
    c == '[' || c == ']'
}

/// `host` with every leading and trailing square bracket removed.
pub fn trim_brackets(host: &str) -> (r: String)
    ensures
        exists|a: int, b: int|
            {
                &&& 0 <= a <= b <= host@.len()
                &&& r@ == host@.subrange(a, b)
                &&& forall|i: int| 0 <= i < a ==> is_bracket(#[trigger] host@[i])
                &&& forall|i: int| b <= i < host@.len() ==> is_bracket(#[trigger] host@[i])
                &&& a < b ==> !is_bracket(host@[a]) && !is_bracket(host@[b - 1])
            },
{
    let n = host.unicode_len();
    let mut a: usize = 0;
    while a < n
        invariant
            n == host@.len(),
            a <= n,
            forall|i: int| 0 <= i < a ==> is_bracket(#[trigger] host@[i]),
        ensures
            a <= n,
            forall|i: int| 0 <= i < a ==> is_bracket(#[trigger] host@[i]),
            a < n ==> !is_bracket(host@[a as int]),
        decreases n - a,
    {
        let c = host.get_char(a);
        if c != '[' && c != ']' {
            break ;
        }
        a = a + 1;
    }
    let mut b: usize = n;
    while b > a
        invariant
            n == host@.len(),
            a <= b <= n,
            forall|i: int| b <= i < n ==> is_bracket(#[trigger] host@[i]),
        ensures
            a <= b <= n,
            forall|i: int| b <= i < n ==> is_bracket(#[trigger] host@[i]),
            a < b ==> !is_bracket(host@[b - 1]),
        decreases b - a,
    {
        let c = host.get_char(b - 1);
        if c != '[' && c != ']' {
            break ;
        }
        b = b - 1;
    }
    let r = host.substring_char(a, b).to_owned();
    r
}

} // verus!
