//! The proxy engine's decisions: whether a session may start, what it is
//! configured with, how it stops, and what its status reports.
use vstd::prelude::*;

use crate::error::ProxyError;
use crate::keys::{decode_secret, decode_short_id, spec_decode_secret, spec_decode_short_id};
use crate::profiles::Profile;
use crate::socks6::Credentials;

verus! {

/// What the user interface is told about the proxy.
#[derive(Debug)]
pub struct ProxyStatus {
    pub connected: bool,
    pub profile_id: Option<String>,
    pub listen_addr: Option<String>,
    pub server: Option<String>,
    pub uptime_secs: u64,
    pub connections: u64,
}

/// The running session: which profile, where it listens, which server, and
/// how many local clients it has accepted.
#[derive(Debug)]
pub struct Session {
    pub profile_id: String,
    pub listen_addr: String,
    pub server: String,
    pub connections: u64,
}

/// The session `s` after `k` more local clients were accepted; the count
/// wraps around as a 64-bit counter does.
pub open spec fn accepted(s: Session, k: nat) -> Session {
    Session {
        profile_id: s.profile_id,
        listen_addr: s.listen_addr,
        server: s.server,
        connections: ((s.connections + k) % 0x1_0000_0000_0000_0000) as u64,
    }
}

/// Everything a running session needs from its profile.
#[derive(Debug)]
pub struct ProxyConfig {
    pub server: String,
    pub server_name: String,
    pub secret: [u8; 32],
    pub short_id: [u8; 8],
    pub auth: Option<Credentials>,
    pub auth_time_offset_secs: i64,
    /// How many TLS handshakes may run at once.
    pub tls_slots: usize,
}

/// A profile carries credentials when both its username and its password
/// are non-empty.
pub open spec fn has_credentials(p: Profile) -> bool {
    p.auth_user@.len() > 0 && p.auth_pass@.len() > 0
}

/// The credentials of a profile, if it carries them.
pub fn profile_credentials(p: &Profile) -> (r: Option<Credentials>)
    ensures
        match r {
            Some(c) => has_credentials(*p) && c.user@ == p.auth_user@ && c.pass@ == p.auth_pass@,
            None => !has_credentials(*p),
        },
{
    if !p.auth_user.as_str().is_empty() && !p.auth_pass.as_str().is_empty() {
        Some(Credentials { user: p.auth_user.clone(), pass: p.auth_pass.clone() })
    } else {
        None
    }
}

/// The number of concurrent TLS handshakes a profile allows: its setting,
/// at least one.
pub fn tls_slots(max_tls_parallel: usize) -> (n: usize)
    ensures
        n == if max_tls_parallel < 1 {
            1
        } else {
            max_tls_parallel
        },
{
    if max_tls_parallel < 1 {
        1
    } else {
        max_tls_parallel
    }
}

/// `cfg` is the configuration that `p` gives, its keys decoded.
pub open spec fn config_of(p: Profile, cfg: ProxyConfig) -> bool {
    &&& cfg.server@ == p.server@
    &&& cfg.server_name@ == p.server_name@
    &&& spec_decode_secret(p.secret@) == Ok::<Seq<u8>, ProxyError>(cfg.secret@)
    &&& spec_decode_short_id(p.short_id@) == Ok::<Seq<u8>, ProxyError>(cfg.short_id@)
    &&& match cfg.auth {
        Some(c) => has_credentials(p) && c.user@ == p.auth_user@ && c.pass@ == p.auth_pass@,
        None => !has_credentials(p),
    }
    &&& cfg.auth_time_offset_secs == p.auth_time_offset_secs
    &&& cfg.tls_slots == if p.max_tls_parallel < 1 {
        1
    } else {
        p.max_tls_parallel
    }
}

/// The error that configuring from `p` gives, if any: the secret is
/// checked before the short id.
pub open spec fn config_error(p: Profile) -> Option<ProxyError> {
    match spec_decode_secret(p.secret@) {
        Err(e) => Some(e),
        Ok(_) => match spec_decode_short_id(p.short_id@) {
            Err(e) => Some(e),
            Ok(_) => None,
        },
    }
}

impl ProxyConfig {
    /// The session configuration of a profile: its secret and short id
    /// decoded, its credentials, its TLS concurrency.
    pub fn from_profile(p: &Profile) -> (r: Result<ProxyConfig, ProxyError>)
        ensures
            match r {
                Ok(cfg) => config_error(*p) is None && config_of(*p, cfg),
                Err(e) => config_error(*p) == Some(e),
            },
    {
        let secret = match decode_secret(p.secret.as_str()) {
            Ok(s) => s,
            Err(e) => {
                return Err(e);
            },
        };
        let short_id = match decode_short_id(p.short_id.as_str()) {
            Ok(s) => s,
            Err(e) => {
                return Err(e);
            },
        };
        Ok(
            ProxyConfig {
                server: p.server.clone(),
                server_name: p.server_name.clone(),
                secret,
                short_id,
                auth: profile_credentials(p),
                auth_time_offset_secs: p.auth_time_offset_secs,
                tls_slots: tls_slots(p.max_tls_parallel),
            },
        )
    }
}

/// The engine's record of whether a session is running.
pub struct Engine {
    running: Option<Session>,
}

impl View for Engine {
    type V = Option<Session>;

    closed spec fn view(&self) -> Option<Session> {
        self.running
    }
}

/// The status that the engine in state `running` reports, given the
/// session's uptime.
pub open spec fn status_of(running: Option<Session>, uptime_secs: u64, st: ProxyStatus) -> bool {
    match running {
        Some(s) => {
            &&& st.connected
            &&& st.profile_id matches Some(id) && id@ == s.profile_id@
            &&& st.listen_addr matches Some(a) && a@ == s.listen_addr@
            &&& st.server matches Some(v) && v@ == s.server@
            &&& st.uptime_secs == uptime_secs
            &&& st.connections == s.connections
        },
        None => {
            &&& !st.connected
            &&& st.profile_id is None
            &&& st.listen_addr is None
            &&& st.server is None
            &&& st.uptime_secs == 0
            &&& st.connections == 0
        },
    }
}

/// While a session runs, the status reports it as connected, with exactly
/// the uptime it is given, whatever the connection count (none accepted yet
/// included), and with the session's own count.
pub proof fn lemma_status_of_running_session(s: Session, uptime_secs: u64, st: ProxyStatus)
    requires
        status_of(Some(s), uptime_secs, st),
    ensures
        st.connected,
        st.uptime_secs == uptime_secs,
        st.connections == s.connections,
{
}

/// Accepting `a` clients and then `b` more is accepting `a + b`.
pub proof fn lemma_accepted_adds(s: Session, a: nat, b: nat)
    ensures
        accepted(accepted(s, a), b) == accepted(s, a + b),
{
    let m: int = 0x1_0000_0000_0000_0000;
    let x: int = s.connections + a;
    vstd::arithmetic::div_mod::lemma_add_mod_noop_right(b as int, x, m);
    assert(((x % m) + b) % m == (x + b) % m);
    assert(accepted(s, a).connections == x % m);
    assert(accepted(accepted(s, a), b).connections == ((x % m) + b) % m);
}

/// Between two status reports of one running session, with only clients
/// accepted in between (`k` of them, the count not passing 2^64 - 1), the
/// session's profile, listen address and server stay the same and the
/// connection count grows by exactly `k`; a session that has just begun
/// reports the number of clients accepted since.
pub proof fn lemma_status_counts_accepts(
    s: Session,
    k: nat,
    u1: u64,
    u2: u64,
    st1: ProxyStatus,
    st2: ProxyStatus,
)
    requires
        s.connections + k <= u64::MAX,
        status_of(Some(s), u1, st1),
        status_of(Some(accepted(s, k)), u2, st2),
    ensures
        st1.connected && st2.connected,
        st2.profile_id matches Some(p2) && st1.profile_id matches Some(p1) && p1@ == p2@,
        st2.listen_addr matches Some(l2) && st1.listen_addr matches Some(l1) && l1@ == l2@,
        st2.server matches Some(v2) && st1.server matches Some(v1) && v1@ == v2@,
        st2.connections == st1.connections + k,
        st2.connections >= st1.connections,
        s.connections == 0 ==> st2.connections == k,
{
    assert((s.connections + k) % 0x1_0000_0000_0000_0000int == s.connections + k);
}

impl Engine {
    /// An engine with no session.
    pub fn new() -> (e: Self)
        ensures
            e@ is None,
    {
        Engine { running: None }
    }

    pub fn is_running(&self) -> (b: bool)
        ensures
            b == self@ is Some,
    {
        self.running.is_some()
    }

    /// Decides whether a session may start with `profile` and configures
    /// it. `listen_ok` says whether the profile's listen address is a socket
    /// address. A running session is reported first, then a bad listen
    /// address, then the profile's key errors.
    pub fn prepare_start(&self, profile: &Profile, listen_ok: bool) -> (r: Result<
        ProxyConfig,
        ProxyError,
    >)
        ensures
            self@ is Some ==> r == Err::<ProxyConfig, ProxyError>(ProxyError::AlreadyRunning),
            self@ is None && !listen_ok ==> r == Err::<ProxyConfig, ProxyError>(
                ProxyError::InvalidListenAddress,
            ),
            self@ is None && listen_ok ==> match r {
                Ok(cfg) => config_error(*profile) is None && config_of(*profile, cfg),
                Err(e) => config_error(*profile) == Some(e),
            },
    {
        if self.running.is_some() {
            return Err(ProxyError::AlreadyRunning);
        }
        if !listen_ok {
            return Err(ProxyError::InvalidListenAddress);
        }
        ProxyConfig::from_profile(profile)
    }

    /// Records that a session of the profile `profile_id`, listening at
    /// `listen_addr` and tunnelling to `server`, is running, with no client
    /// accepted yet.
    pub fn begin(&mut self, profile_id: String, listen_addr: String, server: String)
        requires
            old(self)@ is None,
        ensures
            final(self)@ == Some(Session { profile_id, listen_addr, server, connections: 0 }),
    {
        self.running = Some(Session { profile_id, listen_addr, server, connections: 0 });
    }

    /// Records that the running session accepted one more local client.
    pub fn record_connection(&mut self)
        ensures
            match old(self)@ {
                Some(s) => final(self)@ == Some(accepted(s, 1)),
                None => final(self)@ is None,
            },
    {
        match &mut self.running {
            Some(s) => {
                s.connections = s.connections.wrapping_add(1);
            },
            None => {},
        }
    }

    /// Stops the running session and hands it back, or reports that none
    /// is running.
    pub fn stop(&mut self) -> (r: Result<Session, ProxyError>)
        ensures
            final(self)@ is None,
            match old(self)@ {
                Some(s) => r == Ok::<Session, ProxyError>(s),
                None => r == Err::<Session, ProxyError>(ProxyError::NotRunning),
            },
    {
        match self.running.take() {
            Some(s) => Ok(s),
            None => Err(ProxyError::NotRunning),
        }
    }

    /// Records that the session's accept loop has ended.
    pub fn clear(&mut self)
        ensures
            final(self)@ is None,
    {
        self.running = None;
    }

    /// The status to report, given the running session's uptime (ignored
    /// when no session runs).
    pub fn status(&self, uptime_secs: u64) -> (st: ProxyStatus)
        ensures
            status_of(self@, uptime_secs, st),
    {
        match &self.running {
            Some(s) => ProxyStatus {
                connected: true,
                profile_id: Some(s.profile_id.clone()),
                listen_addr: Some(s.listen_addr.clone()),
                server: Some(s.server.clone()),
                uptime_secs,
                connections: s.connections,
            },
            None => ProxyStatus {
                connected: false,
                profile_id: None,
                listen_addr: None,
                server: None,
                uptime_secs: 0,
                connections: 0,
            },
        }
    }
}

} // verus!
