//! Retry policy for opening the TLS tunnel to the server.
use vstd::prelude::*;

use crate::bindings::{to_lowercase, unicode_lowercase};

verus! {

/// Seconds allowed for the TCP connection to the server.
pub const TCP_CONNECT_TIMEOUT_SECS: u64 = 20;

/// Seconds allowed for the TLS handshake.
pub const TLS_HANDSHAKE_TIMEOUT_SECS: u64 = 25;

/// How many TLS handshakes are tried before giving up.
pub const MAX_TLS_TRIES: u32 = 3;

/// The kind of an I/O error, as far as the retry policy cares.
#[derive(Clone, Copy, Debug, PartialEq, Eq, Structural)]
pub enum IoErrorClass {
    UnexpectedEof,
    ConnectionReset,
    ConnectionAborted,
    Other,
}

/// How a TLS handshake attempt failed.
#[derive(Clone, Copy, Debug, PartialEq, Eq, Structural)]
pub enum HandshakeFailure {
    /// The handshake returned an error; whether that error is worth a retry.
    Error(bool),
    /// The handshake did not finish in time.
    Timeout,
}

/// What to do after a failed handshake attempt.
#[derive(Clone, Copy, Debug, PartialEq, Eq, Structural)]
pub enum RetryDecision {
    /// Wait this many milliseconds, then try again.
    RetryAfterMillis(u64),
    /// Report the failure.
    GiveUp,
}

/// `text` holds `"eof"` somewhere.
pub open spec fn mentions_eof(text: Seq<char>) -> bool {
    exists|i: int| 0 <= i && i + 3 <= text.len() && #[trigger] text.subrange(i, i + 3) == seq!['e', 'o', 'f']
}

/// A handshake error is worth a retry when the connection was cut (end of
/// stream, reset or abort) or when its message, in lower case, mentions
/// "eof".
pub open spec fn spec_is_retriable(class: IoErrorClass, message: Seq<char>) -> bool {
    ||| class == IoErrorClass::UnexpectedEof
    ||| class == IoErrorClass::ConnectionReset
    ||| class == IoErrorClass::ConnectionAborted
    ||| mentions_eof(unicode_lowercase(message))
}

/// Whether `text` holds `"eof"` somewhere.
pub fn contains_eof(text: &str) -> (b: bool)
    ensures
        b == mentions_eof(text@),
{
    let n = text.unicode_len();
    if n < 3 {
        return false;
    }
    let mut i: usize = 0;
    while i < n - 2
        invariant
            n == text@.len(),
            n >= 3,
            i <= n - 2,
            forall|j: int| 0 <= j < i ==> #[trigger] text@.subrange(j, j + 3) != seq!['e', 'o', 'f'],
        decreases n - i,
    {
        if text.get_char(i) == 'e' && text.get_char(i + 1) == 'o' && text.get_char(i + 2) == 'f' {
            assert(text@.subrange(i as int, i + 3) =~= seq!['e', 'o', 'f']);
            return true;
        }
        assert(text@.subrange(i as int, i + 3)[0] == text@[i as int]);
        assert(text@.subrange(i as int, i + 3)[1] == text@[i + 1]);
        assert(text@.subrange(i as int, i + 3)[2] == text@[i + 2]);
        i = i + 1;
    }
    false
}

/// Whether a failed handshake is worth a retry.
pub fn is_retriable(class: IoErrorClass, message: &str) -> (b: bool)
    ensures
        b == spec_is_retriable(class, message@),
{
    match class {
        IoErrorClass::UnexpectedEof | IoErrorClass::ConnectionReset
        | IoErrorClass::ConnectionAborted => true,
        IoErrorClass::Other => {
            let lower = to_lowercase(message);
            contains_eof(lower.as_str())
        },
    }
}

/// The decision after the handshake attempt number `attempt` (counted from
/// one) failed: retriable errors and timeouts are tried again, after
/// 40 + 60 * `attempt` milliseconds, until `MAX_TLS_TRIES` attempts were
/// made.
pub open spec fn spec_retry(attempt: u32, failure: HandshakeFailure) -> RetryDecision {
    let worth = match failure {
        HandshakeFailure::Error(retriable) => retriable,
        HandshakeFailure::Timeout => true,
    };
    if worth && attempt < MAX_TLS_TRIES {
        RetryDecision::RetryAfterMillis((40 + 60 * attempt) as u64)
    } else {
        RetryDecision::GiveUp
    }
}

/// Before the last try, a timeout and a retriable error are both tried
/// again after 40 + 60 * n milliseconds, and an error that is not worth it
/// is given up on; from the last try on, everything is given up on.
pub proof fn lemma_retry_policy(n: u32)
    ensures
        1 <= n < MAX_TLS_TRIES ==> spec_retry(n, HandshakeFailure::Timeout)
            == RetryDecision::RetryAfterMillis((40 + 60 * n) as u64),
        1 <= n < MAX_TLS_TRIES ==> spec_retry(n, HandshakeFailure::Error(true))
            == RetryDecision::RetryAfterMillis((40 + 60 * n) as u64),
        spec_retry(n, HandshakeFailure::Error(false)) == RetryDecision::GiveUp,
        n >= MAX_TLS_TRIES ==> spec_retry(n, HandshakeFailure::Timeout) == RetryDecision::GiveUp,
        n >= MAX_TLS_TRIES ==> spec_retry(n, HandshakeFailure::Error(true)) == RetryDecision::GiveUp,
{
}

pub fn retry_after(attempt: u32, failure: HandshakeFailure) -> (d: RetryDecision)
    ensures
        d == spec_retry(attempt, failure),
{
    let worth = match failure {
        HandshakeFailure::Error(retriable) => retriable,
        HandshakeFailure::Timeout => true,
    };
    if worth && attempt < MAX_TLS_TRIES {
        RetryDecision::RetryAfterMillis(40 + 60 * attempt as u64)
    } else {
        RetryDecision::GiveUp
    }
}

} // verus!
