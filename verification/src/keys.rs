//! Key material of a profile: the base64 tunnel secret and the hexadecimal
//! short id, their decoding and their generation.
use vstd::prelude::*;

use crate::bindings::{
    base64_decode, base64_encode, base64_standard_decode, base64_standard_encode, random_array,
};
use crate::error::ProxyError;
use crate::text::{hex_decode, hex_decoded, hex_encode, hex_text, lemma_hex_roundtrip};

verus! {

/// Length in bytes of the tunnel secret.
pub const SECRET_LEN: usize = 32;

/// Length in bytes of the short id.
pub const SHORT_ID_LEN: usize = 8;

/// What `decode_secret` gives for a profile's secret text.
pub open spec fn spec_decode_secret(text: Seq<char>) -> Result<Seq<u8>, ProxyError> {
    match base64_standard_decode(text) {
        None => Err(ProxyError::InvalidSecretEncoding),
        Some(b) => if b.len() == SECRET_LEN {
            Ok(b)
        } else {
            Err(ProxyError::SecretLength(b.len() as usize))
        },
    }
}

/// What `decode_short_id` gives for a profile's short id text.
pub open spec fn spec_decode_short_id(text: Seq<char>) -> Result<Seq<u8>, ProxyError> {
    match hex_decoded(text) {
        None => Err(ProxyError::InvalidShortIdEncoding),
        Some(b) => if b.len() == SHORT_ID_LEN {
            Ok(b)
        } else {
            Err(ProxyError::ShortIdLength(b.len() as usize))
        },
    }
}

fn copy_into_array<const N: usize>(bytes: &Vec<u8>) -> (a: [u8; N])
    requires
        bytes@.len() == N,
    ensures
        a@ == bytes@,
{
    let mut a = [0u8; N];
    let mut i: usize = 0;
    while i < N
        invariant
            bytes@.len() == N,
            i <= N,
            a@.len() == N,
            forall|j: int| 0 <= j < i ==> a@[j] == bytes@[j],
        decreases N - i,
    {
        a[i] = bytes[i];
        i = i + 1;
    }
    assert(a@ =~= bytes@);
    a
}

/// The tunnel secret from its decoded bytes: exactly 32 bytes, else the
/// length error.
pub fn secret_from_bytes(bytes: Vec<u8>) -> (r: Result<[u8; 32], ProxyError>)
    ensures
        match r {
            Ok(a) => bytes@.len() == SECRET_LEN && a@ == bytes@,
            Err(e) => bytes@.len() != SECRET_LEN && e == ProxyError::SecretLength(bytes@.len() as usize),
        },
{
    if bytes.len() != SECRET_LEN {
        return Err(ProxyError::SecretLength(bytes.len()));
    }
    Ok(copy_into_array::<32>(&bytes))
}

/// The short id from its decoded bytes: exactly 8 bytes, else the length
/// error.
pub fn short_id_from_bytes(bytes: Vec<u8>) -> (r: Result<[u8; 8], ProxyError>)
    ensures
        match r {
            Ok(a) => bytes@.len() == SHORT_ID_LEN && a@ == bytes@,
            Err(e) => bytes@.len() != SHORT_ID_LEN && e == ProxyError::ShortIdLength(bytes@.len() as usize),
        },
{
    if bytes.len() != SHORT_ID_LEN {
        return Err(ProxyError::ShortIdLength(bytes.len()));
    }
    Ok(copy_into_array::<8>(&bytes))
}

/// Decodes a profile's base64 secret into its 32 bytes.
pub fn decode_secret(b64: &str) -> (r: Result<[u8; 32], ProxyError>)
    ensures
        match r {
            Ok(a) => spec_decode_secret(b64@) == Ok::<Seq<u8>, ProxyError>(a@),
            Err(e) => spec_decode_secret(b64@) == Err::<Seq<u8>, ProxyError>(e),
        },
{
    match base64_decode(b64) {
        None => Err(ProxyError::InvalidSecretEncoding),
        Some(bytes) => secret_from_bytes(bytes),
    }
}

/// Decodes a profile's hexadecimal short id into its 8 bytes.
pub fn decode_short_id(hex: &str) -> (r: Result<[u8; 8], ProxyError>)
    ensures
        match r {
            Ok(a) => spec_decode_short_id(hex@) == Ok::<Seq<u8>, ProxyError>(a@),
            Err(e) => spec_decode_short_id(hex@) == Err::<Seq<u8>, ProxyError>(e),
        },
{
    match hex_decode(hex) {
        None => Err(ProxyError::InvalidShortIdEncoding),
        Some(bytes) => short_id_from_bytes(bytes),
    }
}

/// A freshly generated secret and short id, as a profile stores them.
pub struct GeneratedKeys {
    pub secret: String,
    pub short_id: String,
}

/// Encodes a secret and a short id the way a profile stores them: the
/// secret in standard base64, the short id in lower-case hexadecimal.
pub fn keys_from_bytes(secret: &[u8; 32], short_id: &[u8; 8]) -> (k: GeneratedKeys)
    ensures
        k.secret@ == base64_standard_encode(secret@),
        k.short_id@ == hex_text(short_id@),
        spec_decode_secret(k.secret@) == Ok::<Seq<u8>, ProxyError>(secret@),
        spec_decode_short_id(k.short_id@) == Ok::<Seq<u8>, ProxyError>(short_id@),
{
    let s = base64_encode(secret.as_slice());
    let h = hex_encode(short_id.as_slice());
    proof {
        lemma_hex_roundtrip(short_id@);
    }
    GeneratedKeys { secret: s, short_id: h }
}

/// Draws a random 32-byte secret and a random 8-byte short id and encodes
/// them as a profile stores them.
pub fn generate_keys() -> (k: GeneratedKeys)
    ensures
        exists|secret: Seq<u8>, short_id: Seq<u8>|
            {
                &&& secret.len() == SECRET_LEN
                &&& short_id.len() == SHORT_ID_LEN
                &&& k.secret@ == base64_standard_encode(secret)
                &&& k.short_id@ == hex_text(short_id)
            },
        spec_decode_secret(k.secret@) is Ok,
        spec_decode_short_id(k.short_id@) is Ok,
{
    let secret: [u8; 32] = random_array();
    let short_id: [u8; 8] = random_array();
    keys_from_bytes(&secret, &short_id)
}

} // verus!
