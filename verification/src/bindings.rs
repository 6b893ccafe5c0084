//! Calls into std and into outside crates whose contracts Verus takes on trust.
use vstd::prelude::*;
use rand::RngCore;
use vstd::utf8::{decode_utf8, valid_utf8};

verus! {

/// `String::push`: appends one character to the end of the string.
#[verifier::external_body]
pub(crate) fn push_char(s: &mut String, c: char)
    ensures
        final(s)@ == old(s)@.push(c),
{
    s.push(c);
}

/// What `base64::engine::general_purpose::STANDARD` decodes a text to:
/// `None` where it reports a decode error.
pub uninterp spec fn base64_standard_decode(text: Seq<char>) -> Option<Seq<u8>>;

/// The text that `base64::engine::general_purpose::STANDARD` encodes bytes to.
pub uninterp spec fn base64_standard_encode(bytes: Seq<u8>) -> Seq<char>;

/// `base64::Engine::decode` with the `STANDARD` engine (standard alphabet,
/// canonical padding required): the decoded bytes, or `None` on a decode error.
#[verifier::external_body]
pub(crate) fn base64_decode(text: &str) -> (r: Option<Vec<u8>>)
    ensures
        match r {
            Some(v) => base64_standard_decode(text@) == Some(v@),
            None => base64_standard_decode(text@) is None,
        },
{
    base64::Engine::decode(&base64::engine::general_purpose::STANDARD, text).ok()
}

/// `base64::Engine::encode` with the `STANDARD` engine. The claim beyond the
/// name: decoding the produced text with the same engine gives the input
/// back (the engine pads canonically and decodes canonical padding).
#[verifier::external_body]
pub(crate) fn base64_encode(bytes: &[u8]) -> (s: String)
    requires
        bytes@.len() <= usize::MAX / 2,
    ensures
        s@ == base64_standard_encode(bytes@),
        base64_standard_decode(s@) == Some(bytes@),
{
    base64::Engine::encode(&base64::engine::general_purpose::STANDARD, bytes)
}

/// `rand::thread_rng().fill_bytes`: an array of `N` random bytes. Nothing is
/// claimed of the values.
#[verifier::external_body]
pub(crate) fn random_array<const N: usize>() -> [u8; N] {
    let mut a = [0u8; N];
    rand::thread_rng().fill_bytes(&mut a);
    a
}

/// `<str as PartialEq>::eq`: whether the two strings hold the same characters.
#[verifier::external_body]
pub(crate) fn str_eq(a: &str, b: &str) -> (r: bool)
    ensures
        r == (a@ == b@),
{
    a == b
}

/// `String::from_utf8`: the string that the bytes encode, or `None` when
/// they are not valid UTF-8.
#[verifier::external_body]
pub(crate) fn string_from_utf8(bytes: Vec<u8>) -> (r: Option<String>)
    ensures
        match r {
            Some(s) => valid_utf8(bytes@) && s@ == decode_utf8(bytes@),
            None => !valid_utf8(bytes@),
        },
{
    String::from_utf8(bytes).ok()
}

/// What `str::to_lowercase` gives for a text: its Unicode lower-case form,
/// which does not depend on the locale. The mapping may depend on context
/// (a final sigma) and may turn one character into several; nothing more is
/// claimed of it than that it is a function of the text.
pub uninterp spec fn unicode_lowercase(text: Seq<char>) -> Seq<char>;

/// `str::to_lowercase`.
#[verifier::external_body]
pub(crate) fn to_lowercase(text: &str) -> (r: String)
    ensures
        r@ == unicode_lowercase(text@),
{
    text.to_lowercase()
}

} // verus!
