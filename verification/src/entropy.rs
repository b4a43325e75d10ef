//! Random bytes from the operating system, and the URL-safe text they are
//! carried in.

use vstd::prelude::*;

use base64ct::Encoding;

use crate::text::is_ascii_alnum;

verus! {

/// `n` bytes from the operating system's random source, or `None` when the
/// source is unavailable.
///
/// Wraps `getrandom::fill`. Claimed: on success the buffer has the length that
/// was asked for. Nothing is claimed about the bytes themselves - they are
/// random - and a failure is handed back rather than hidden.
#[verifier::external_body]
pub(crate) fn fill_random(n: usize) -> (r: Option<Vec<u8>>)
    ensures
        r matches Some(v) ==> v@.len() == n,
{
    let mut buf = vec![0u8; n];
    match getrandom::fill(&mut buf) {
        Ok(()) => Some(buf),
        Err(_) => None,
    }
}

/// What `Base64UrlUnpadded::encode_string` makes of some bytes.
pub uninterp spec fn base64url(bytes: Seq<u8>) -> Seq<char>;

/// What `Base64UrlUnpadded::decode_vec` makes of some text: the bytes, or
/// nothing when the text is not canonical unpadded URL-safe Base64.
pub uninterp spec fn base64url_decode(text: Seq<char>) -> Option<Seq<u8>>;

/// The URL-safe Base64 alphabet: letters, digits, `-` and `_`.
pub open spec fn is_url_safe(c: char) -> bool {
    is_ascii_alnum(c) || c == '-' || c == '_'
}

/// The unpadded length of `n` bytes in Base64: four characters per three
/// bytes, rounded up.
pub open spec fn base64url_len(n: nat) -> nat {
    ((4 * n) / 3 + if (4 * n) % 3 != 0 {
        1int
    } else {
        0int
    }) as nat
}

/// Bytes as unpadded URL-safe Base64.
///
/// Wraps `base64ct::Base64UrlUnpadded::encode_string`, which panics only when
/// four times the input length overflows a `usize`; that input is excluded.
/// Claimed, as its source shows: the text is `base64url` of the bytes, its
/// length is `base64url_len` (`encoded_len_inner` with padding off), every
/// character is from the URL-safe alphabet, and decoding it gives the bytes
/// back.
#[verifier::external_body]
pub(crate) fn encode_base64url(bytes: &[u8]) -> (s: String)
    requires
        bytes@.len() <= usize::MAX / 4,
    ensures
        s@ == base64url(bytes@),
        s@.len() == base64url_len(bytes@.len()),
        forall|i: int| 0 <= i < s@.len() ==> is_url_safe(#[trigger] s@[i]),
        base64url_decode(s@) == Some(bytes@),
{
    base64ct::Base64UrlUnpadded::encode_string(bytes)
}

/// Unpadded URL-safe Base64 back to bytes.
///
/// Wraps `base64ct::Base64UrlUnpadded::decode_vec`. Claimed: the answer is
/// `base64url_decode` of the text, with an error becoming `None`.
#[verifier::external_body]
pub(crate) fn decode_base64url(text: &str) -> (r: Option<Vec<u8>>)
    ensures
        r is Some <==> base64url_decode(text@) is Some,
        r matches Some(v) ==> base64url_decode(text@) == Some(v@),
{
    base64ct::Base64UrlUnpadded::decode_vec(text).ok()
}

/// A URL-safe random string carrying `bytes` bytes of entropy, or `None` when
/// the operating system has no randomness to give.
pub fn random_token(bytes: usize) -> (t: Option<String>)
    requires
        bytes <= usize::MAX / 4,
    ensures
        t matches Some(s) ==> {
            &&& exists|drawn: Seq<u8>| drawn.len() == bytes && s@ == #[trigger] base64url(drawn)
            &&& s@.len() == base64url_len(bytes as nat)
            &&& forall|i: int| 0 <= i < s@.len() ==> is_url_safe(#[trigger] s@[i])
        },
{
    match fill_random(bytes) {
        Some(buf) => Some(encode_base64url(buf.as_slice())),
        None => None,
    }
}

} // verus!
