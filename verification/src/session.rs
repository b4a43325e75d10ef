//! Session cookies: Ed25519-signed, bound to a device.
//!
//! The daemon holds the signing key and is the only thing that can mint a
//! session. The public half is what the relay's edge verifies against, so it
//! can check access without ever being able to grant it.
//!
//! A cookie is `<device>.<expiry>.<signature>`: the device id, the expiry in
//! decimal seconds, and the URL-safe Base64 of the signature over the first
//! two parts.

use vstd::prelude::*;

use crate::decimal::{format_i64, lemma_parse_signed_digits, parse_i64, parse_i64_chars, signed_digits};
use crate::device::{is_token_char, is_token_shape, DeviceId};
use crate::entropy::{
    base64url, base64url_decode, decode_base64url, encode_base64url, fill_random, is_url_safe,
};
use crate::signing::{ed25519_accepts, ed25519_public, ed25519_signature, public_key, sign, verify};
use crate::text::{append, chars_of, find_first, find_last, first_index, last_index, slice, string_from};

verus! {

/// How long a session lasts before the device has to be seen again: ninety
/// days. Long, on purpose - revocation is the control that matters, not expiry.
pub const SESSION_TTL_SECONDS: i64 = 7_776_000;

#[derive(Debug, Clone, Copy, PartialEq, Eq, Structural)]
pub enum SessionError {
    Malformed,
    BadSignature,
    Expired,
}

impl SessionError {
    /// What the log is told.
    pub fn message(&self) -> (s: String)
        ensures
            s@ == match *self {
                SessionError::Malformed => "the session cookie is malformed"@,
                SessionError::BadSignature => "the session signature does not verify"@,
                SessionError::Expired => "the session has expired"@,
            },
    {
        let text: &str = match self {
            SessionError::Malformed => "the session cookie is malformed",
            SessionError::BadSignature => "the session signature does not verify",
            SessionError::Expired => "the session has expired",
        };
        text.to_owned()
    }
}

/// A verified session.
#[derive(Debug, Clone, PartialEq, Eq)]
pub struct SessionToken {
    pub device: DeviceId,
    pub expires_at: i64,
}

/// The daemon's session-signing keypair, held as its seed.
pub struct SessionKeys {
    seed: [u8; 32],
}

/// The signed part of a cookie: device, a dot, the expiry.
pub open spec fn payload(device: Seq<char>, expires_at: int) -> Seq<char> {
    device + seq!['.'] + signed_digits(expires_at)
}

/// The cookie a seed mints for a device and an expiry.
pub open spec fn spec_cookie(seed: Seq<u8>, device: Seq<char>, expires_at: int) -> Seq<char> {
    let p = payload(device, expires_at);
    p + seq!['.'] + base64url(ed25519_signature(seed, vstd::utf8::encode_utf8(p)))
}

/// What the trusted codecs promise of the signature part of a cookie minted
/// over payload `p`: it is 64 bytes, the seed's public key accepts it, its
/// text is URL-safe, and decoding the text gives it back.
pub open spec fn signature_part_sound(seed: Seq<u8>, p: Seq<char>) -> bool {
    let sig = ed25519_signature(seed, vstd::utf8::encode_utf8(p));
    let text = base64url(sig);
    &&& sig.len() == 64
    &&& ed25519_accepts(ed25519_public(seed), vstd::utf8::encode_utf8(p), sig)
    &&& base64url_decode(text) == Some(sig)
    &&& forall|i: int| 0 <= i < text.len() ==> is_url_safe(#[trigger] text[i])
}

/// What verifying a cookie yields: the device and expiry it claims, or why
/// not. The signature is checked before the expiry, so an attacker cannot
/// learn whether a forged device id would otherwise have been valid.
pub open spec fn spec_verify(seed: Seq<u8>, cookie: Seq<char>, now: int) -> Result<
    (Seq<char>, int),
    SessionError,
> {
    match last_index(cookie, '.') {
        None => Err(SessionError::Malformed),
        Some(k) => {
            let signature = cookie.subrange(k + 1, cookie.len() as int);
            let p = cookie.take(k);
            match first_index(p, '.') {
                None => Err(SessionError::Malformed),
                Some(j) => {
                    let device = p.take(j);
                    let expiry = p.subrange(j + 1, p.len() as int);
                    if !is_token_shape(device) {
                        Err(SessionError::Malformed)
                    } else {
                        match parse_i64(expiry) {
                            None => Err(SessionError::Malformed),
                            Some(expires_at) => match base64url_decode(signature) {
                                None => Err(SessionError::Malformed),
                                Some(bytes) => if bytes.len() != 64 {
                                    Err(SessionError::Malformed)
                                } else if !ed25519_accepts(
                                    ed25519_public(seed),
                                    vstd::utf8::encode_utf8(p),
                                    bytes,
                                ) {
                                    Err(SessionError::BadSignature)
                                } else if now >= expires_at {
                                    Err(SessionError::Expired)
                                } else {
                                    Ok((device, expires_at))
                                },
                            },
                        }
                    }
                },
            }
        },
    }
}

pub open spec fn token_view(r: Result<SessionToken, SessionError>) -> Result<
    (Seq<char>, int),
    SessionError,
> {
    match r {
        Ok(t) => Ok((t.device@, t.expires_at as int)),
        Err(e) => Err(e),
    }
}

impl SessionKeys {
    /// A fresh keypair, or `None` when the operating system has no randomness.
    /// Generated once per install and kept in the keystore; losing it
    /// invalidates every session, which is inconvenient but safe.
    pub fn generate() -> (k: Option<Self>)
        ensures
            k matches Some(keys) ==> keys.spec_seed().len() == 32,
    {
        match fill_random(32) {
            Some(bytes) => Some(Self::from_slice(&bytes)),
            None => None,
        }
    }

    fn from_slice(bytes: &Vec<u8>) -> (k: Self)
        requires
            bytes@.len() == 32,
        ensures
            k.seed@ == bytes@,
    {
        let mut seed = [0u8; 32];
        let mut i: usize = 0;
        while i < 32
            invariant
                i <= 32,
                bytes@.len() == 32,
                forall|j: int| 0 <= j < i ==> seed@[j] == bytes@[j],
            decreases 32 - i,
        {
            seed[i] = bytes[i];
            i = i + 1;
        }
        assert(seed@ =~= bytes@);
        SessionKeys { seed }
    }

    pub closed spec fn spec_seed(&self) -> Seq<u8> {
        self.seed@
    }

    pub fn from_bytes(bytes: &[u8; 32]) -> (k: Self)
        ensures
            k.spec_seed() == bytes@,
    {
        SessionKeys { seed: *bytes }
    }

    pub fn to_bytes(&self) -> (b: [u8; 32])
        ensures
            b@ == self.spec_seed(),
    {
        self.seed
    }

    /// The half that gets registered with the control plane so the edge can
    /// verify sessions it cannot mint.
    pub fn verifying_key(&self) -> (public: [u8; 32])
        ensures
            public@ == ed25519_public(self.spec_seed()),
    {
        public_key(&self.seed)
    }

    /// Mint a session for a device.
    pub fn mint(&self, device: &DeviceId, now: i64) -> (cookie: String)
        requires
            now <= i64::MAX - SESSION_TTL_SECONDS,
        ensures
            cookie@ == spec_cookie(self.spec_seed(), device@, now + SESSION_TTL_SECONDS),
            signature_part_sound(self.spec_seed(), payload(device@, now + SESSION_TTL_SECONDS)),
    {
        let expires_at = now + SESSION_TTL_SECONDS;
        let mut p = chars_of(device.as_str());
        p.push('.');
        let digits = format_i64(expires_at);
        append(&mut p, &digits);
        assert(p@ =~= payload(device@, expires_at as int));
        let payload_text = string_from(&p);
        let message = payload_text.as_str().as_bytes();
        let signature = sign(&self.seed, message);
        let encoded = encode_base64url(signature.as_slice());
        let mut out = p;
        out.push('.');
        let encoded_chars = chars_of(encoded.as_str());
        append(&mut out, &encoded_chars);
        assert(out@ =~= spec_cookie(self.spec_seed(), device@, expires_at as int));
        string_from(&out)
    }

    /// Verify a cookie and return what it claims.
    pub fn verify(&self, cookie: &str, now: i64) -> (r: Result<SessionToken, SessionError>)
        ensures
            token_view(r) == spec_verify(self.spec_seed(), cookie@, now as int),
    {
        let cs = chars_of(cookie);
        let k = match find_last(&cs, '.') {
            Some(k) => k,
            None => return Err(SessionError::Malformed),
        };
        let signature_text = string_from(&slice(&cs, k + 1, cs.len()));
        let p = slice(&cs, 0, k);
        assert(p@ =~= cs@.take(k as int));
        let j = match find_first(&p, '.') {
            Some(j) => j,
            None => return Err(SessionError::Malformed),
        };
        let device_text = string_from(&slice(&p, 0, j));
        assert(device_text@ =~= p@.take(j as int));
        let device = match DeviceId::parse(device_text.as_str()) {
            Some(d) => d,
            None => return Err(SessionError::Malformed),
        };
        let expiry = slice(&p, j + 1, p.len());
        let expires_at = match parse_i64_chars(&expiry) {
            Some(x) => x,
            None => return Err(SessionError::Malformed),
        };
        let bytes = match decode_base64url(signature_text.as_str()) {
            Some(b) => b,
            None => return Err(SessionError::Malformed),
        };
        if bytes.len() != 64 {
            return Err(SessionError::Malformed);
        }
        let payload_text = string_from(&p);
        let message = payload_text.as_str().as_bytes();
        if !verify(&self.seed, message, bytes.as_slice()) {
            return Err(SessionError::BadSignature);
        }
        if now >= expires_at {
            return Err(SessionError::Expired);
        }
        Ok(SessionToken { device, expires_at })
    }
}

/// A minted session verifies, as the device it was minted for and with the
/// expiry it was minted with, for as long as it has not expired.
pub proof fn lemma_minted_session_verifies(seed: Seq<u8>, device: Seq<char>, expires_at: i64, now: int)
    requires
        is_token_shape(device),
        signature_part_sound(seed, payload(device, expires_at as int)),
        now < expires_at,
    ensures
        spec_verify(seed, spec_cookie(seed, device, expires_at as int), now) == Ok::<
            (Seq<char>, int),
            SessionError,
        >((device, expires_at as int)),
{
    lemma_verify_minted(seed, device, expires_at, now);
}

/// Past its expiry, a minted session is refused as expired - not as forged.
pub proof fn lemma_minted_session_expires(seed: Seq<u8>, device: Seq<char>, expires_at: i64, now: int)
    requires
        is_token_shape(device),
        signature_part_sound(seed, payload(device, expires_at as int)),
        now >= expires_at,
    ensures
        spec_verify(seed, spec_cookie(seed, device, expires_at as int), now) == Err::<
            (Seq<char>, int),
            SessionError,
        >(SessionError::Expired),
{
    lemma_verify_minted(seed, device, expires_at, now);
}

proof fn lemma_verify_minted(seed: Seq<u8>, device: Seq<char>, expires_at: i64, now: int)
    requires
        is_token_shape(device),
        signature_part_sound(seed, payload(device, expires_at as int)),
    ensures
        spec_verify(seed, spec_cookie(seed, device, expires_at as int), now) == if now
            >= expires_at {
            Err::<(Seq<char>, int), SessionError>(SessionError::Expired)
        } else {
            Ok::<(Seq<char>, int), SessionError>((device, expires_at as int))
        },
{
    lemma_cookie_parts(seed, device, expires_at);
    lemma_parse_signed_digits(expires_at);
    let cookie = spec_cookie(seed, device, expires_at as int);
    let p = payload(device, expires_at as int);
    let k = p.len() as int;
    let sig = ed25519_signature(seed, vstd::utf8::encode_utf8(p));
    assert(last_index(cookie, '.') == Some(k));
    let signature = cookie.subrange(k + 1, cookie.len() as int);
    assert(signature == base64url(sig));
    assert(cookie.take(k) == p);
    assert(first_index(p, '.') == Some(device.len() as int));
    let expiry = p.subrange(device.len() as int + 1, p.len() as int);
    assert(parse_i64(expiry) == Some(expires_at as int));
    assert(base64url_decode(signature) == Some(sig));
}

/// Taking a minted cookie apart finds exactly the parts it was made from.
proof fn lemma_cookie_parts(seed: Seq<u8>, device: Seq<char>, expires_at: i64)
    requires
        is_token_shape(device),
        signature_part_sound(seed, payload(device, expires_at as int)),
    ensures
        ({
            let cookie = spec_cookie(seed, device, expires_at as int);
            let p = payload(device, expires_at as int);
            let sig = ed25519_signature(seed, vstd::utf8::encode_utf8(p));
            &&& last_index(cookie, '.') == Some(p.len() as int)
            &&& cookie.take(p.len() as int) == p
            &&& cookie.subrange(p.len() as int + 1, cookie.len() as int) == base64url(sig)
            &&& first_index(p, '.') == Some(device.len() as int)
            &&& p.take(device.len() as int) == device
            &&& p.subrange(device.len() as int + 1, p.len() as int) == signed_digits(expires_at as int)
        }),
{
    let p = payload(device, expires_at as int);
    let msg = vstd::utf8::encode_utf8(p);
    let sig = ed25519_signature(seed, msg);
    let b = base64url(sig);
    let cookie = spec_cookie(seed, device, expires_at as int);
    assert(cookie =~= p + seq!['.'] + b);
    // The signature text is URL-safe Base64, which has no dots.
    assert(forall|i: int| 0 <= i < b.len() ==> b[i] != '.') by {
        assert forall|i: int| 0 <= i < b.len() implies b[i] != '.' by {
            assert(is_url_safe(b[i]));
        }
    }
    let k = p.len() as int;
    assert(cookie[k] == '.');
    assert(forall|j: int| k < j < cookie.len() ==> cookie[j] == b[j - k - 1]);
    assert(exists|i: int| 0 <= i < cookie.len() && cookie[i] == '.');
    let w = choose|i: int|
        0 <= i < cookie.len() && cookie[i] == '.' && forall|j: int| i < j < cookie.len() ==> cookie[j] != '.';
    assert(w == k) by {
        if w < k {
            assert(cookie[k] != '.');
        } else if w > k {
            assert(cookie[w] == b[w - k - 1]);
        }
    }
    assert(cookie.take(k) =~= p);
    assert(cookie.subrange(k + 1, cookie.len() as int) =~= b);
    // The device id has no dots either.
    let d = device.len() as int;
    assert(p[d] == '.');
    assert(forall|j: int| 0 <= j < d ==> p[j] == device[j]);
    assert(forall|j: int| 0 <= j < d ==> p[j] != '.') by {
        assert forall|j: int| 0 <= j < d implies p[j] != '.' by {
            assert(is_token_char(device[j]));
        }
    }
    let v = choose|i: int| 0 <= i < p.len() && p[i] == '.' && forall|j: int| 0 <= j < i ==> p[j] != '.';
    assert(v == d) by {
        if v < d {
        } else if v > d {
            assert(p[d] == '.');
        }
    }
    assert(p.take(d) =~= device);
    assert(p.subrange(d + 1, p.len() as int) =~= signed_digits(expires_at as int));
}

} // verus!
