//! Devices: browsers that have been approved once and remembered.
//!
//! Pairing is modelled on Bluetooth deliberately. A new device asks, the owner
//! sees who is asking, and approving it gives the device a name a person would
//! recognise rather than an opaque identifier.

use vstd::prelude::*;

use crate::entropy::{base64url_len, is_url_safe, random_token};
use crate::text::{ascii_alnum, chars_of, is_ascii_alnum, lower, lower_seq, lowercase, string_from};

verus! {

/// A character a device id or an invite token may hold: an ASCII letter or
/// digit, `-` or `_`.
pub open spec fn is_token_char(c: char) -> bool {
    is_ascii_alnum(c) || c == '-' || c == '_'
}

/// The shape of an id or token this daemon mints: 16 to 64 token characters.
pub open spec fn is_token_shape(s: Seq<char>) -> bool {
    &&& 16 <= s.len() <= 64
    &&& forall|i: int| 0 <= i < s.len() ==> is_token_char(#[trigger] s[i])
}

/// Whether some text is the shape of a minted id or token.
pub fn token_shape(raw: &str) -> (ok: bool)
    ensures
        ok == is_token_shape(raw@),
{
    let cs = chars_of(raw);
    if cs.len() < 16 || cs.len() > 64 {
        return false;
    }
    let mut i: usize = 0;
    while i < cs.len()
        invariant
            i <= cs.len(),
            cs@ == raw@,
            forall|k: int| 0 <= k < i ==> is_token_char(#[trigger] cs@[k]),
        decreases cs.len() - i,
    {
        let c = cs[i];
        if !(ascii_alnum(c) || c == '-' || c == '_') {
            assert(!is_token_char(cs@[i as int]));
            return false;
        }
        i = i + 1;
    }
    true
}

/// Stable identifier for one browser on one device.
///
/// Random rather than derived from anything about the device: fingerprinting a
/// browser would be both unreliable and the wrong instinct for a product whose
/// pitch is that your things stay yours.
#[derive(Debug, Clone, PartialEq, Eq, Hash)]
pub struct DeviceId(String);

impl View for DeviceId {
    type V = Seq<char>;

    closed spec fn view(&self) -> Seq<char> {
        self.0@
    }
}

impl DeviceId {
    /// A fresh id, or `None` when the operating system has no randomness.
    pub fn generate() -> (id: Option<Self>)
        ensures
            id matches Some(d) ==> is_token_shape(d@),
    {
        match random_token(16) {
            Some(t) => {
                assert(base64url_len(16) == 22);
                Some(DeviceId(t))
            },
            None => None,
        }
    }

    pub fn as_str(&self) -> (s: &str)
        ensures
            s@ == self@,
    {
        self.0.as_str()
    }

    /// Parse an id that came in on a cookie. Rejects anything that is not the
    /// shape we mint, so a hand-crafted cookie cannot smuggle in a path or SQL.
    pub fn parse(raw: &str) -> (id: Option<Self>)
        ensures
            id is Some <==> is_token_shape(raw@),
            id matches Some(d) ==> d@ == raw@,
    {
        if token_shape(raw) {
            Some(DeviceId(raw.to_owned()))
        } else {
            None
        }
    }

    /// A copy of this id.
    pub fn clone_id(&self) -> (c: Self)
        ensures
            c == *self,
    {
        DeviceId(self.0.clone())
    }

    /// The id as a `String`, for display.
    pub fn to_text(&self) -> (s: String)
        ensures
            s@ == self@,
    {
        self.0.clone()
    }
}

/// Whether two ids are the same device.
pub fn same_device(a: &DeviceId, b: &DeviceId) -> (r: bool)
    ensures
        r == (a@ == b@),
{
    a.0 == b.0
}

#[derive(Debug, Clone, Copy, PartialEq, Eq, Structural)]
pub enum DeviceStatus {
    /// Has asked, and is waiting on the owner.
    Pending,
    Approved,
    /// Explicitly refused or later revoked. Never silently upgraded back.
    Revoked,
    /// The owner's own machine.
    Owner,
}

/// Where a device's name came from.
///
/// The order matters: a stronger source may overwrite a weaker one, never the
/// other way round. Nothing overwrites what the owner typed.
#[derive(Debug, Clone, Copy, PartialEq, Eq, Structural)]
pub enum NamedBy {
    /// Guessed from the user agent: a model class at best, and wrong on an
    /// iPad in desktop mode.
    Guess,
    /// The name the device publishes for itself on the local network.
    Network,
    /// Typed by the owner. Final.
    Owner,
}

impl Default for NamedBy {
    fn default() -> (n: Self)
        ensures
            n == NamedBy::Guess,
    {
        NamedBy::Guess
    }
}

#[derive(Debug, Clone, PartialEq)]
pub struct Device {
    pub id: DeviceId,
    /// Something a person recognises: "Kitchen iPad". Suggested from the user
    /// agent, improved by the network where it answers, and editable.
    pub name: String,
    /// Where `name` came from, so a later lookup never overwrites the owner.
    pub named_by: NamedBy,
    pub status: DeviceStatus,
    /// What the browser said it was, kept for the approval prompt.
    pub user_agent: String,
    /// A short, stable string shown next to the device so two similar ones can
    /// be told apart at a glance.
    pub fingerprint: String,
    pub first_seen: i64,
    pub last_seen: i64,
}

impl Device {
    /// A device that has just asked, waiting on the owner.
    pub fn pending(id: DeviceId, user_agent: &str, now: i64) -> (d: Self)
        ensures
            d.id == id,
            d.fingerprint@ == spec_fingerprint(id@),
            d.name@ == spec_suggest_name(user_agent@),
            d.named_by == NamedBy::Guess,
            d.status == DeviceStatus::Pending,
            d.user_agent@ == user_agent@,
            d.first_seen == now,
            d.last_seen == now,
    {
        let fp = fingerprint(&id);
        let name = suggest_name(user_agent);
        Device {
            fingerprint: fp,
            name,
            named_by: NamedBy::Guess,
            id,
            status: DeviceStatus::Pending,
            user_agent: user_agent.to_owned(),
            first_seen: now,
            last_seen: now,
        }
    }

    /// A device with a given id and status and placeholder details, for
    /// trying out access decisions.
    pub fn new_for_test(id: &str, status: DeviceStatus) -> (d: Self)
        ensures
            d.id@ == id@,
            d.status == status,
            d.named_by == NamedBy::Guess,
            d.first_seen == 0,
            d.last_seen == 0,
    {
        let name_chars = vec!['T', 'e', 's', 't', ' ', 'd', 'e', 'v', 'i', 'c', 'e'];
        let ua_chars = vec!['t', 'e', 's', 't'];
        let fp_chars = vec!['a', 'a', ':', 'b', 'b', ':', 'c', 'c'];
        Device {
            id: DeviceId(id.to_owned()),
            name: string_from(&name_chars),
            status,
            user_agent: string_from(&ua_chars),
            fingerprint: string_from(&fp_chars),
            first_seen: 0,
            last_seen: 0,
            named_by: NamedBy::Guess,
        }
    }
}

pub open spec fn fnv_offset() -> u64 {
    0xcbf2_9ce4_8422_2325
}

pub open spec fn fnv_prime() -> u64 {
    0x100_0000_01b3
}

/// FNV-1a, 64-bit, over a run of bytes.
pub open spec fn fnv1a(bytes: Seq<u8>) -> u64
    decreases bytes.len(),
{
    if bytes.len() == 0 {
        fnv_offset()
    } else {
        let h = fnv1a(bytes.drop_last()) ^ (bytes.last() as u64);
        ((h as nat * fnv_prime() as nat) % 0x1_0000_0000_0000_0000) as u64
    }
}

pub open spec fn hex_char(d: int) -> char {
    if d < 10 {
        (48 + d) as char
    } else {
        (87 + d) as char
    }
}

/// One byte as two lower-case hex digits.
pub open spec fn hex_byte(b: int) -> Seq<char> {
    seq![hex_char(b / 16), hex_char(b % 16)]
}

/// The first three bytes of a hash, big-endian, as `xx:xx:xx`.
pub open spec fn fingerprint_of_hash(h: u64) -> Seq<char> {
    hex_byte(h as int / 0x100_0000_0000_0000) + seq![':'] + hex_byte(
        (h as int / 0x1_0000_0000_0000) % 256,
    ) + seq![':'] + hex_byte((h as int / 0x100_0000_0000) % 256)
}

/// The fingerprint shown for a device id: FNV-1a of its UTF-8 bytes, first
/// three bytes in hex.
pub open spec fn spec_fingerprint(id: Seq<char>) -> Seq<char> {
    fingerprint_of_hash(fnv1a(vstd::utf8::encode_utf8(id)))
}

fn hex_digit_char(d: u64) -> (c: char)
    requires
        d < 16,
    ensures
        c == hex_char(d as int),
{
    if d < 10 {
        ((d as u8) + 48) as char
    } else {
        ((d as u8) + 87) as char
    }
}

fn push_hex_byte(out: &mut Vec<char>, b: u64)
    requires
        b < 256,
    ensures
        final(out)@ == old(out)@ + hex_byte(b as int),
{
    let hi = hex_digit_char(b / 16);
    let lo = hex_digit_char(b % 16);
    out.push(hi);
    out.push(lo);
    assert(final(out)@ =~= old(out)@ + hex_byte(b as int));
}

/// A short visual fingerprint, in the style of an SSH key fingerprint.
///
/// Not a security control - it is derived from a public id - but it lets the
/// approval prompt and the device list refer to the same thing unambiguously.
pub fn fingerprint(id: &DeviceId) -> (f: String)
    ensures
        f@ == spec_fingerprint(id@),
{
    let bytes = id.0.as_str().as_bytes();
    let mut hash: u64 = 0xcbf2_9ce4_8422_2325;
    let mut i: usize = 0;
    while i < bytes.len()
        invariant
            i <= bytes.len(),
            bytes@ == vstd::utf8::encode_utf8(id@),
            hash == fnv1a(bytes@.take(i as int)),
        decreases bytes.len() - i,
    {
        assert(bytes@.take((i + 1) as int).drop_last() =~= bytes@.take(i as int));
        hash = hash ^ (bytes[i] as u64);
        hash = hash.wrapping_mul(0x100_0000_01b3);
        i = i + 1;
    }
    assert(bytes@.take(bytes.len() as int) =~= bytes@);
    let mut out: Vec<char> = Vec::new();
    push_hex_byte(&mut out, hash / 0x100_0000_0000_0000);
    out.push(':');
    push_hex_byte(&mut out, (hash / 0x1_0000_0000_0000) % 256);
    out.push(':');
    push_hex_byte(&mut out, (hash / 0x100_0000_0000) % 256);
    assert(out@ =~= fingerprint_of_hash(hash));
    string_from(&out)
}

/// Whether `needle` occurs somewhere in `hay`.
pub open spec fn seq_contains(hay: Seq<char>, needle: Seq<char>) -> bool {
    exists|i: int| 0 <= i <= hay.len() - needle.len() && #[trigger] hay.subrange(i, i + needle.len()) == needle
}

/// Whether `needle` occurs in `hay` starting at `at`.
fn occurs_at(hay: &Vec<char>, needle: &Vec<char>, at: usize) -> (b: bool)
    requires
        at + needle.len() <= hay.len(),
    ensures
        b == (hay@.subrange(at as int, at + needle.len()) == needle@),
{
    let mut k: usize = 0;
    while k < needle.len()
        invariant
            k <= needle.len(),
            at + needle.len() <= hay.len(),
            forall|j: int| 0 <= j < k ==> hay@[at + j] == needle@[j],
        decreases needle.len() - k,
    {
        if hay[at + k] != needle[k] {
            assert(hay@.subrange(at as int, at + needle.len())[k as int] != needle@[k as int]);
            return false;
        }
        k = k + 1;
    }
    assert(hay@.subrange(at as int, at + needle.len()) =~= needle@);
    true
}

/// `str::contains` for a run of characters.
pub fn contains_seq(hay: &Vec<char>, needle: &Vec<char>) -> (b: bool)
    ensures
        b == seq_contains(hay@, needle@),
{
    if needle.len() > hay.len() {
        return false;
    }
    let last = hay.len() - needle.len();
    let mut i: usize = 0;
    loop
        invariant
            i <= last,
            last == hay.len() - needle.len(),
            needle.len() <= hay.len(),
            forall|j: int| 0 <= j < i ==> #[trigger] hay@.subrange(j, j + needle.len()) != needle@,
        decreases last - i,
    {
        if occurs_at(hay, needle, i) {
            return true;
        }
        if i == last {
            return false;
        }
        i = i + 1;
    }
}

pub open spec fn lit_ipad() -> Seq<char> {
    seq!['i', 'p', 'a', 'd']
}

pub open spec fn lit_iphone() -> Seq<char> {
    seq!['i', 'p', 'h', 'o', 'n', 'e']
}

pub open spec fn lit_android() -> Seq<char> {
    seq!['a', 'n', 'd', 'r', 'o', 'i', 'd']
}

pub open spec fn lit_macintosh() -> Seq<char> {
    seq!['m', 'a', 'c', 'i', 'n', 't', 'o', 's', 'h']
}

pub open spec fn lit_mac_os() -> Seq<char> {
    seq!['m', 'a', 'c', ' ', 'o', 's']
}

pub open spec fn lit_windows() -> Seq<char> {
    seq!['w', 'i', 'n', 'd', 'o', 'w', 's']
}

pub open spec fn lit_linux() -> Seq<char> {
    seq!['l', 'i', 'n', 'u', 'x']
}

/// The guess for a user agent, most specific first: an iPad in desktop mode
/// also says "Macintosh", so the iPad test has to come before the Mac one.
pub open spec fn spec_suggest_name(user_agent: Seq<char>) -> Seq<char> {
    let ua = lower_seq(user_agent);
    if seq_contains(ua, lit_ipad()) {
        seq!['i', 'P', 'a', 'd']
    } else if seq_contains(ua, lit_iphone()) {
        seq!['i', 'P', 'h', 'o', 'n', 'e']
    } else if seq_contains(ua, lit_android()) {
        seq!['A', 'n', 'd', 'r', 'o', 'i', 'd', ' ', 'p', 'h', 'o', 'n', 'e']
    } else if seq_contains(ua, lit_macintosh()) || seq_contains(ua, lit_mac_os()) {
        seq!['M', 'a', 'c']
    } else if seq_contains(ua, lit_windows()) {
        seq!['W', 'i', 'n', 'd', 'o', 'w', 's', ' ', 'P', 'C']
    } else if seq_contains(ua, lit_linux()) {
        seq!['L', 'i', 'n', 'u', 'x', ' ', 'm', 'a', 'c', 'h', 'i', 'n', 'e']
    } else {
        seq!['N', 'e', 'w', ' ', 'd', 'e', 'v', 'i', 'c', 'e']
    }
}

/// Guess a name from the user agent, for the owner to accept or edit.
///
/// Deliberately coarse. Getting "iPhone" right matters; getting the iOS version
/// right does not, and a wrong-but-confident name is worse than a vague one.
pub fn suggest_name(user_agent: &str) -> (name: String)
    ensures
        name@ == spec_suggest_name(user_agent@),
{
    let ua = lowercase(&chars_of(user_agent));
    let ipad = vec!['i', 'p', 'a', 'd'];
    let iphone = vec!['i', 'p', 'h', 'o', 'n', 'e'];
    let android = vec!['a', 'n', 'd', 'r', 'o', 'i', 'd'];
    let macintosh = vec!['m', 'a', 'c', 'i', 'n', 't', 'o', 's', 'h'];
    let mac_os = vec!['m', 'a', 'c', ' ', 'o', 's'];
    let windows = vec!['w', 'i', 'n', 'd', 'o', 'w', 's'];
    let linux = vec!['l', 'i', 'n', 'u', 'x'];
    assert(ipad@ =~= lit_ipad());
    assert(iphone@ =~= lit_iphone());
    assert(android@ =~= lit_android());
    assert(macintosh@ =~= lit_macintosh());
    assert(mac_os@ =~= lit_mac_os());
    assert(windows@ =~= lit_windows());
    assert(linux@ =~= lit_linux());
    let name = if contains_seq(&ua, &ipad) {
        vec!['i', 'P', 'a', 'd']
    } else if contains_seq(&ua, &iphone) {
        vec!['i', 'P', 'h', 'o', 'n', 'e']
    } else if contains_seq(&ua, &android) {
        vec!['A', 'n', 'd', 'r', 'o', 'i', 'd', ' ', 'p', 'h', 'o', 'n', 'e']
    } else if contains_seq(&ua, &macintosh) || contains_seq(&ua, &mac_os) {
        vec!['M', 'a', 'c']
    } else if contains_seq(&ua, &windows) {
        vec!['W', 'i', 'n', 'd', 'o', 'w', 's', ' ', 'P', 'C']
    } else if contains_seq(&ua, &linux) {
        vec!['L', 'i', 'n', 'u', 'x', ' ', 'm', 'a', 'c', 'h', 'i', 'n', 'e']
    } else {
        vec!['N', 'e', 'w', ' ', 'd', 'e', 'v', 'i', 'c', 'e']
    };
    assert(name@ =~= spec_suggest_name(user_agent@));
    string_from(&name)
}


/// Whether a user agent mentions `word`, in any case.
pub open spec fn mentions(user_agent: Seq<char>, word: Seq<char>) -> bool {
    seq_contains(lower_seq(user_agent), word)
}

/// A device is offered the name of the platform its user agent mentions,
/// case aside, the most specific first: an iPad before an iPhone, an Android
/// phone, a Mac, a Windows PC and a Linux machine; one that mentions none of
/// them is a new device.
pub proof fn lemma_named_after_its_platform(ua: Seq<char>)
    ensures
        mentions(ua, seq!['i', 'p', 'a', 'd']) ==> spec_suggest_name(ua) == seq!['i', 'P', 'a', 'd'],
        !mentions(ua, seq!['i', 'p', 'a', 'd']) && mentions(ua, seq!['i', 'p', 'h', 'o', 'n', 'e'])
            ==> spec_suggest_name(ua) == seq!['i', 'P', 'h', 'o', 'n', 'e'],
        !mentions(ua, seq!['i', 'p', 'a', 'd']) && !mentions(ua, seq!['i', 'p', 'h', 'o', 'n', 'e']) && mentions(
            ua,
            seq!['a', 'n', 'd', 'r', 'o', 'i', 'd'],
        ) ==> spec_suggest_name(ua) == seq!['A', 'n', 'd', 'r', 'o', 'i', 'd', ' ', 'p', 'h', 'o', 'n', 'e'],
        !mentions(ua, seq!['i', 'p', 'a', 'd']) && !mentions(ua, seq!['i', 'p', 'h', 'o', 'n', 'e']) && !mentions(
            ua,
            seq!['a', 'n', 'd', 'r', 'o', 'i', 'd'],
        ) && (mentions(ua, seq!['m', 'a', 'c', 'i', 'n', 't', 'o', 's', 'h']) || mentions(
            ua,
            seq!['m', 'a', 'c', ' ', 'o', 's'],
        )) ==> spec_suggest_name(ua) == seq!['M', 'a', 'c'],
        !mentions(ua, seq!['i', 'p', 'a', 'd']) && !mentions(ua, seq!['i', 'p', 'h', 'o', 'n', 'e']) && !mentions(
            ua,
            seq!['a', 'n', 'd', 'r', 'o', 'i', 'd'],
        ) && !mentions(ua, seq!['m', 'a', 'c', 'i', 'n', 't', 'o', 's', 'h']) && !mentions(
            ua,
            seq!['m', 'a', 'c', ' ', 'o', 's'],
        ) && mentions(ua, seq!['w', 'i', 'n', 'd', 'o', 'w', 's']) ==> spec_suggest_name(ua) == seq![
            'W',
            'i',
            'n',
            'd',
            'o',
            'w',
            's',
            ' ',
            'P',
            'C',
        ],
        !mentions(ua, seq!['i', 'p', 'a', 'd']) && !mentions(ua, seq!['i', 'p', 'h', 'o', 'n', 'e']) && !mentions(
            ua,
            seq!['a', 'n', 'd', 'r', 'o', 'i', 'd'],
        ) && !mentions(ua, seq!['m', 'a', 'c', 'i', 'n', 't', 'o', 's', 'h']) && !mentions(
            ua,
            seq!['m', 'a', 'c', ' ', 'o', 's'],
        ) && !mentions(ua, seq!['w', 'i', 'n', 'd', 'o', 'w', 's']) && mentions(ua, seq!['l', 'i', 'n', 'u', 'x'])
            ==> spec_suggest_name(ua) == seq!['L', 'i', 'n', 'u', 'x', ' ', 'm', 'a', 'c', 'h', 'i', 'n', 'e'],
        !mentions(ua, seq!['i', 'p', 'a', 'd']) && !mentions(ua, seq!['i', 'p', 'h', 'o', 'n', 'e']) && !mentions(
            ua,
            seq!['a', 'n', 'd', 'r', 'o', 'i', 'd'],
        ) && !mentions(ua, seq!['m', 'a', 'c', 'i', 'n', 't', 'o', 's', 'h']) && !mentions(
            ua,
            seq!['m', 'a', 'c', ' ', 'o', 's'],
        ) && !mentions(ua, seq!['w', 'i', 'n', 'd', 'o', 'w', 's']) && !mentions(ua, seq!['l', 'i', 'n', 'u', 'x'])
            ==> spec_suggest_name(ua) == seq!['N', 'e', 'w', ' ', 'd', 'e', 'v', 'i', 'c', 'e'],
{
}


/// The name does not depend on case: a user agent and its lower-case form
/// are offered the same name.
pub proof fn lemma_name_ignores_case(ua: Seq<char>)
    ensures
        spec_suggest_name(lower_seq(ua)) == spec_suggest_name(ua),
{
    assert forall|i: int| 0 <= i < ua.len() implies lower(lower(ua[i])) == lower(ua[i]) by {
        let c = ua[i];
        if 'A' <= c && c <= 'Z' {
            assert(lower(c) == ((c as u32) + 32) as char);
            assert('a' <= lower(c) && lower(c) <= 'z');
        }
    }
    assert(lower_seq(lower_seq(ua)) =~= lower_seq(ua));
}

} // verus!
