//! Invite links: how a device gets permission to ask.
//!
//! A link is a bearer token, so it is treated like one: 128 bits of entropy,
//! compared in constant time, and revocable. Optional pinning to the first
//! device that redeems it exists because links get forwarded - a message in a
//! group chat reaches more people than the sender meant it to.

use vstd::prelude::*;

use crate::device::{is_token_shape, same_device, token_shape, DeviceId};
use crate::entropy::{base64url_len, random_token};
use crate::text::string_from;

verus! {

/// 128 bits.
pub const TOKEN_BYTES: usize = 16;

/// How many redemption attempts one source may make before being throttled.
/// Guessing a 128-bit token is not the threat; a script hammering the endpoint
/// is.
pub const MAX_ATTEMPTS_PER_SOURCE: u32 = 20;

#[derive(Debug, Clone, Copy, PartialEq, Eq, Structural)]
pub enum InviteError {
    Unknown,
    Expired,
    Revoked,
    PinnedElsewhere,
    RateLimited,
}

impl InviteError {
    /// What a person is told.
    pub fn message(&self) -> (s: String)
        ensures
            s@ == match *self {
                InviteError::Unknown => "that link is not valid"@,
                InviteError::Expired => "that link has expired"@,
                InviteError::Revoked => "that link has been revoked"@,
                InviteError::PinnedElsewhere => "that link is already in use on another device"@,
                InviteError::RateLimited => "too many attempts; wait a moment and try again"@,
            },
    {
        let text: &str = match self {
            InviteError::Unknown => "that link is not valid",
            InviteError::Expired => "that link has expired",
            InviteError::Revoked => "that link has been revoked",
            InviteError::PinnedElsewhere => "that link is already in use on another device",
            InviteError::RateLimited => "too many attempts; wait a moment and try again",
        };
        text.to_owned()
    }
}

/// The secret in the URL.
#[derive(Debug, Clone, PartialEq, Eq)]
pub struct InviteToken(String);

impl View for InviteToken {
    type V = Seq<char>;

    closed spec fn view(&self) -> Seq<char> {
        self.0@
    }
}

impl InviteToken {
    /// A fresh token, or `None` when the operating system has no randomness.
    pub fn generate() -> (t: Option<Self>)
        ensures
            t matches Some(tok) ==> is_token_shape(tok@),
    {
        match random_token(TOKEN_BYTES) {
            Some(s) => {
                assert(base64url_len(16) == 22);
                Some(InviteToken(s))
            },
            None => None,
        }
    }

    pub fn as_str(&self) -> (s: &str)
        ensures
            s@ == self@,
    {
        self.0.as_str()
    }

    pub fn parse(raw: &str) -> (t: Option<Self>)
        ensures
            t is Some <==> is_token_shape(raw@),
            t matches Some(tok) ==> tok@ == raw@,
    {
        if token_shape(raw) {
            Some(InviteToken(raw.to_owned()))
        } else {
            None
        }
    }

    /// Constant-time comparison, so a timing signal cannot narrow the search:
    /// every byte is looked at whatever the earlier ones were.
    pub fn matches(&self, other: &InviteToken) -> (r: bool)
        ensures
            r == (self@ == other@),
    {
        let a = self.0.as_str().as_bytes();
        let b = other.0.as_str().as_bytes();
        proof {
            vstd::utf8::encode_utf8_decode_utf8(self@);
            vstd::utf8::encode_utf8_decode_utf8(other@);
        }
        if a.len() != b.len() {
            return false;
        }
        let mut acc: u8 = 0;
        let mut i: usize = 0;
        while i < a.len()
            invariant
                i <= a.len() == b.len(),
                (acc == 0) == (forall|k: int| 0 <= k < i ==> a@[k] == b@[k]),
            decreases a.len() - i,
        {
            let x = a[i];
            let y = b[i];
            let next = acc | (x ^ y);
            assert(next == 0 <==> (acc == 0 && x == y)) by (bit_vector)
                requires
                    next == acc | (x ^ y),
            ;
            acc = next;
            i = i + 1;
        }
        assert((acc == 0) == (a@ =~= b@));
        acc == 0
    }
}

/// What a link is allowed to do.
#[derive(Debug, Clone, PartialEq)]
pub struct InvitePolicy {
    /// Absent means it does not expire.
    pub expires_at: Option<i64>,
    /// Bind to the first device that redeems it, so a forwarded link is inert.
    pub pin_to_first_device: bool,
    /// Skip the owner's approval prompt for redemptions from a household
    /// network - handing someone a link across the kitchen table should be one
    /// tap for both of you.
    pub auto_approve_on_household: bool,
}

impl Default for InvitePolicy {
    /// On by default: the common case is sending a link to one person, and a
    /// link that stops working when forwarded is the safer surprise.
    fn default() -> (p: Self)
        ensures
            p.expires_at is None,
            p.pin_to_first_device,
            !p.auto_approve_on_household,
    {
        InvitePolicy { expires_at: None, pin_to_first_device: true, auto_approve_on_household: false }
    }
}

#[derive(Debug, Clone, PartialEq)]
pub struct Invite {
    pub token: InviteToken,
    pub app_slug: String,
    /// Shown in the sharing panel so a list of links is legible: "For the
    /// family", "For Sam".
    pub label: String,
    pub policy: InvitePolicy,
    pub created_at: i64,
    pub revoked_at: Option<i64>,
    /// Set on first redemption when the policy pins.
    pub pinned_device: Option<DeviceId>,
    pub redemptions: u32,
}

/// What redeeming will do, decided before anything is written.
#[derive(Debug, Clone, PartialEq)]
pub struct Outcome {
    pub pins_now: bool,
}

/// Whether an expiry has passed at `now`.
pub open spec fn expired_at(policy: InvitePolicy, now: i64) -> bool {
    policy.expires_at matches Some(at) && now >= at
}

/// The answer `check` gives: the checks in order, cheapest and least
/// informative first, so probing tells an attacker nothing beyond "no".
pub open spec fn spec_check(invite: Invite, device: Seq<char>, now: i64, attempts: u32) -> Result<
    bool,
    InviteError,
> {
    if attempts >= MAX_ATTEMPTS_PER_SOURCE {
        Err(InviteError::RateLimited)
    } else if invite.revoked_at is Some {
        Err(InviteError::Revoked)
    } else if expired_at(invite.policy, now) {
        Err(InviteError::Expired)
    } else if invite.pinned_device matches Some(p) && p@ != device {
        Err(InviteError::PinnedElsewhere)
    } else {
        Ok(invite.policy.pin_to_first_device && invite.pinned_device is None)
    }
}

/// What `check` returned, read as the boolean `pins_now` on success.
pub open spec fn outcome_view(r: Result<Outcome, InviteError>) -> Result<bool, InviteError> {
    match r {
        Ok(o) => Ok(o.pins_now),
        Err(e) => Err(e),
    }
}

impl Invite {
    /// A new link for an app, or `None` when no token could be drawn.
    pub fn new(app_slug: &str, label: &str, policy: InvitePolicy, now: i64) -> (r: Option<Self>)
        ensures
            r matches Some(i) ==> {
                &&& is_token_shape(i.token@)
                &&& i.app_slug@ == app_slug@
                &&& i.label@ == label@
                &&& i.policy == policy
                &&& i.created_at == now
                &&& i.revoked_at is None
                &&& i.pinned_device is None
                &&& i.redemptions == 0
            },
    {
        match InviteToken::generate() {
            Some(token) => Some(
                Invite {
                    token,
                    app_slug: app_slug.to_owned(),
                    label: label.to_owned(),
                    policy,
                    created_at: now,
                    revoked_at: None,
                    pinned_device: None,
                    redemptions: 0,
                },
            ),
            None => None,
        }
    }

    /// Whether this device may redeem this link right now.
    pub fn check(&self, device: &DeviceId, now: i64, attempts: u32) -> (r: Result<
        Outcome,
        InviteError,
    >)
        ensures
            outcome_view(r) == spec_check(*self, device@, now, attempts),
    {
        if attempts >= MAX_ATTEMPTS_PER_SOURCE {
            return Err(InviteError::RateLimited);
        }
        if self.revoked_at.is_some() {
            return Err(InviteError::Revoked);
        }
        match self.policy.expires_at {
            Some(at) => {
                if now >= at {
                    return Err(InviteError::Expired);
                }
            },
            None => {},
        }
        match &self.pinned_device {
            Some(pinned) => {
                if !same_device(pinned, device) {
                    return Err(InviteError::PinnedElsewhere);
                }
            },
            None => {},
        }
        Ok(Outcome { pins_now: self.policy.pin_to_first_device && self.pinned_device.is_none() })
    }

    /// Record a successful redemption.
    pub fn redeem(&mut self, device: &DeviceId, outcome: &Outcome)
        ensures
            final(self).redemptions == if old(self).redemptions < u32::MAX {
                old(self).redemptions + 1
            } else {
                0
            },
            outcome.pins_now ==> final(self).pinned_device == Some(*device),
            !outcome.pins_now ==> final(self).pinned_device == old(self).pinned_device,
            final(self).token == old(self).token,
            final(self).app_slug == old(self).app_slug,
            final(self).label == old(self).label,
            final(self).policy == old(self).policy,
            final(self).created_at == old(self).created_at,
            final(self).revoked_at == old(self).revoked_at,
    {
        if outcome.pins_now {
            self.pinned_device = Some(device.clone_id());
        }
        self.redemptions = self.redemptions.wrapping_add(1);
    }

    pub fn is_active(&self, now: i64) -> (b: bool)
        ensures
            b == (self.revoked_at is None && !expired_at(self.policy, now)),
    {
        let expired = match self.policy.expires_at {
            Some(at) => now >= at,
            None => false,
        };
        self.revoked_at.is_none() && !expired
    }
}

/// A throttled caller learns nothing else: past the attempt limit every link,
/// whatever its state, answers the same refusal.
pub proof fn lemma_throttle_hides_state(invite: Invite, device: Seq<char>, now: i64, attempts: u32)
    requires
        attempts >= MAX_ATTEMPTS_PER_SOURCE,
    ensures
        spec_check(invite, device, now, attempts) == Err::<bool, InviteError>(
            InviteError::RateLimited,
        ),
{
}

/// A link that lets a device in is an active link.
pub proof fn lemma_accepted_means_active(
    invite: Invite,
    device: Seq<char>,
    now: i64,
    attempts: u32,
)
    requires
        spec_check(invite, device, now, attempts) is Ok,
    ensures
        invite.revoked_at is None && !expired_at(invite.policy, now),
{
}

/// Pinning: once the first device has redeemed a pinning link, that device may
/// come back and no other device may use it. `before` is the link when `check`
/// let `first` in with `pins_now`; `after` is the link as `redeem` leaves it
/// with that outcome: pinned to `first`, with its policy and revocation kept.
pub proof fn lemma_pinned_link_serves_only_its_device(
    before: Invite,
    after: Invite,
    first: DeviceId,
    other: Seq<char>,
    now: i64,
    attempts: u32,
)
    requires
        spec_check(before, first@, now, attempts) == Ok::<bool, InviteError>(true),
        after.pinned_device == Some(first),
        after.revoked_at == before.revoked_at,
        after.policy == before.policy,
        other != first@,
    ensures
        spec_check(after, first@, now, attempts) == Ok::<bool, InviteError>(false),
        spec_check(after, other, now, attempts) == Err::<bool, InviteError>(
            InviteError::PinnedElsewhere,
        ),
{
}

/// A link that does not pin never refuses a device for being a different one.
pub proof fn lemma_unpinned_link_serves_everyone(
    invite: Invite,
    a: Seq<char>,
    b: Seq<char>,
    now: i64,
    attempts: u32,
)
    requires
        invite.pinned_device is None,
    ensures
        spec_check(invite, a, now, attempts) == spec_check(invite, b, now, attempts),
{
}

} // verus!
