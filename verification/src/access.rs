//! Who may open an app, and how that is decided.
//!
//! Three pieces fit together. A **device** is a browser that has been approved
//! once and remembered. A **session** is a signed cookie proving which device
//! is asking. An **invite** is a link that lets a new device ask in the first
//! place. This module is where they meet: one function, [`decide`], holds the
//! whole visibility model, and the proof functions below state what it
//! promises across every row of the matrix.

use vstd::prelude::*;

use crate::device::{Device, DeviceStatus};
use crate::session::SessionToken;
use crate::text::chars_of;

verus! {

/// Who an app is for.
#[derive(Debug, Clone, Copy, PartialEq, Eq, Structural)]
pub enum Visibility {
    /// The owner, and nobody else.
    Private,
    /// Anyone on a network the owner marked as home ("Household").
    Network,
    /// Devices the owner approved, who arrived with a link.
    Invited,
    /// Anyone with the URL.
    Public,
}

impl Default for Visibility {
    /// A folder that has never been shared is Private.
    fn default() -> (v: Self)
        ensures
            v == Visibility::Private,
    {
        Visibility::Private
    }
}

/// Whether, and how, an app is published to the relay.
#[derive(Debug, Clone, Copy, PartialEq, Eq, Structural)]
pub enum RelayMode {
    /// Not on the internet at all.
    Off,
    /// Published; the relay carries the bytes.
    Standard,
    /// Published, end to end encrypted.
    Strict,
}

impl Default for RelayMode {
    /// A new folder is not on the internet.
    fn default() -> (m: Self)
        ensures
            m == RelayMode::Off,
    {
        RelayMode::Off
    }
}

impl RelayMode {
    pub open spec fn spec_is_published(self) -> bool {
        self != RelayMode::Off
    }

    /// Whether the owner switched this app on for the relay. Standard and
    /// Strict differ in how bytes travel, never in who may have them.
    pub fn is_published(&self) -> (b: bool)
        ensures
            b == self.spec_is_published(),
    {
        match self {
            RelayMode::Off => false,
            _ => true,
        }
    }
}

/// Everything known about one request when deciding who may open an app.
#[derive(Debug, Clone)]
pub struct RequestContext {
    /// A valid session cookie, if one was presented and verified.
    pub session: Option<SessionToken>,
    /// Whether the request arrived from a network the owner marked as home.
    pub on_household_network: bool,
    /// Whether this request originated on the owner's own machine: loopback,
    /// or an address this machine currently holds.
    pub is_loopback: bool,
    /// Whether this request arrived over the relay - that is, from the
    /// internet. It only ever takes trust away.
    pub arrived_by_relay: bool,
}

impl Default for RequestContext {
    fn default() -> (c: Self)
        ensures
            c.session is None,
            !c.on_household_network,
            !c.is_loopback,
            !c.arrived_by_relay,
    {
        RequestContext {
            session: None,
            on_household_network: false,
            is_loopback: false,
            arrived_by_relay: false,
        }
    }
}

/// What was decided about a request.
#[derive(Debug, Clone, PartialEq, Eq)]
pub enum Decision {
    /// Serve it.
    Allow,
    /// Send them through the pairing flow: they may be allowed, but this
    /// device is not known yet.
    NeedsPairing,
    /// No, and no path forward from here.
    Deny(DenyReason),
}

#[derive(Debug, Clone, Copy, PartialEq, Eq, Structural)]
pub enum DenyReason {
    /// Private, and this is not the owner.
    NotTheOwner,
    /// Household, but the machine is not on a network the owner trusts.
    WrongNetwork,
    /// The device was explicitly revoked; a new invite is required.
    DeviceRevoked,
    /// The owner took the app offline. Nothing to do with who is asking.
    Paused,
    /// The owner has not published the app to the relay, so from outside this
    /// network it does not exist.
    NotPublished,
}

/// The decision, over the status of the device asking (if it is known).
pub open spec fn spec_decide(
    visibility: Visibility,
    paused: bool,
    relay: RelayMode,
    device: Option<DeviceStatus>,
    loopback: bool,
    household: bool,
    relayed: bool,
) -> Decision {
    if paused {
        Decision::Deny(DenyReason::Paused)
    } else if relayed && !relay.spec_is_published() {
        Decision::Deny(DenyReason::NotPublished)
    } else if device == Some(DeviceStatus::Revoked) {
        Decision::Deny(DenyReason::DeviceRevoked)
    } else {
        match visibility {
            Visibility::Private => if loopback || device == Some(DeviceStatus::Owner) {
                Decision::Allow
            } else {
                Decision::Deny(DenyReason::NotTheOwner)
            },
            Visibility::Network => if loopback || household {
                Decision::Allow
            } else {
                Decision::Deny(DenyReason::WrongNetwork)
            },
            Visibility::Invited => if device == Some(DeviceStatus::Approved) || loopback {
                Decision::Allow
            } else {
                Decision::NeedsPairing
            },
            Visibility::Public => Decision::Allow,
        }
    }
}

pub open spec fn status_of(device: Option<&Device>) -> Option<DeviceStatus> {
    match device {
        Some(d) => Some(d.status),
        None => None,
    }
}

/// Whether the device asking is the owner's own machine.
pub fn is_owner(device: Option<&Device>) -> (b: bool)
    ensures
        b == (status_of(device) == Some(DeviceStatus::Owner)),
{
    match device {
        Some(d) => d.status == DeviceStatus::Owner,
        None => false,
    }
}

/// Decide whether a request may open an app.
///
/// The whole visibility model in one function, deliberately: scattering these
/// rules across middleware is how a level ends up meaning something subtly
/// different on one code path than another.
pub fn decide(
    visibility: Visibility,
    paused: bool,
    relay: RelayMode,
    device: Option<&Device>,
    ctx: &RequestContext,
) -> (d: Decision)
    ensures
        d == spec_decide(
            visibility,
            paused,
            relay,
            status_of(device),
            ctx.is_loopback,
            ctx.on_household_network,
            ctx.arrived_by_relay,
        ),
{
    // A paused app answers nobody - not the owner, not an approved device, not
    // this machine.
    if paused {
        return Decision::Deny(DenyReason::Paused);
    }
    // Nothing leaves the house unless its owner said so.
    if ctx.arrived_by_relay && !relay.is_published() {
        return Decision::Deny(DenyReason::NotPublished);
    }
    // A revoked device is refused everywhere, whatever the level says.
    match device {
        Some(d) => {
            if d.status == DeviceStatus::Revoked {
                return Decision::Deny(DenyReason::DeviceRevoked);
            }
        },
        None => {},
    }
    match visibility {
        Visibility::Private => {
            if ctx.is_loopback || is_owner(device) {
                Decision::Allow
            } else {
                // An unknown device asking for a private app is refused rather
                // than offered pairing: pairing is for apps that are shared.
                Decision::Deny(DenyReason::NotTheOwner)
            }
        },
        Visibility::Network => {
            if ctx.is_loopback || ctx.on_household_network {
                Decision::Allow
            } else {
                Decision::Deny(DenyReason::WrongNetwork)
            }
        },
        Visibility::Invited => {
            let approved = match device {
                Some(d) => d.status == DeviceStatus::Approved,
                None => false,
            };
            if approved || ctx.is_loopback {
                Decision::Allow
            } else {
                Decision::NeedsPairing
            }
        },
        Visibility::Public => Decision::Allow,
    }
}

/// Pausing is a switch, not a level: no combination of visibility, relay,
/// device or network gets round it - including the owner on this very machine.
pub proof fn lemma_pausing_overrides_everything(
    visibility: Visibility,
    relay: RelayMode,
    device: Option<DeviceStatus>,
    loopback: bool,
    household: bool,
    relayed: bool,
)
    ensures
        spec_decide(visibility, true, relay, device, loopback, household, relayed)
            == Decision::Deny(DenyReason::Paused),
{
}

/// An unpublished app is not reachable from the internet, whatever else is true
/// of it: every relayed request for it is told there is nothing there.
pub proof fn lemma_unpublished_refuses_every_relayed_request(
    visibility: Visibility,
    device: Option<DeviceStatus>,
    loopback: bool,
    household: bool,
)
    ensures
        spec_decide(visibility, false, RelayMode::Off, device, loopback, household, true)
            == Decision::Deny(DenyReason::NotPublished),
{
}

/// A request that did not arrive over the relay gets the same answer whatever
/// the relay is set to: the free tier does not change because a paid feature
/// exists.
pub proof fn lemma_local_requests_ignore_the_relay(
    visibility: Visibility,
    paused: bool,
    a: RelayMode,
    b: RelayMode,
    device: Option<DeviceStatus>,
    loopback: bool,
    household: bool,
)
    ensures
        spec_decide(visibility, paused, a, device, loopback, household, false) == spec_decide(
            visibility,
            paused,
            b,
            device,
            loopback,
            household,
            false,
        ),
{
}

/// Publishing decides whether the question can be asked from outside, never
/// who may open the app: once published, the two modes answer alike, and a
/// relayed request is answered as a local one from a stranger's network would
/// be.
pub proof fn lemma_publishing_changes_nothing_about_who(
    visibility: Visibility,
    a: RelayMode,
    b: RelayMode,
    device: Option<DeviceStatus>,
)
    requires
        a.spec_is_published(),
        b.spec_is_published(),
    ensures
        spec_decide(visibility, false, a, device, false, false, true) == spec_decide(
            visibility,
            false,
            b,
            device,
            false,
            false,
            true,
        ),
        spec_decide(visibility, false, a, device, false, false, true) == spec_decide(
            visibility,
            false,
            RelayMode::Off,
            device,
            false,
            false,
            false,
        ),
{
}

/// Revocation that a visibility level could override would not be revocation:
/// a revoked device is refused at every level, Public included.
pub proof fn lemma_revoked_is_refused_everywhere(
    visibility: Visibility,
    relay: RelayMode,
    loopback: bool,
    household: bool,
    relayed: bool,
)
    requires
        !relayed || relay.spec_is_published(),
    ensures
        spec_decide(
            visibility,
            false,
            relay,
            Some(DeviceStatus::Revoked),
            loopback,
            household,
            relayed,
        ) == Decision::Deny(DenyReason::DeviceRevoked),
{
}

/// Nothing is reachable by default: a Private app refuses every caller that is
/// neither this machine nor the owner's device.
pub proof fn lemma_private_is_for_the_owner(
    relay: RelayMode,
    device: Option<DeviceStatus>,
    household: bool,
    relayed: bool,
)
    requires
        device != Some(DeviceStatus::Owner),
    ensures
        spec_decide(Visibility::Private, false, relay, device, false, household, relayed)
            != Decision::Allow,
{
}

/// Household is bound to place: an approved device on the wrong network is
/// refused, and being on the home network is not itself an invitation.
pub proof fn lemma_household_is_about_place(
    relay: RelayMode,
    device: Option<DeviceStatus>,
    relayed: bool,
)
    requires
        device != Some(DeviceStatus::Revoked),
        !relayed || relay.spec_is_published(),
    ensures
        spec_decide(Visibility::Network, false, relay, device, false, false, relayed)
            == Decision::Deny(DenyReason::WrongNetwork),
        spec_decide(Visibility::Network, false, relay, device, false, true, relayed)
            == Decision::Allow,
        device != Some(DeviceStatus::Approved) ==> spec_decide(
            Visibility::Invited,
            false,
            relay,
            device,
            false,
            true,
            relayed,
        ) == Decision::NeedsPairing,
{
}

/// An invited app never refuses a device that has not been revoked: it either
/// lets it in or sends it to the pairing page.
pub proof fn lemma_invited_never_refuses_outright(
    relay: RelayMode,
    device: Option<DeviceStatus>,
    loopback: bool,
    household: bool,
    relayed: bool,
)
    requires
        device != Some(DeviceStatus::Revoked),
        !relayed || relay.spec_is_published(),
    ensures
        spec_decide(Visibility::Invited, false, relay, device, loopback, household, relayed)
            is Allow || spec_decide(
            Visibility::Invited,
            false,
            relay,
            device,
            loopback,
            household,
            relayed,
        ) is NeedsPairing,
{
}

pub open spec fn visibility_named(raw: Seq<char>) -> Option<Visibility> {
    if raw == "private"@ {
        Some(Visibility::Private)
    } else if raw == "network"@ || raw == "household"@ {
        Some(Visibility::Network)
    } else if raw == "invited"@ {
        Some(Visibility::Invited)
    } else if raw == "public"@ {
        Some(Visibility::Public)
    } else {
        None
    }
}

/// A visibility as the socket API spells it. "household" is accepted as a
/// synonym for the wire value "network", because it is what the window calls
/// it.
pub fn parse_visibility(raw: &str) -> (v: Option<Visibility>)
    ensures
        v == visibility_named(raw@),
{
    let cs = chars_of(raw);
    let private = chars_of("private");
    let network = chars_of("network");
    let household = chars_of("household");
    let invited = chars_of("invited");
    let public = chars_of("public");
    if crate::text::same(&cs, &private) {
        Some(Visibility::Private)
    } else if crate::text::same(&cs, &network) || crate::text::same(&cs, &household) {
        Some(Visibility::Network)
    } else if crate::text::same(&cs, &invited) {
        Some(Visibility::Invited)
    } else if crate::text::same(&cs, &public) {
        Some(Visibility::Public)
    } else {
        None
    }
}

pub open spec fn relay_mode_named(raw: Seq<char>) -> Option<RelayMode> {
    if raw == "off"@ {
        Some(RelayMode::Off)
    } else if raw == "standard"@ {
        Some(RelayMode::Standard)
    } else if raw == "strict"@ {
        Some(RelayMode::Strict)
    } else {
        None
    }
}

/// A relay mode as the socket API spells it.
pub fn parse_relay_mode(raw: &str) -> (m: Option<RelayMode>)
    ensures
        m == relay_mode_named(raw@),
{
    let cs = chars_of(raw);
    let off = chars_of("off");
    let standard = chars_of("standard");
    let strict = chars_of("strict");
    if crate::text::same(&cs, &off) {
        Some(RelayMode::Off)
    } else if crate::text::same(&cs, &standard) {
        Some(RelayMode::Standard)
    } else if crate::text::same(&cs, &strict) {
        Some(RelayMode::Strict)
    } else {
        None
    }
}

} // verus!
