//! What redeeming a share link does to a device, and when a device is asked
//! what it calls itself. The store and the network are the caller's.

use vstd::prelude::*;

use crate::device::{Device, DeviceStatus};
use crate::invite::{spec_check, Invite, InviteError};

verus! {

/// What redeeming a link will do, decided before anything is written.
#[derive(Debug, Clone, Copy, PartialEq, Eq, Structural)]
pub struct RedeemPlan {
    /// Bind the link to this device now.
    pub pin: bool,
    /// Approve the device without asking the owner.
    pub auto_approve: bool,
    /// Whether the device still waits on the owner afterwards.
    pub pending: bool,
    /// Logged as "paired" rather than "requested".
    pub paired: bool,
}

/// What redeeming `invite` from `device` at `now` comes to, or why it is
/// refused. A link that skips approval at home does so only on the household
/// network; an approved device is never left pending.
pub fn redeem_plan(invite: &Invite, device: &Device, now: i64, household: bool) -> (r: Result<
    RedeemPlan,
    InviteError,
>)
    ensures
        (match spec_check(*invite, device.id@, now, 0) {
            Err(e) => r matches Err(got) && got == e,
            Ok(pins) => {
                let auto = invite.policy.auto_approve_on_household && household;
                r matches Ok(p) && p.pin == pins && p.auto_approve == auto && p.paired == auto
                    && p.pending == !(auto || device.status == DeviceStatus::Approved)
            },
        }),
{
    let outcome = match invite.check(&device.id, now, 0) {
        Ok(o) => o,
        Err(e) => return Err(e),
    };
    let auto = invite.policy.auto_approve_on_household && household;
    let approved = auto || device.status == DeviceStatus::Approved;
    Ok(RedeemPlan { pin: outcome.pins_now, auto_approve: auto, pending: !approved, paired: auto })
}

/// Whether an IPv4 address is a loopback one (`127.0.0.0/8`).
pub open spec fn is_loopback(addr: u32) -> bool {
    addr / 0x0100_0000 == 127
}

/// Whether to ask the network what a new device calls itself: only for a
/// device that came from another machine's IPv4 address, and only when the
/// lookup can really see the network.
pub fn should_discover(peer_v4: Option<u32>, live: bool) -> (b: bool)
    ensures
        b == (peer_v4 matches Some(a) && !is_loopback(a) && live),
{
    match peer_v4 {
        Some(a) => a / 0x0100_0000 != 127 && live,
        None => false,
    }
}

} // verus!
