//! How long to wait before dialling the relay again.
//!
//! Delays grow with each failure and are scattered across the whole window
//! ("full jitter"): every daemon is connected to the same edge, and if they all
//! came back in the same second after the edge restarted, the retry would
//! become the outage.
//!
//! Durations are whole milliseconds.

use vstd::prelude::*;

use crate::entropy::fill_random;

verus! {

/// The first window, in seconds.
pub const RECONNECT_MIN_SECS: u32 = 1;

/// The largest window, in seconds.
pub const RECONNECT_MAX_SECS: u32 = 60;

/// What the edge's reason for ending a connection asks of the daemon.
#[derive(Debug, Clone, Copy, PartialEq, Eq, Structural)]
pub enum Retry {
    /// Stop dialling: waiting cannot fix this, somebody has to act.
    Never,
    /// Come straight back, but still scattered: a routine drain.
    Soon,
    /// Something failed: wait longer each time.
    Backoff,
}

/// `2^n`.
pub open spec fn doubling(n: nat) -> nat
    decreases n,
{
    if n == 0 {
        1
    } else {
        2 * doubling((n - 1) as nat)
    }
}

proof fn lemma_doubling_grows(m: nat, n: nat)
    requires
        m <= n,
    ensures
        doubling(m) <= doubling(n),
    decreases n,
{
    if m < n {
        lemma_doubling_grows(m, (n - 1) as nat);
    }
}

/// The ceiling after `attempt` failures, in milliseconds: one second doubled
/// per failure, never more than a minute.
pub open spec fn window_ms(attempt: nat) -> nat {
    let secs = (RECONNECT_MIN_SECS as nat) * doubling(attempt);
    1000 * if secs <= RECONNECT_MAX_SECS as nat {
        secs
    } else {
        RECONNECT_MAX_SECS as nat
    }
}

/// The ceiling for a given attempt.
pub fn window(attempt: u32) -> (ms: u64)
    ensures
        ms == window_ms(attempt as nat),
{
    let mut secs: u64 = RECONNECT_MIN_SECS as u64;
    let mut k: u32 = 0;
    while k < attempt && secs < RECONNECT_MAX_SECS as u64
        invariant
            k <= attempt,
            secs == RECONNECT_MIN_SECS * doubling(k as nat),
            secs <= 2 * RECONNECT_MAX_SECS,
        decreases attempt - k,
    {
        secs = secs * 2;
        k = k + 1;
    }
    proof {
        if k < attempt {
            lemma_doubling_grows(k as nat, attempt as nat);
        }
    }
    let capped = if secs <= RECONNECT_MAX_SECS as u64 {
        secs
    } else {
        RECONNECT_MAX_SECS as u64
    };
    1000 * capped
}

/// The big-endian value of some bytes.
pub open spec fn be_value(bytes: Seq<u8>) -> nat
    decreases bytes.len(),
{
    if bytes.len() == 0 {
        0
    } else {
        be_value(bytes.drop_last()) * 256 + (bytes.last() as nat)
    }
}

/// `256^n`.
pub open spec fn bytes_bound(n: nat) -> nat
    decreases n,
{
    if n == 0 {
        1
    } else {
        256 * bytes_bound((n - 1) as nat)
    }
}

/// `u64::from_be_bytes`.
fn be_u64(bytes: &[u8]) -> (v: u64)
    requires
        bytes.len() == 8,
    ensures
        v == be_value(bytes@),
{
    let mut v: u64 = 0;
    let mut i: usize = 0;
    assert(bytes_bound(8) == 0x1_0000_0000_0000_0000) by {
        reveal_with_fuel(bytes_bound, 9);
    }
    while i < 8
        invariant
            i <= 8,
            bytes.len() == 8,
            v == be_value(bytes@.take(i as int)),
            v < bytes_bound(i as nat),
            bytes_bound(8) == 0x1_0000_0000_0000_0000,
        decreases 8 - i,
    {
        proof {
            lemma_bytes_bound_grows(i as nat + 1, 8);
            let b = bytes@[i as int];
            let bound = bytes_bound(i as nat);
            assert(v * 256 + b < bound * 256) by (nonlinear_arith)
                requires
                    v < bound,
                    b < 256,
            ;
            assert(bytes@.take(i as int + 1).drop_last() =~= bytes@.take(i as int));
        }
        v = v * 256 + bytes[i] as u64;
        i = i + 1;
    }
    assert(bytes@.take(8) =~= bytes@);
    v
}

proof fn lemma_bytes_bound_grows(m: nat, n: nat)
    requires
        m <= n,
    ensures
        bytes_bound(m) <= bytes_bound(n),
    decreases n,
{
    if m < n {
        lemma_bytes_bound_grows(m, (n - 1) as nat);
    }
}

/// Where in `[0, ceiling]` a draw of random bytes lands. With no bytes (the
/// random source is gone) the answer is the ceiling itself: the unscattered
/// behaviour, merely less polite.
pub open spec fn spec_jitter(ceiling: nat, draw: Option<Seq<u8>>) -> nat {
    if ceiling == 0 {
        0
    } else {
        match draw {
            Some(bytes) => be_value(bytes) % (ceiling + 1),
            None => ceiling,
        }
    }
}

/// A pick from `[0, ceiling]` given eight random bytes, or `None` when the
/// random source failed.
pub fn jitter_from(ceiling: u64, draw: Option<&[u8]>) -> (ms: u64)
    requires
        ceiling < u64::MAX,
        draw matches Some(bytes) ==> bytes.len() == 8,
    ensures
        ms == spec_jitter(ceiling as nat, match draw {
            Some(b) => Some(b@),
            None => None,
        }),
        ms <= ceiling,
{
    if ceiling == 0 {
        return 0;
    }
    match draw {
        Some(bytes) => be_u64(bytes) % (ceiling + 1),
        None => ceiling,
    }
}

/// A uniform pick from `[0, ceiling]`, to the millisecond: where eight bytes
/// from the operating system's random source land, or the ceiling when that
/// source fails.
pub fn jitter(ceiling: u64) -> (ms: u64)
    requires
        ceiling < u64::MAX,
    ensures
        ms <= ceiling,
        exists|draw: Option<Seq<u8>>|
            (draw matches Some(b) ==> b.len() == 8) && ms == #[trigger] spec_jitter(ceiling as nat, draw),
{
    if ceiling == 0 {
        assert(0 == spec_jitter(ceiling as nat, None));
        return 0;
    }
    match fill_random(8) {
        Some(bytes) => {
            let ms = jitter_from(ceiling, Some(bytes.as_slice()));
            assert(ms == spec_jitter(ceiling as nat, Some(bytes@)));
            ms
        },
        None => {
            let ms = jitter_from(ceiling, None);
            assert(ms == spec_jitter(ceiling as nat, None));
            ms
        },
    }
}

/// Whether `ms` is a wait that a draw of eight random bytes (or a failed
/// random source) gives over the window after `failures` failures.
pub open spec fn may_wait(failures: nat, ms: nat) -> bool {
    exists|draw: Option<Seq<u8>>|
        (draw matches Some(b) ==> b.len() == 8) && ms == #[trigger] spec_jitter(window_ms(failures), draw)
}

/// Where the next attempt may land.
#[derive(Debug, Clone, Copy, PartialEq, Eq)]
pub struct Backoff {
    /// How many attempts have failed since the last success. Saturates, so a
    /// daemon left dialling overnight does not wrap round to no delay at all.
    attempt: u32,
}

impl Backoff {
    pub closed spec fn failures(&self) -> nat {
        self.attempt as nat
    }

    pub fn new() -> (b: Self)
        ensures
            b.failures() == 0,
    {
        Backoff { attempt: 0 }
    }

    /// A connection worked. The next failure starts from the bottom again.
    pub fn succeeded(&mut self)
        ensures
            final(self).failures() == 0,
    {
        self.attempt = 0;
    }

    /// How many attempts have failed since the last success.
    pub fn attempts(&self) -> (n: u32)
        ensures
            n == self.failures(),
    {
        self.attempt
    }

    /// How long to wait, in milliseconds, or `None` to stop dialling.
    ///
    /// A drain still waits and still scatters, but does not count as a
    /// failure; a failure waits a random time within its window and moves the
    /// schedule up one step.
    pub fn next_delay(&mut self, retry: Retry) -> (d: Option<u64>)
        ensures
            retry == Retry::Never ==> d is None && final(self).failures() == old(self).failures(),
            retry == Retry::Soon ==> (d matches Some(ms) && ms <= window_ms(0) && may_wait(0, ms as nat))
                && final(self).failures() == old(self).failures(),
            retry == Retry::Backoff ==> (d matches Some(ms) && ms <= window_ms(
                old(self).failures(),
            ) && may_wait(old(self).failures(), ms as nat)) && final(self).failures() == if old(self).failures() < u32::MAX {
                old(self).failures() + 1
            } else {
                old(self).failures()
            },
    {
        match retry {
            Retry::Never => None,
            Retry::Soon => Some(jitter(window(0))),
            Retry::Backoff => {
                let delay = jitter(window(self.attempt));
                self.attempt = self.attempt.saturating_add(1);
                Some(delay)
            },
        }
    }
}

impl Default for Backoff {
    fn default() -> (b: Self)
        ensures
            b.failures() == 0,
    {
        Backoff::new()
    }
}

/// The wait after a failure climbs with the failures before it: after `n`
/// failures every wait lies in `[0, w]`, where `w` is one second doubled `n`
/// times and held at a minute; `w` itself is a possible wait (the one a
/// failed random source gives), so after five failures a wait of 32 seconds
/// can come, and no window is narrower than the one before it.
pub proof fn lemma_waits_climb(n: nat)
    ensures
        forall|ms: nat| may_wait(n, ms) ==> ms <= window_ms(n),
        may_wait(n, window_ms(n)),
        window_ms(n) == 1000 * (if doubling(n) <= 60 { doubling(n) } else { 60 }),
        window_ms(n) <= window_ms(n + 1),
        2 * doubling(n) <= 60 ==> window_ms(n + 1) == 2 * window_ms(n),
        window_ms(5) == 32000,
{
    assert forall|ms: nat| may_wait(n, ms) implies ms <= window_ms(n) by {
        let draw = choose|draw: Option<Seq<u8>>|
            (draw matches Some(b) ==> b.len() == 8) && ms == #[trigger] spec_jitter(window_ms(n), draw);
        if window_ms(n) > 0 {
            match draw {
                Some(b) => {
                    assert(be_value(b) % (window_ms(n) + 1) < window_ms(n) + 1);
                },
                None => {},
            }
        }
    }
    assert(spec_jitter(window_ms(n), None) == window_ms(n)) by {
        lemma_window_is_capped(n);
    }
    assert(doubling(n + 1) == 2 * doubling(n));
    assert(doubling(5) == 32) by {
        reveal_with_fuel(doubling, 6);
    }
}

/// Every window is at most a minute.
pub proof fn lemma_window_is_capped(attempt: nat)
    ensures
        window_ms(attempt) <= 1000 * RECONNECT_MAX_SECS,
        window_ms(attempt) >= 1000 * RECONNECT_MIN_SECS,
{
    assert(doubling(attempt) >= 1) by {
        lemma_doubling_grows(0, attempt);
    }
}

} // verus!
