//! The daemon's side of the relay tunnel: whether it is up, what to do when it
//! drops, how the control stream keeps it honest, and how a websocket's
//! messages become a stream of bytes.
//!
//! The network work is done by the caller. Each piece here is the decision it
//! has to make: given what just happened, what state the tunnel is in and what
//! to do next.

use vstd::prelude::*;

use crate::backoff::{window_ms, Backoff, Retry};
use crate::text::{append_str, chars_of, string_from, trimmed};

verus! {

/// Whether this machine is currently reachable from the internet.
#[derive(Debug, Clone, PartialEq, Eq)]
pub enum RelayState {
    /// No relay configured: the free tier, not a fault.
    Off,
    /// Dialling, or waiting to dial again after a drop.
    Connecting,
    /// Up. Published apps are reachable at their public addresses.
    Connected,
    /// Stopped trying, because waiting cannot fix it. The message is meant to
    /// be shown.
    NeedsAttention(String),
}

/// Whether two states say the same thing.
pub open spec fn same_state(a: RelayState, b: RelayState) -> bool {
    match (a, b) {
        (RelayState::Off, RelayState::Off) => true,
        (RelayState::Connecting, RelayState::Connecting) => true,
        (RelayState::Connected, RelayState::Connected) => true,
        (RelayState::NeedsAttention(x), RelayState::NeedsAttention(y)) => x@ == y@,
        _ => false,
    }
}

impl RelayState {
    /// A copy of this state.
    pub fn duplicate(&self) -> (r: RelayState)
        ensures
            r == *self,
    {
        match self {
            RelayState::Off => RelayState::Off,
            RelayState::Connecting => RelayState::Connecting,
            RelayState::Connected => RelayState::Connected,
            RelayState::NeedsAttention(m) => RelayState::NeedsAttention(m.clone()),
        }
    }

    /// Whether `self` and `other` say the same thing.
    pub fn same_as(&self, other: &RelayState) -> (b: bool)
        ensures
            b == same_state(*self, *other),
    {
        match (self, other) {
            (RelayState::Off, RelayState::Off) => true,
            (RelayState::Connecting, RelayState::Connecting) => true,
            (RelayState::Connected, RelayState::Connected) => true,
            (RelayState::NeedsAttention(x), RelayState::NeedsAttention(y)) => x.eq(y),
            _ => false,
        }
    }
}

impl Default for RelayState {
    fn default() -> (s: Self)
        ensures
            s == RelayState::Off,
    {
        RelayState::Off
    }
}

/// The current [`RelayState`], as answered to anyone who asks.
#[derive(Debug)]
pub struct RelayStatus {
    state: RelayState,
}

impl RelayStatus {
    pub closed spec fn current(&self) -> RelayState {
        self.state
    }

    pub fn new() -> (s: Self)
        ensures
            s.current() == RelayState::Off,
    {
        RelayStatus { state: RelayState::Off }
    }

    pub fn get(&self) -> (s: RelayState)
        ensures
            s == self.current(),
    {
        self.state.duplicate()
    }

    /// Record `state`, and say whether that changed anything, so a caller does
    /// not announce a transition that did not happen.
    pub fn set(&mut self, state: RelayState) -> (changed: bool)
        ensures
            changed == !same_state(old(self).current(), state),
            final(self).current() == state,
    {
        let changed = !self.state.same_as(&state);
        self.state = state;
        changed
    }
}

impl Default for RelayStatus {
    fn default() -> (s: Self)
        ensures
            s.current() == RelayState::Off,
    {
        RelayStatus::new()
    }
}

/// Where to dial.
#[derive(Debug, Clone, PartialEq, Eq)]
pub struct Config {
    /// The edge's websocket URL.
    pub url: String,
}

impl Config {
    /// The relay configuration a setting describes, if any. Unset, empty and
    /// all-blank all mean "no relay"; surrounding whitespace is not part of
    /// the URL.
    pub fn from_setting(value: Option<&str>) -> (c: Option<Config>)
        ensures
            (match value {
                None => c is None,
                Some(v) => if crate::text::trim(v@).len() == 0 {
                    c is None
                } else {
                    c matches Some(config) && config.url@ == crate::text::trim(v@)
                },
            }),
    {
        match value {
            None => None,
            Some(v) => {
                let t = trimmed(&chars_of(v));
                if t.len() == 0 {
                    None
                } else {
                    Some(Config { url: string_from(&t) })
                }
            },
        }
    }
}

/// The edge's reason for ending a connection, as far as this daemon acts on it.
#[derive(Debug, Clone)]
pub struct CloseReason {
    /// What the reason asks of the daemon.
    pub retry: Retry,
    /// Whether the owner has to do something about it.
    pub needs_the_owner: bool,
    /// How the reason is written in the log and shown to the owner.
    pub detail: String,
}

/// Why a connection attempt or a connection ended.
#[derive(Debug)]
pub enum Ended {
    /// The edge said why.
    Refused(CloseReason),
    /// No usable connection, or it was lost. Always worth retrying.
    Transport(String),
    /// The other end is not speaking the protocol properly.
    Protocol(String),
}

pub open spec fn spec_retry(e: Ended) -> Retry {
    match e {
        Ended::Refused(reason) => reason.retry,
        Ended::Transport(_) => Retry::Backoff,
        Ended::Protocol(_) => Retry::Backoff,
    }
}

pub open spec fn spec_describe(e: Ended) -> Seq<char> {
    match e {
        Ended::Refused(reason) => "the relay refused this install: "@ + reason.detail@,
        Ended::Transport(d) => "the connection failed: "@ + d@,
        Ended::Protocol(d) => "the relay is not making sense: "@ + d@,
    }
}

impl Ended {
    pub fn retry(&self) -> (r: Retry)
        ensures
            r == spec_retry(*self),
    {
        match self {
            Ended::Refused(reason) => reason.retry,
            Ended::Transport(_) => Retry::Backoff,
            Ended::Protocol(_) => Retry::Backoff,
        }
    }

    /// Whether the desktop window should say something rather than spin.
    pub fn needs_the_owner(&self) -> (b: bool)
        ensures
            b == (*self matches Ended::Refused(reason) && reason.needs_the_owner),
    {
        match self {
            Ended::Refused(reason) => reason.needs_the_owner,
            _ => false,
        }
    }

    /// What happened, in words.
    pub fn describe(&self) -> (s: String)
        ensures
            s@ == spec_describe(*self),
    {
        let mut out: Vec<char> = Vec::new();
        match self {
            Ended::Refused(reason) => {
                append_str(&mut out, "the relay refused this install: ");
                append_str(&mut out, reason.detail.as_str());
            },
            Ended::Transport(d) => {
                append_str(&mut out, "the connection failed: ");
                append_str(&mut out, d.as_str());
            },
            Ended::Protocol(d) => {
                append_str(&mut out, "the relay is not making sense: ");
                append_str(&mut out, d.as_str());
            },
        }
        string_from(&out)
    }
}

/// What the relay loop does next.
#[derive(Debug, Clone, Copy, PartialEq, Eq, Structural)]
pub enum Next {
    /// Dial now.
    Dial,
    /// Wait this many milliseconds, then dial.
    WaitThenDial(u64),
    /// Stop: waiting cannot fix this.
    Stop,
}

/// The states the window is told of, given every state the loop recorded
/// after starting from `start`: each one that differs from the state before
/// it, in order.
pub open spec fn transitions(start: RelayState, states: Seq<RelayState>) -> Seq<RelayState>
    decreases states.len(),
{
    if states.len() == 0 {
        Seq::empty()
    } else {
        let before = if states.len() == 1 {
            start
        } else {
            states[states.len() - 2]
        };
        let earlier = transitions(start, states.drop_last());
        if same_state(before, states.last()) {
            earlier
        } else {
            earlier.push(states.last())
        }
    }
}

/// What a step told the window, as a sequence of zero or one states.
pub open spec fn told_seq(told: Option<RelayState>) -> Seq<RelayState> {
    match told {
        Some(s) => seq![s],
        None => Seq::empty(),
    }
}

/// The decisions of the loop that keeps a relay connection up: one place the
/// state is written, so the window is never told something the loop does not
/// believe.
pub struct RelayLoop {
    backoff: Backoff,
    status: RelayStatus,
    history: Ghost<Seq<RelayState>>,
    told: Ghost<Seq<RelayState>>,
}

impl RelayLoop {
    pub closed spec fn state(&self) -> RelayState {
        self.status.current()
    }

    /// Every state the loop has recorded, in order.
    pub closed spec fn history(&self) -> Seq<RelayState> {
        self.history@
    }

    /// Every state the window has been told of, in order.
    pub closed spec fn told(&self) -> Seq<RelayState> {
        self.told@
    }

    pub closed spec fn wf(&self) -> bool {
        &&& self.told@ == transitions(RelayState::Off, self.history@)
        &&& if self.history@.len() == 0 {
            self.status.current() == RelayState::Off
        } else {
            self.status.current() == self.history@.last()
        }
    }

    /// Over a whole run the window is told of exactly the real changes of
    /// state, in order, and of nothing else.
    pub proof fn lemma_window_hears_each_change(&self)
        requires
            self.wf(),
        ensures
            self.told() == transitions(RelayState::Off, self.history()),
    {
    }

    pub closed spec fn failures(&self) -> nat {
        self.backoff.failures()
    }

    pub fn new() -> (l: Self)
        ensures
            l.wf(),
            l.state() == RelayState::Off,
            l.failures() == 0,
            l.history() == Seq::<RelayState>::empty(),
            l.told() == Seq::<RelayState>::empty(),
    {
        RelayLoop {
            backoff: Backoff::new(),
            status: RelayStatus::new(),
            history: Ghost(Seq::empty()),
            told: Ghost(Seq::empty()),
        }
    }

    /// The state as it stands.
    pub fn status(&self) -> (s: RelayState)
        ensures
            s == self.state(),
    {
        self.status.get()
    }

    /// Record `state`; what to tell the window, if anything changed.
    fn announce(&mut self, state: RelayState) -> (told: Option<RelayState>)
        requires
            old(self).wf(),
        ensures
            final(self).wf(),
            final(self).history() == old(self).history().push(state),
            final(self).told() == old(self).told() + told_seq(told),
            final(self).state() == state,
            final(self).failures() == old(self).failures(),
            told == if same_state(old(self).state(), state) {
                None
            } else {
                Some(state)
            },
    {
        let copy = state.duplicate();
        let ghost st = state;
        let told = if self.status.set(state) {
            Some(copy)
        } else {
            None
        };
        proof {
            let before = self.history@;
            self.history@ = before.push(st);
            self.told@ = self.told@ + told_seq(told);
            assert(self.history@.drop_last() =~= before);
            assert(self.told@ =~= transitions(RelayState::Off, self.history@));
        }
        told
    }

    /// The loop starts: it is dialling.
    pub fn start(&mut self) -> (told: Option<RelayState>)
        requires
            old(self).wf(),
        ensures
            final(self).wf(),
            final(self).history() == old(self).history().push(RelayState::Connecting),
            final(self).told() == old(self).told() + told_seq(told),
            final(self).state() == RelayState::Connecting,
            final(self).failures() == old(self).failures(),
            told == if same_state(old(self).state(), RelayState::Connecting) {
                None
            } else {
                Some(RelayState::Connecting)
            },
    {
        self.announce(RelayState::Connecting)
    }

    /// A connection got all the way through the handshake: the schedule starts
    /// from the bottom again, and the tunnel is up.
    pub fn connected(&mut self) -> (told: Option<RelayState>)
        requires
            old(self).wf(),
        ensures
            final(self).wf(),
            final(self).history() == old(self).history().push(RelayState::Connected),
            final(self).told() == old(self).told() + told_seq(told),
            final(self).state() == RelayState::Connected,
            final(self).failures() == 0,
            told == if same_state(old(self).state(), RelayState::Connected) {
                None
            } else {
                Some(RelayState::Connected)
            },
    {
        self.backoff.succeeded();
        self.announce(RelayState::Connected)
    }

    /// A connection (or an attempt at one) ended. Either stop and say why, or
    /// wait and dial again - and between the two the tunnel is not up, so the
    /// state says so.
    pub fn ended(&mut self, ended: &Ended) -> (r: (Next, Option<RelayState>))
        requires
            old(self).wf(),
        ensures
            final(self).wf(),
            final(self).history() == old(self).history().push(final(self).state()),
            final(self).told() == old(self).told() + told_seq(r.1),
            r.0 == Next::Stop <==> spec_retry(*ended) == Retry::Never,
            spec_retry(*ended) == Retry::Never ==> {
                &&& r.0 == Next::Stop
                &&& final(self).state() matches RelayState::NeedsAttention(m) && m@
                    == spec_describe(*ended)
                &&& final(self).failures() == old(self).failures()
            },
            spec_retry(*ended) == Retry::Soon ==> {
                &&& r.0 matches Next::WaitThenDial(ms) && ms <= window_ms(0)
                &&& final(self).state() == RelayState::Connecting
                &&& final(self).failures() == old(self).failures()
            },
            spec_retry(*ended) == Retry::Backoff ==> {
                &&& r.0 matches Next::WaitThenDial(ms) && ms <= window_ms(old(self).failures())
                &&& final(self).state() == RelayState::Connecting
                &&& final(self).failures() == if old(self).failures() < u32::MAX {
                    old(self).failures() + 1
                } else {
                    old(self).failures()
                }
            },
            r.1 == if same_state(old(self).state(), final(self).state()) {
                None
            } else {
                Some(final(self).state())
            },
    {
        let retry = ended.retry();
        match self.backoff.next_delay(retry) {
            None => {
                let told = self.announce(RelayState::NeedsAttention(ended.describe()));
                (Next::Stop, told)
            },
            Some(delay) => {
                let told = self.announce(RelayState::Connecting);
                (Next::WaitThenDial(delay), told)
            },
        }
    }
}

/// One attempt of a relay run: whether the connection got through the
/// handshake, and how it ended.
pub struct Attempt {
    pub connected: bool,
    pub ended: Ended,
}

/// A relay state as a value.
pub enum StateView {
    Off,
    Connecting,
    Connected,
    NeedsAttention(Seq<char>),
}

pub open spec fn state_view(s: RelayState) -> StateView {
    match s {
        RelayState::Off => StateView::Off,
        RelayState::Connecting => StateView::Connecting,
        RelayState::Connected => StateView::Connected,
        RelayState::NeedsAttention(m) => StateView::NeedsAttention(m@),
    }
}

/// `transitions`, over states as values.
pub open spec fn view_transitions(start: StateView, states: Seq<StateView>) -> Seq<StateView>
    decreases states.len(),
{
    if states.len() == 0 {
        Seq::empty()
    } else {
        let before = if states.len() == 1 {
            start
        } else {
            states[states.len() - 2]
        };
        let earlier = view_transitions(start, states.drop_last());
        if before == states.last() {
            earlier
        } else {
            earlier.push(states.last())
        }
    }
}

/// Where an ending leaves the run: needing the owner's attention, with the
/// ending's reason, when it says never to retry; dialling again otherwise.
pub open spec fn end_view(e: Ended) -> StateView {
    if spec_retry(e) == Retry::Never {
        StateView::NeedsAttention(spec_describe(e))
    } else {
        StateView::Connecting
    }
}

/// The states one attempt records: connected, when it got that far, then
/// where its ending leaves the run.
pub open spec fn attempt_states(a: Attempt) -> Seq<StateView> {
    if a.connected {
        seq![StateView::Connected, end_view(a.ended)]
    } else {
        seq![end_view(a.ended)]
    }
}

/// Every state a run records over its first `n` attempts: connecting, then
/// each attempt's states in turn.
pub open spec fn run_history(attempts: Seq<Attempt>, n: int) -> Seq<StateView>
    decreases n,
{
    if n <= 0 {
        seq![StateView::Connecting]
    } else {
        run_history(attempts, n - 1) + attempt_states(attempts[n - 1])
    }
}

proof fn lemma_transitions_view(start: RelayState, h: Seq<RelayState>)
    ensures
        transitions(start, h).map_values(|s: RelayState| state_view(s)) == view_transitions(
            state_view(start),
            h.map_values(|s: RelayState| state_view(s)),
        ),
    decreases h.len(),
{
    let hv = h.map_values(|s: RelayState| state_view(s));
    if h.len() > 0 {
        lemma_transitions_view(start, h.drop_last());
        assert(h.drop_last().map_values(|s: RelayState| state_view(s)) =~= hv.drop_last());
        let before = if h.len() == 1 {
            start
        } else {
            h[h.len() - 2]
        };
        assert(same_state(before, h.last()) <==> state_view(before) == state_view(h.last()));
        let t = transitions(start, h.drop_last());
        assert(t.push(h.last()).map_values(|s: RelayState| state_view(s)) =~= t.map_values(
            |s: RelayState| state_view(s),
        ).push(state_view(h.last())));
    } else {
        assert(transitions(start, h).map_values(|s: RelayState| state_view(s)) =~= Seq::<StateView>::empty());
    }
}

/// What a relay run did with a sequence of attempts.
pub struct RunReport {
    /// Every state the window was told of, in order.
    pub told: Vec<RelayState>,
    /// How many attempts the run made before it stopped, or all of them.
    pub attempts_made: usize,
    /// Whether the run stopped for good.
    pub stopped: bool,
    /// The state the run was left in.
    pub last: RelayState,
}

/// The decisions of a whole relay run over these attempts, dialling again
/// after each one the schedule allows and stopping at the first that says
/// waiting cannot help. The window hears of exactly the real changes of state
/// (the first being that the run is connecting); the run stops only on an
/// ending that says never to retry, and then it needs the owner's attention
/// with that ending's reason; otherwise every attempt is made.
pub fn run_attempts(attempts: &[Attempt]) -> (r: RunReport)
    ensures
        r.told@.map_values(|s: RelayState| state_view(s)) == view_transitions(
            StateView::Off,
            run_history(attempts@, r.attempts_made as int),
        ),
        state_view(r.last) == run_history(attempts@, r.attempts_made as int).last(),
        r.told@.len() > 0 && r.told@[0] == RelayState::Connecting,
        r.attempts_made <= attempts.len(),
        r.stopped ==> r.attempts_made > 0 && spec_retry(attempts@[r.attempts_made - 1].ended) == Retry::Never
            && (r.last matches RelayState::NeedsAttention(m) && m@ == spec_describe(
            attempts@[r.attempts_made - 1].ended,
        )),
        !r.stopped ==> r.attempts_made == attempts.len(),
        forall|i: int| 0 <= i < r.attempts_made - 1 ==> spec_retry(#[trigger] attempts@[i].ended) != Retry::Never,
        !r.stopped ==> forall|i: int| 0 <= i < attempts.len() ==> spec_retry(#[trigger] attempts@[i].ended) != Retry::Never,
{
    let mut run = RelayLoop::new();
    let mut told: Vec<RelayState> = Vec::new();
    match run.start() {
        Some(s) => told.push(s),
        None => {},
    }
    proof {
        assert(told@ =~= run.told());
        assert(run.history() =~= seq![RelayState::Connecting]);
        assert(run.history().map_values(|s: RelayState| state_view(s)) =~= run_history(attempts@, 0));
    }
    let mut i: usize = 0;
    let mut stopped = false;
    while i < attempts.len() && !stopped
        invariant
            run.wf(),
            i <= attempts.len(),
            told@ == run.told(),
            run.history().len() > 0,
            run.history()[0] == RelayState::Connecting,
            run.state() == run.history().last(),
            run.history().map_values(|s: RelayState| state_view(s)) == run_history(attempts@, i as int),
            stopped ==> i > 0 && spec_retry(attempts@[i - 1].ended) == Retry::Never
                && (run.state() matches RelayState::NeedsAttention(m) && m@ == spec_describe(
                attempts@[i - 1].ended,
            )),
            forall|k: int| 0 <= k < i - 1 ==> spec_retry(#[trigger] attempts@[k].ended) != Retry::Never,
            !stopped ==> forall|k: int| 0 <= k < i ==> spec_retry(#[trigger] attempts@[k].ended) != Retry::Never,
        decreases attempts.len() - i,
    {
        let a = &attempts[i];
        let ghost h0 = run.history();
        if a.connected {
            match run.connected() {
                Some(s) => told.push(s),
                None => {},
            }
        }
        let (next, said) = run.ended(&a.ended);
        match said {
            Some(s) => told.push(s),
            None => {},
        }
        proof {
            assert(told@ =~= run.told());
            let hv = run.history().map_values(|s: RelayState| state_view(s));
            assert(state_view(run.state()) == end_view(attempts@[i as int].ended));
            assert(hv =~= h0.map_values(|s: RelayState| state_view(s)) + attempt_states(attempts@[i as int]));
        }
        match next {
            Next::Stop => {
                stopped = true;
            },
            _ => {},
        }
        i = i + 1;
    }
    proof {
        run.lemma_window_hears_each_change();
        lemma_transitions_view(RelayState::Off, run.history());
        assert(transitions(RelayState::Off, run.history()).len() > 0) by {
            lemma_first_transition(run.history());
        }
        lemma_first_transition(run.history());
    }
    let last = run.status();
    RunReport { told, attempts_made: i, stopped, last }
}

/// A run whose first recorded state is not `Off` tells the window of it first.
proof fn lemma_first_transition(history: Seq<RelayState>)
    requires
        history.len() > 0,
        history[0] == RelayState::Connecting,
    ensures
        transitions(RelayState::Off, history).len() > 0,
        transitions(RelayState::Off, history)[0] == RelayState::Connecting,
    decreases history.len(),
{
    let t = transitions(RelayState::Off, history.drop_last());
    if history.len() > 1 {
        assert(history.drop_last()[0] == history[0]);
        lemma_first_transition(history.drop_last());
        assert(t.len() > 0 && t[0] == RelayState::Connecting);
        assert(transitions(RelayState::Off, history) == t || transitions(RelayState::Off, history) == t.push(
            history.last(),
        ));
    } else {
        assert(t.len() == 0);
        assert(!same_state(RelayState::Off, history.last()));
        assert(transitions(RelayState::Off, history) == t.push(history.last()));
    }
}

/// How often to say "still here", and how long silence lasts before the edge
/// is presumed gone, in milliseconds. Both ends agree these numbers; they are
/// the protocol's, not this daemon's.
#[derive(Debug, Clone, Copy)]
pub struct Heartbeat {
    pub interval_ms: u64,
    pub timeout_ms: u64,
}

/// A frame on the control stream.
#[derive(Debug, Clone)]
pub enum ControlFrame {
    Ping { seq: u32 },
    Pong { seq: u32 },
    Goodbye { reason: CloseReason },
    /// Anything a newer edge invents. Survivable on purpose.
    Unknown,
}

/// What the control stream does next.
#[derive(Debug)]
pub enum ControlStep {
    /// Nothing to send; carry on.
    Carry,
    /// Send this frame, then carry on.
    Send(ControlFrame),
    /// The connection is over, for this reason.
    End(Ended),
}

/// The control stream's state: the bytes not yet decoded, the next ping's
/// sequence number, and when the edge was last heard from.
pub struct Control {
    buffered: Vec<u8>,
    seq: u32,
    last_heard: u64,
    beat: Heartbeat,
    max_frame: usize,
}

impl Control {
    pub closed spec fn pending(&self) -> Seq<u8> {
        self.buffered@
    }

    pub closed spec fn next_seq(&self) -> u32 {
        self.seq
    }

    pub closed spec fn heard_at(&self) -> u64 {
        self.last_heard
    }

    pub closed spec fn timeout(&self) -> u64 {
        self.beat.timeout_ms
    }

    pub closed spec fn frame_limit(&self) -> usize {
        self.max_frame
    }

    /// A control stream that has just opened at `now`. Whatever arrived with
    /// the opener comes first: the edge routinely sends its first ping in the
    /// same read.
    pub fn new(arrived_with_opener: Vec<u8>, beat: Heartbeat, max_frame: usize, now: u64) -> (c: Self)
        ensures
            c.pending() == arrived_with_opener@,
            c.next_seq() == 1,
            c.heard_at() == now,
            c.timeout() == beat.timeout_ms,
            c.frame_limit() == max_frame,
    {
        Control { buffered: arrived_with_opener, seq: 1, last_heard: now, beat, max_frame }
    }

    /// The bytes not yet decoded.
    pub fn buffered(&self) -> (b: &[u8])
        ensures
            b@ == self.pending(),
    {
        self.buffered.as_slice()
    }

    /// A frame was decoded from the first `consumed` buffered bytes at `now`.
    /// Any frame at all proves the edge is there; a ping is answered, a
    /// goodbye ends the connection, anything else is survivable.
    pub fn on_frame(&mut self, frame: ControlFrame, consumed: usize, now: u64) -> (step: ControlStep)
        requires
            consumed <= old(self).pending().len(),
        ensures
            final(self).pending() == old(self).pending().skip(consumed as int),
            final(self).heard_at() == now,
            final(self).next_seq() == old(self).next_seq(),
            final(self).timeout() == old(self).timeout(),
            final(self).frame_limit() == old(self).frame_limit(),
            (match frame {
                ControlFrame::Ping { seq } => step matches ControlStep::Send(ControlFrame::Pong { seq: s }) && s == seq,
                ControlFrame::Goodbye { reason } => step matches ControlStep::End(Ended::Refused(r)) && r == reason,
                _ => step is Carry,
            }),
    {
        let mut rest: Vec<u8> = Vec::new();
        let mut i = consumed;
        while i < self.buffered.len()
            invariant
                consumed <= i <= self.buffered.len(),
                rest@ == self.buffered@.subrange(consumed as int, i as int),
            decreases self.buffered.len() - i,
        {
            rest.push(self.buffered[i]);
            i = i + 1;
        }
        assert(rest@ =~= old(self).pending().skip(consumed as int));
        self.buffered = rest;
        self.last_heard = now;
        match frame {
            ControlFrame::Ping { seq } => ControlStep::Send(ControlFrame::Pong { seq }),
            ControlFrame::Goodbye { reason } => ControlStep::End(Ended::Refused(reason)),
            _ => ControlStep::Carry,
        }
    }

    /// The buffered bytes are not a frame and cannot become one.
    pub fn undecodable(detail: &str) -> (e: Ended)
        ensures
            e matches Ended::Protocol(m) && m@ == "a control frame did not parse: "@ + detail@,
    {
        let mut out: Vec<char> = Vec::new();
        append_str(&mut out, "a control frame did not parse: ");
        append_str(&mut out, detail);
        Ended::Protocol(string_from(&out))
    }

    /// No whole frame is buffered: past the protocol's largest frame, it never
    /// will be.
    pub fn oversized(&self) -> (e: Option<Ended>)
        ensures
            self.pending().len() > self.frame_limit() ==> (e matches Some(Ended::Protocol(m))
                && m@ == "a control frame never ended"@),
            self.pending().len() <= self.frame_limit() ==> e is None,
    {
        if self.buffered.len() > self.max_frame {
            Some(Ended::Protocol("a control frame never ended".to_owned()))
        } else {
            None
        }
    }

    /// A read finished. Nothing read means the edge closed the stream.
    pub fn on_read(&mut self, bytes: &[u8]) -> (e: Option<Ended>)
        ensures
            bytes.len() == 0 ==> (e matches Some(Ended::Transport(m)) && m@
                == "the relay closed the control stream"@),
            bytes.len() == 0 ==> final(self).pending() == old(self).pending(),
            bytes.len() > 0 ==> e is None && final(self).pending() == old(self).pending()
                + bytes@,
            final(self).heard_at() == old(self).heard_at(),
            final(self).next_seq() == old(self).next_seq(),
            final(self).timeout() == old(self).timeout(),
            final(self).frame_limit() == old(self).frame_limit(),
    {
        if bytes.len() == 0 {
            return Some(Ended::Transport("the relay closed the control stream".to_owned()));
        }
        let mut i: usize = 0;
        let ghost before = self.buffered@;
        while i < bytes.len()
            invariant
                i <= bytes.len(),
                self.buffered@ == before + bytes@.take(i as int),
                self.seq == old(self).seq,
                self.last_heard == old(self).last_heard,
                self.beat == old(self).beat,
                self.max_frame == old(self).max_frame,
            decreases bytes.len() - i,
        {
            self.buffered.push(bytes[i]);
            i = i + 1;
            assert(self.buffered@ =~= before + bytes@.take(i as int));
        }
        assert(bytes@.take(i as int) =~= bytes@);
        None
    }

    /// The heartbeat ticked at `now`. Silence past the timeout means the
    /// tunnel is dead; otherwise this end holds up its half and pings.
    pub fn on_tick(&mut self, now: u64) -> (step: ControlStep)
        ensures
            final(self).pending() == old(self).pending(),
            final(self).heard_at() == old(self).heard_at(),
            final(self).timeout() == old(self).timeout(),
            final(self).frame_limit() == old(self).frame_limit(),
            now > old(self).heard_at() && now - old(self).heard_at() > old(self).timeout() ==> {
                &&& step matches ControlStep::End(Ended::Transport(m)) && m@
                    == "the relay stopped answering; presuming the tunnel is dead"@
                &&& final(self).next_seq() == old(self).next_seq()
            },
            !(now > old(self).heard_at() && now - old(self).heard_at() > old(self).timeout()) ==> {
                &&& step matches ControlStep::Send(ControlFrame::Ping { seq }) && seq == old(
                    self,
                ).next_seq()
                &&& final(self).next_seq() == if old(self).next_seq() == u32::MAX {
                    0
                } else {
                    (old(self).next_seq() + 1) as u32
                }
            },
    {
        if now > self.last_heard && now - self.last_heard > self.beat.timeout_ms {
            return ControlStep::End(
                Ended::Transport(
                    "the relay stopped answering; presuming the tunnel is dead".to_owned(),
                ),
            );
        }
        let seq = self.seq;
        self.seq = if self.seq == u32::MAX {
            0
        } else {
            self.seq + 1
        };
        ControlStep::Send(ControlFrame::Ping { seq })
    }
}

/// A message from the websocket under the tunnel.
#[derive(Debug)]
pub enum Incoming {
    Binary(Vec<u8>),
    Text,
    Ping,
    Pong,
    Frame,
    Close,
    /// The websocket ended without a close message.
    End,
    /// The websocket failed.
    Failed(String),
}

/// What a read of the byte stream produces.
#[derive(Debug)]
pub enum ReadResult {
    /// These bytes. Empty means end of stream, and nothing else does.
    Ready(Vec<u8>),
    /// Nothing buffered: the next websocket message is needed.
    NeedMessage,
    /// The read failed.
    Failed(String),
}

/// A websocket's messages, read as a stream of bytes: the part of the last
/// message that did not fit the caller's buffer is kept for the next read,
/// and only the end of the websocket ever reads as the end of the stream.
pub struct ReadBuffer {
    unread: Vec<u8>,
    pos: usize,
    finished: bool,
    received: Ghost<Seq<u8>>,
    delivered: Ghost<Seq<u8>>,
}

impl ReadBuffer {
    /// The bytes received and not yet handed out, in order.
    pub closed spec fn pending(&self) -> Seq<u8> {
        self.unread@.skip(self.pos as int)
    }

    /// Whether the websocket has ended.
    pub closed spec fn is_finished(&self) -> bool {
        self.finished
    }

    /// Every byte the websocket has brought so far, in order.
    pub closed spec fn received(&self) -> Seq<u8> {
        self.received@
    }

    /// Every byte handed to a reader so far, in order.
    pub closed spec fn delivered(&self) -> Seq<u8> {
        self.delivered@
    }

    pub closed spec fn wf(&self) -> bool {
        &&& self.pos <= self.unread.len()
        &&& self.delivered@ + self.unread@.skip(self.pos as int) == self.received@
    }

    /// Once the stream reads as ended - nothing waiting - every byte that
    /// arrived has been handed out, in order.
    pub proof fn lemma_drained_means_all_delivered(&self)
        requires
            self.wf(),
            self.pending().len() == 0,
        ensures
            self.delivered() == self.received(),
    {
        assert(self.delivered@ + self.unread@.skip(self.pos as int) =~= self.delivered@);
    }

    /// Nothing is lost and nothing is reordered: what has been handed out,
    /// followed by what is still waiting, is exactly what arrived.
    pub proof fn lemma_nothing_lost(&self)
        requires
            self.wf(),
        ensures
            self.delivered() + self.pending() == self.received(),
    {
    }

    pub fn new() -> (b: Self)
        ensures
            b.wf(),
            b.pending() == Seq::<u8>::empty(),
            !b.is_finished(),
            b.received() == Seq::<u8>::empty(),
            b.delivered() == Seq::<u8>::empty(),
    {
        let b = ReadBuffer {
            unread: Vec::new(),
            pos: 0,
            finished: false,
            received: Ghost(Seq::empty()),
            delivered: Ghost(Seq::empty()),
        };
        assert(b.unread@.skip(0) =~= Seq::<u8>::empty());
        b
    }

    /// Take what fits in `want` bytes, keep the rest.
    pub fn drain_into(&mut self, want: usize) -> (taken: Vec<u8>)
        requires
            old(self).wf(),
        ensures
            final(self).wf(),
            taken.len() == if want < old(self).pending().len() {
                want as nat
            } else {
                old(self).pending().len()
            },
            taken@ + final(self).pending() == old(self).pending(),
            final(self).is_finished() == old(self).is_finished(),
            final(self).received() == old(self).received(),
            final(self).delivered() == old(self).delivered() + taken@,
    {
        let avail = self.unread.len() - self.pos;
        let n = if want < avail {
            want
        } else {
            avail
        };
        let mut out: Vec<u8> = Vec::new();
        let mut i: usize = 0;
        while i < n
            invariant
                i <= n <= self.unread.len() - self.pos,
                self.pos <= self.unread.len(),
                out@ == self.unread@.subrange(self.pos as int, self.pos + i),
            decreases n - i,
        {
            out.push(self.unread[self.pos + i]);
            i = i + 1;
        }
        let ghost before = self.pending();
        self.pos = self.pos + n;
        assert(out@ + self.pending() =~= before);
        proof {
            self.delivered@ = self.delivered@ + out@;
            assert(self.delivered@ + self.pending() =~= old(self).delivered@ + before);
        }
        out
    }

    /// Start a read of up to `want` bytes: a zero-length read is a no-op,
    /// anything left over from last time comes first, and a finished stream
    /// stays finished.
    pub fn begin_read(&mut self, want: usize) -> (r: ReadResult)
        requires
            old(self).wf(),
        ensures
            final(self).wf(),
            final(self).is_finished() == old(self).is_finished(),
            want == 0 ==> (r matches ReadResult::Ready(b) && b.len() == 0) && final(self).pending()
                == old(self).pending(),
            want > 0 && old(self).pending().len() > 0 ==> (r matches ReadResult::Ready(b) && b.len()
                > 0 && b@ + final(self).pending() == old(self).pending()),
            want > 0 && old(self).pending().len() == 0 && old(self).is_finished() ==> (r matches ReadResult::Ready(b) && b.len() == 0),
            want > 0 && old(self).pending().len() == 0 && !old(self).is_finished() ==> r is NeedMessage,
            old(self).pending().len() == 0 ==> final(self).pending() == old(self).pending(),
            r matches ReadResult::Ready(b) ==> b.len() <= want,
            final(self).received() == old(self).received(),
            final(self).delivered() == old(self).delivered() + match r {
                ReadResult::Ready(b) => b@,
                _ => Seq::<u8>::empty(),
            },
    {
        if want == 0 {
            let r = ReadResult::Ready(Vec::new());
            assert(self.delivered() =~= old(self).delivered() + Seq::<u8>::empty());
            return r;
        }
        let taken = self.drain_into(want);
        if taken.len() > 0 {
            return ReadResult::Ready(taken);
        }
        assert(self.delivered() =~= old(self).delivered() + Seq::<u8>::empty());
        if self.finished {
            return ReadResult::Ready(Vec::new());
        }
        ReadResult::NeedMessage
    }

    /// The next websocket message arrived while a read of `want` bytes was
    /// waiting with nothing buffered.
    pub fn on_message(&mut self, message: Incoming, want: usize) -> (r: ReadResult)
        requires
            old(self).wf(),
            want > 0,
            old(self).pending().len() == 0,
        ensures
            final(self).wf(),
            (match message {
                Incoming::Binary(bytes) => if bytes.len() == 0 {
                    r is NeedMessage && final(self).pending().len() == 0 && final(self).is_finished()
                        == old(self).is_finished()
                } else {
                    &&& r matches ReadResult::Ready(b) && b.len() > 0 && b.len() <= want && b@
                        + final(self).pending() == bytes@
                    &&& final(self).is_finished() == old(self).is_finished()
                },
                Incoming::Close | Incoming::End => (r matches ReadResult::Ready(b) && b.len() == 0)
                    && final(self).is_finished() && final(self).pending().len() == 0,
                Incoming::Ping | Incoming::Pong | Incoming::Frame => r is NeedMessage
                    && final(self).pending().len() == 0 && final(self).is_finished() == old(
                    self,
                ).is_finished(),
                Incoming::Text => (r matches ReadResult::Failed(m) && m@
                    == "a text message arrived on the tunnel"@) && final(self).pending().len() == 0,
                Incoming::Failed(e) => (r matches ReadResult::Failed(m) && m == e)
                    && final(self).pending().len() == 0,
            }),
            final(self).received() == old(self).received() + match message {
                Incoming::Binary(bytes) => bytes@,
                _ => Seq::<u8>::empty(),
            },
            final(self).delivered() == old(self).delivered() + match r {
                ReadResult::Ready(b) => b@,
                _ => Seq::<u8>::empty(),
            },
    {
        match message {
            Incoming::Binary(bytes) => {
                if bytes.len() == 0 {
                    assert(self.received() =~= old(self).received() + bytes@);
                    assert(self.delivered() =~= old(self).delivered() + Seq::<u8>::empty());
                    return ReadResult::NeedMessage;
                }
                let ghost payload = bytes@;
                self.unread = bytes;
                self.pos = 0;
                proof {
                    self.received@ = self.received@ + payload;
                    assert(self.unread@.skip(0) =~= self.unread@);
                    assert(old(self).unread@.skip(old(self).pos as int).len() == 0);
                    assert(old(self).delivered@ =~= old(self).received@);
                }
                let taken = self.drain_into(want);
                ReadResult::Ready(taken)
            },
            Incoming::Close | Incoming::End => {
                self.finished = true;
                let r = ReadResult::Ready(Vec::new());
                assert(self.received() =~= old(self).received() + Seq::<u8>::empty());
                assert(self.delivered() =~= old(self).delivered() + Seq::<u8>::empty());
                r
            },
            Incoming::Ping | Incoming::Pong | Incoming::Frame => {
                assert(self.received() =~= old(self).received() + Seq::<u8>::empty());
                assert(self.delivered() =~= old(self).delivered() + Seq::<u8>::empty());
                ReadResult::NeedMessage
            },
            Incoming::Text => {
                assert(self.received() =~= old(self).received() + Seq::<u8>::empty());
                assert(self.delivered() =~= old(self).delivered() + Seq::<u8>::empty());
                ReadResult::Failed("a text message arrived on the tunnel".to_owned())
            },
            Incoming::Failed(e) => {
                assert(self.received() =~= old(self).received() + Seq::<u8>::empty());
                assert(self.delivered() =~= old(self).delivered() + Seq::<u8>::empty());
                ReadResult::Failed(e)
            },
        }
    }
}

/// The bytes a sequence of reads handed out, one read after another.
pub open spec fn flatten(reads: Seq<Vec<u8>>) -> Seq<u8>
    decreases reads.len(),
{
    if reads.len() == 0 {
        Seq::empty()
    } else {
        flatten(reads.drop_last()) + reads.last()@
    }
}

/// The bytes a sequence of websocket messages carried, one after another.
pub open spec fn payloads(messages: Seq<Incoming>) -> Seq<u8>
    decreases messages.len(),
{
    if messages.len() == 0 {
        Seq::empty()
    } else {
        payloads(messages.drop_last()) + match messages.last() {
            Incoming::Binary(b) => b@,
            _ => Seq::empty(),
        }
    }
}

/// Whether a message ends the reading of a stream: a close or the end of the
/// websocket ends it cleanly; a text message or a failure ends it with an
/// error.
pub open spec fn stops(m: Incoming) -> bool {
    match m {
        Incoming::Close | Incoming::End | Incoming::Text | Incoming::Failed(_) => true,
        _ => false,
    }
}

/// Whether a message ends the stream cleanly.
pub open spec fn closes(m: Incoming) -> bool {
    match m {
        Incoming::Close | Incoming::End => true,
        _ => false,
    }
}

/// What reading a whole stream came to.
pub struct StreamReport {
    /// Every read that handed something out, in order, then the empty read
    /// that says the stream ended, when it did.
    pub reads: Vec<Vec<u8>>,
    /// How many messages were taken from the websocket.
    pub used: usize,
    /// Whether the stream ended cleanly: a close, or the end of the websocket.
    pub ended: bool,
    /// The buffer as the reading left it, for any read that follows.
    pub buffer: ReadBuffer,
}

/// Read a whole stream in reads of up to `want` bytes from a websocket that
/// brings these messages, until a message ends it or the messages run out.
///
/// Messages are taken up to and including the first that ends the stream, or
/// all of them when none does. Every read hands out bytes, except a last
/// empty one that says the stream ended cleanly; the reads, one after
/// another, are exactly the bytes the messages taken carried, in order, with
/// none lost. After a clean end the buffer stays ended: every later read is
/// empty.
pub fn read_stream(messages: Vec<Incoming>, want: usize) -> (r: StreamReport)
    requires
        want > 0,
    ensures
        r.used <= messages.len(),
        forall|k: int| 0 <= k < r.used - 1 ==> !stops(#[trigger] messages@[k]),
        r.used < messages.len() ==> r.used > 0 && stops(messages@[r.used - 1]),
        r.used == messages.len() && r.used > 0 && !stops(messages@[r.used - 1]) ==> !r.ended,
        r.ended <==> (r.used > 0 && closes(messages@[r.used - 1])),
        forall|k: int| 0 <= k < r.reads@.len() - 1 ==> (#[trigger] r.reads@[k]).len() > 0,
        forall|k: int| 0 <= k < r.reads@.len() ==> (#[trigger] r.reads@[k]).len() <= want,
        r.ended ==> r.reads@.len() > 0 && r.reads@.last().len() == 0,
        !r.ended ==> forall|k: int| 0 <= k < r.reads@.len() ==> (#[trigger] r.reads@[k]).len() > 0,
        flatten(r.reads@) == payloads(messages@.take(r.used as int)),
        r.buffer.wf(),
        r.buffer.pending().len() == 0,
        r.ended ==> r.buffer.is_finished(),
{
    let ghost all = messages@;
    let count = messages.len();
    let mut rest = messages;
    let mut buf = ReadBuffer::new();
    let mut reads: Vec<Vec<u8>> = Vec::new();
    let mut used: usize = 0;
    let mut ended = false;
    let mut stopped = false;
    proof {
        assert(all.take(0) =~= Seq::<Incoming>::empty());
        assert(all.skip(0) =~= all);
    }
    loop
        invariant_except_break
            !ended,
            !stopped,
            !buf.is_finished(),
            buf.pending().len() == 0 || (reads@.len() > 0),
            forall|k: int| 0 <= k < used ==> !stops(#[trigger] all[k]),
            forall|k: int| 0 <= k < reads@.len() ==> (#[trigger] reads@[k]).len() > 0,
        invariant
            want > 0,
            all.len() == count,
            buf.wf(),
            used <= all.len(),
            rest@ == all.skip(used as int),
            buf.delivered() == flatten(reads@),
            buf.received() == payloads(all.take(used as int)),
            forall|k: int| 0 <= k < reads@.len() ==> (#[trigger] reads@[k]).len() <= want,
        ensures
            used <= all.len(),
            forall|k: int| 0 <= k < used - 1 ==> !stops(#[trigger] all[k]),
            used < all.len() ==> used > 0 && stops(all[used - 1]),
            used == all.len() && used > 0 && !stops(all[used - 1]) ==> !ended,
            ended <==> (used > 0 && closes(all[used - 1])),
            forall|k: int| 0 <= k < reads@.len() - 1 ==> (#[trigger] reads@[k]).len() > 0,
            forall|k: int| 0 <= k < reads@.len() ==> (#[trigger] reads@[k]).len() <= want,
            ended ==> reads@.len() > 0 && reads@.last().len() == 0,
            !ended ==> forall|k: int| 0 <= k < reads@.len() ==> (#[trigger] reads@[k]).len() > 0,
            buf.wf(),
            buf.pending().len() == 0,
            ended ==> buf.is_finished(),
            buf.delivered() == flatten(reads@),
            buf.received() == payloads(all.take(used as int)),
        decreases rest@.len(), buf.pending().len(),
    {
        let ghost before = reads@;
        match buf.begin_read(want) {
            ReadResult::Ready(b) => {
                // Not finished, so a ready read is never the empty one.
                reads.push(b);
                proof {
                    assert(reads@.drop_last() =~= before);
                }
            },
            ReadResult::NeedMessage => {
                if rest.len() == 0 {
                    break;
                }
                let message = rest.remove(0);
                let ghost m = message;
                proof {
                    assert(message == all[used as int]);
                    assert(all.take(used + 1).drop_last() =~= all.take(used as int));
                    assert(rest@ =~= all.skip(used + 1));
                }
                used = used + 1;
                match buf.on_message(message, want) {
                    ReadResult::Ready(b) => {
                        let empty = b.len() == 0;
                        reads.push(b);
                        proof {
                            assert(reads@.drop_last() =~= before);
                        }
                        if empty {
                            ended = true;
                            break;
                        }
                    },
                    ReadResult::NeedMessage => {},
                    ReadResult::Failed(_) => {
                        stopped = true;
                        break;
                    },
                }
            },
            ReadResult::Failed(_) => {
                stopped = true;
                break;
            },
        }
    }
    StreamReport { reads, used, ended, buffer: buf }
}

} // verus!
