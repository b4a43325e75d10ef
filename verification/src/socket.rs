//! One client on the daemon's socket: newline-delimited requests, answered in
//! order, and events pushed only to a client that asked for them.
//!
//! Reading lines, parsing them and writing answers are the caller's; this is
//! what each line amounts to.

use vstd::prelude::*;

use crate::decimal::{digits, format_u64};
use crate::text::{append, append_str, chars_of, same_text, string_from, trim, trimmed};

verus! {

/// The method that turns a connection into a subscriber.
pub const SUBSCRIBE: &'static str = "event.subscribe";

/// What to do with one line from a client.
#[derive(Debug, Clone, Copy, PartialEq, Eq, Structural)]
pub enum LineStep {
    /// A blank line: nothing to answer.
    Skip,
    /// Parse it as a request.
    Parse,
}

/// What to do with one parsed request.
#[derive(Debug, Clone, Copy, PartialEq, Eq, Structural)]
pub struct RequestStep {
    /// Start forwarding events on this connection, before answering.
    pub subscribe_now: bool,
    /// Write the answer back. A notification (no id) expects none.
    pub reply: bool,
}

/// A client connection's state: whether it has subscribed to events.
pub struct ClientSession {
    subscribed: bool,
}

impl ClientSession {
    pub closed spec fn is_subscribed(&self) -> bool {
        self.subscribed
    }

    pub fn new() -> (s: Self)
        ensures
            !s.is_subscribed(),
    {
        ClientSession { subscribed: false }
    }

    /// A line arrived.
    pub fn on_line(&self, line: &str) -> (step: LineStep)
        ensures
            trim(line@).len() == 0 ==> step == LineStep::Skip,
            trim(line@).len() > 0 ==> step == LineStep::Parse,
    {
        if trimmed(&chars_of(line)).len() == 0 {
            LineStep::Skip
        } else {
            LineStep::Parse
        }
    }

    /// A request for `method` arrived, with an id or without. Subscribing is
    /// opt-in and happens once; only a request with an id is answered.
    pub fn on_request(&mut self, method: &str, has_id: bool) -> (step: RequestStep)
        ensures
            step.subscribe_now == (method@ == SUBSCRIBE@ && !old(self).is_subscribed()),
            step.reply == has_id,
            final(self).is_subscribed() == (old(self).is_subscribed() || method@ == SUBSCRIBE@),
    {
        let subscribe_now = same_text(method, SUBSCRIBE) && !self.subscribed;
        if subscribe_now {
            self.subscribed = true;
        }
        RequestStep { subscribe_now, reply: has_id }
    }
}

/// What a subscriber that fell behind is told: how many events it missed, so
/// it resynchronises rather than trusting a stale picture.
pub fn lagged_message(missed: u64) -> (m: String)
    ensures
        m@ == digits(missed as nat) + " events were missed; the window may be out of date"@,
{
    let mut out = format_u64(missed);
    append_str(&mut out, " events were missed; the window may be out of date");
    string_from(&out)
}

/// What an unparseable line is answered with.
pub fn parse_error_message(detail: &str) -> (m: String)
    ensures
        m@ == "could not parse the request: "@ + detail@,
{
    let mut out: Vec<char> = Vec::new();
    append_str(&mut out, "could not parse the request: ");
    append_str(&mut out, detail);
    string_from(&out)
}

/// Why the socket could not be opened.
#[derive(Debug)]
pub enum SocketError {
    /// A live daemon already answers on this path.
    AlreadyRunning { path: String },
    /// Preparing the path failed: where, and what the system said.
    Io { path: String, source: String },
}

impl SocketError {
    pub open spec fn spec_message(&self) -> Seq<char> {
        match *self {
            SocketError::AlreadyRunning { path } => "another daemon already owns "@ + path@,
            SocketError::Io { path, source } => "could not prepare "@ + path@ + ": "@ + source@,
        }
    }

    /// What the log is told.
    pub fn message(&self) -> (m: String)
        ensures
            m@ == self.spec_message(),
    {
        match self {
            SocketError::AlreadyRunning { path } => {
                let mut out = chars_of("another daemon already owns ");
                append_str(&mut out, path.as_str());
                string_from(&out)
            },
            SocketError::Io { path, source } => {
                let mut out = chars_of("could not prepare ");
                append_str(&mut out, path.as_str());
                append_str(&mut out, ": ");
                append_str(&mut out, source.as_str());
                string_from(&out)
            },
        }
    }
}

/// What opening the socket at a path comes to.
#[derive(Debug, Clone, Copy, PartialEq, Eq, Structural)]
pub enum BindStep {
    /// Nothing is there: bind.
    Bind,
    /// A socket file is there but nobody answers on it, left by a crash:
    /// remove it, then bind.
    ReplaceStale,
    /// Another daemon answers on it: do not steal it.
    Refuse,
}

/// Whether to bind, replace a stale socket, or refuse, given whether something
/// is at the path and whether it answers a connection.
pub fn bind_step(exists: bool, answers: bool) -> (s: BindStep)
    ensures
        !exists ==> s == BindStep::Bind,
        exists && answers ==> s == BindStep::Refuse,
        exists && !answers ==> s == BindStep::ReplaceStale,
{
    if !exists {
        BindStep::Bind
    } else if answers {
        BindStep::Refuse
    } else {
        BindStep::ReplaceStale
    }
}

} // verus!
