//! Linking this install to an account, and what that switches on.
//!
//! The ceremony happens in a browser; what comes back down is only the public
//! outcome: a handle, a domain, and where to dial. This module decides what
//! that outcome is from whatever sources there are (the environment outranks
//! the stored link, which outranks nothing), and runs the link's state
//! machine: unlinked, waiting on a checkout, linked.

use vstd::prelude::*;

use crate::library::plain_handle;
use crate::relay::Config;
use crate::text::{
    append_str, chars_of, has_char, lower_seq, lowercase, strip_end, string_from, trim, trimmed,
    CharClass,
};

verus! {

/// The setting the linked handle is kept under.
pub const HANDLE_SETTING: &'static str = "relay.handle";

/// The setting the linked domain is kept under.
pub const DOMAIN_SETTING: &'static str = "relay.domain";

/// The setting the relay's address is kept under.
pub const URL_SETTING: &'static str = "relay.url";

/// The domain apps hang off when nothing says otherwise.
pub const DEFAULT_DOMAIN: &'static str = "kitchentable.cloud";

/// Where the upgrade page is.
pub const DEFAULT_SITE: &'static str = "https://api.kitchentable.cloud";

/// The accounts API.
pub const DEFAULT_API: &'static str = "https://api.kitchentable.cloud";

/// Where a linked install dials when the cloud did not say.
pub const DEFAULT_RELAY_URL: &'static str = "wss://tunnel.kitchentable.cloud:8443";

/// How often to ask whether the checkout has landed, in milliseconds.
pub const POLL_EVERY_MS: u64 = 3000;

/// How long to keep asking before deciding nobody is coming back, in
/// milliseconds: half an hour.
pub const GIVE_UP_AFTER_MS: u64 = 1_800_000;

/// A handle fit to build hostnames from: trimmed, lower case, not empty, and
/// with no hyphen (hostnames split at the last one) or dot (it would change
/// how many labels the name has).
pub open spec fn spec_valid_handle(raw: Seq<char>) -> Option<Seq<char>> {
    let h = lower_seq(trim(raw));
    if h.len() == 0 || has_char(h, '-') || has_char(h, '.') {
        None
    } else {
        Some(h)
    }
}

/// A handle fit to build hostnames from, or nothing.
pub fn valid_handle(raw: &str) -> (r: Option<String>)
    ensures
        (match r {
            Some(h) => spec_valid_handle(raw@) == Some(h@),
            None => spec_valid_handle(raw@) is None,
        }),
{
    let h = lowercase(&trimmed(&chars_of(raw)));
    if h.len() == 0 || crate::text::contains_char(&h, '-') || crate::text::contains_char(&h, '.') {
        None
    } else {
        Some(string_from(&h))
    }
}

/// A handle that passed [`valid_handle`] is one the library can split
/// hostnames on.
pub proof fn lemma_valid_handle_is_plain(raw: Seq<char>)
    requires
        spec_valid_handle(raw) is Some,
    ensures
        plain_handle(spec_valid_handle(raw)->Some_0),
{
    let t = trim(raw);
    let h = lower_seq(t);
    assert forall|i: int| 0 <= i < h.len() implies crate::text::lower(#[trigger] h[i]) == h[i] by {}
    assert(lower_seq(h) =~= h);
}

/// A stored setting, treating an empty string as absent: the store has no
/// delete, so unlinking writes `""`.
pub open spec fn spec_stored(value: Option<Seq<char>>) -> Option<Seq<char>> {
    match value {
        Some(v) => if v.len() == 0 {
            None
        } else {
            Some(v)
        },
        None => None,
    }
}

pub fn stored(value: Option<String>) -> (r: Option<String>)
    ensures
        (match r {
            Some(v) => spec_stored(match value {
                Some(x) => Some(x@),
                None => None,
            }) == Some(v@),
            None => spec_stored(match value {
                Some(x) => Some(x@),
                None => None,
            }) is None,
        }),
{
    match value {
        Some(v) => if chars_of(v.as_str()).len() == 0 {
            None
        } else {
            Some(v)
        },
        None => None,
    }
}

/// A cloud address from the environment: trimmed, without trailing slashes,
/// and the default when that leaves nothing.
pub open spec fn spec_cloud_address(value: Option<Seq<char>>, default: Seq<char>) -> Seq<char> {
    match value {
        Some(v) => {
            let a = strip_end(trim(v), CharClass::Exactly('/'));
            if a.len() == 0 {
                default
            } else {
                a
            }
        },
        None => default,
    }
}

fn cloud_address(value: Option<&str>, default: &str) -> (r: String)
    ensures
        r@ == spec_cloud_address(match value {
            Some(v) => Some(v@),
            None => None,
        }, default@),
{
    match value {
        Some(v) => {
            let t = trimmed(&chars_of(v));
            let a = crate::mdns::strip_end_chars(&t, '/');
            if a.len() == 0 {
                default.to_owned()
            } else {
                string_from(&a)
            }
        },
        None => default.to_owned(),
    }
}

/// The cloud's two addresses.
#[derive(Debug, Clone)]
pub struct Cloud {
    /// The website carrying the upgrade page.
    pub site: String,
    /// The accounts API.
    pub api: String,
}

impl Cloud {
    /// The cloud as the `KT_CLOUD_SITE` and `KT_CLOUD_API` settings describe
    /// it, each defaulting to the real thing.
    pub fn from_settings(site: Option<&str>, api: Option<&str>) -> (c: Cloud)
        ensures
            c.site@ == spec_cloud_address(match site {
                Some(v) => Some(v@),
                None => None,
            }, DEFAULT_SITE@),
            c.api@ == spec_cloud_address(match api {
                Some(v) => Some(v@),
                None => None,
            }, DEFAULT_API@),
    {
        Cloud { site: cloud_address(site, DEFAULT_SITE), api: cloud_address(api, DEFAULT_API) }
    }
}

/// Where the link's identity comes from.
#[derive(Debug, Clone, Copy, PartialEq, Eq, Structural)]
pub enum Source {
    Environment,
    Stored,
}

/// The handle and domain to publish under this run, and where they came from:
/// the environment first, whose handle (valid or not) decides alone; then the
/// stored link; then nothing.
pub open spec fn spec_resolve_identity(
    env_handle: Option<Seq<char>>,
    env_domain: Option<Seq<char>>,
    stored_handle: Option<Seq<char>>,
    stored_domain: Option<Seq<char>>,
) -> Option<(Seq<char>, Seq<char>, Source)> {
    match env_handle {
        Some(raw) => match spec_valid_handle(raw) {
            Some(h) => {
                let d = match env_domain {
                    Some(d) => lower_seq(trim(d)),
                    None => Seq::empty(),
                };
                Some((h, if d.len() == 0 { DEFAULT_DOMAIN@ } else { d }, Source::Environment))
            },
            None => None,
        },
        None => match spec_stored(stored_handle) {
            None => None,
            Some(raw) => match spec_valid_handle(raw) {
                None => None,
                Some(h) => Some(
                    (
                        h,
                        match spec_stored(stored_domain) {
                            Some(d) => d,
                            None => DEFAULT_DOMAIN@,
                        },
                        Source::Stored,
                    ),
                ),
            },
        },
    }
}

pub open spec fn opt_view(o: Option<&str>) -> Option<Seq<char>> {
    match o {
        Some(s) => Some(s@),
        None => None,
    }
}

pub open spec fn opt_string_view(o: Option<String>) -> Option<Seq<char>> {
    match o {
        Some(s) => Some(s@),
        None => None,
    }
}

/// The identity to publish under this run.
pub fn resolve_identity(
    env_handle: Option<&str>,
    env_domain: Option<&str>,
    stored_handle: Option<String>,
    stored_domain: Option<String>,
) -> (r: Option<(String, String, Source)>)
    ensures
        (match r {
            Some((h, d, s)) => spec_resolve_identity(
                opt_view(env_handle),
                opt_view(env_domain),
                opt_string_view(stored_handle),
                opt_string_view(stored_domain),
            ) == Some((h@, d@, s)),
            None => spec_resolve_identity(
                opt_view(env_handle),
                opt_view(env_domain),
                opt_string_view(stored_handle),
                opt_string_view(stored_domain),
            ) is None,
        }),
{
    match env_handle {
        Some(raw) => match valid_handle(raw) {
            Some(h) => {
                let d = match env_domain {
                    Some(d) => lowercase(&trimmed(&chars_of(d))),
                    None => Vec::new(),
                };
                proof {
                    if env_domain is None {
                        assert(d@ =~= Seq::<char>::empty());
                    }
                }
                let domain = if d.len() == 0 {
                    DEFAULT_DOMAIN.to_owned()
                } else {
                    string_from(&d)
                };
                Some((h, domain, Source::Environment))
            },
            None => None,
        },
        None => {
            let raw = match stored(stored_handle) {
                None => return None,
                Some(raw) => raw,
            };
            let h = match valid_handle(raw.as_str()) {
                None => return None,
                Some(h) => h,
            };
            let domain = match stored(stored_domain) {
                Some(d) => d,
                None => DEFAULT_DOMAIN.to_owned(),
            };
            Some((h, domain, Source::Stored))
        },
    }
}

/// Where to dial, under the same precedence: the environment's relay setting,
/// then the stored address, then the default for a linked install.
pub open spec fn spec_resolve_relay_url(
    env_url: Option<Seq<char>>,
    stored_url: Option<Seq<char>>,
    linked: bool,
) -> Option<Seq<char>> {
    match env_url {
        Some(v) if trim(v).len() > 0 => Some(trim(v)),
        _ => match spec_stored(stored_url) {
            Some(u) => Some(u),
            None => if linked {
                Some(DEFAULT_RELAY_URL@)
            } else {
                None
            },
        },
    }
}

pub fn resolve_relay_url(env_url: Option<&str>, stored_url: Option<String>, linked: bool) -> (r:
    Option<String>)
    ensures
        (match r {
            Some(u) => spec_resolve_relay_url(opt_view(env_url), opt_string_view(stored_url), linked)
                == Some(u@),
            None => spec_resolve_relay_url(opt_view(env_url), opt_string_view(stored_url), linked)
                is None,
        }),
{
    if let Some(config) = Config::from_setting(env_url) {
        return Some(config.url);
    }
    if let Some(url) = stored(stored_url) {
        return Some(url);
    }
    if linked {
        Some(DEFAULT_RELAY_URL.to_owned())
    } else {
        None
    }
}

#[derive(Debug)]
pub enum AccountError {
    /// No install identity, so nothing to link an account to.
    NoIdentity,
    AlreadyLinked { handle: String },
    /// The environment sets the identity, and outranks anything stored.
    EnvironmentOutranks,
}

/// Whether this install is linked to an account.
#[derive(Debug, Clone, PartialEq, Eq)]
pub enum AccountLink {
    Unlinked,
    /// A checkout is under way in a browser.
    Waiting,
    Linked { handle: String, domain: String },
}

/// What `account.begin_upgrade` hands back: where to send the browser.
#[derive(Debug)]
pub struct UpgradeStarted {
    pub url: String,
}

/// What pressing the upgrade button comes to.
#[derive(Debug)]
pub struct UpgradeStep {
    pub started: UpgradeStarted,
    /// Whether the window should hear that the link state changed.
    pub announce: bool,
    /// Whether a poll of the accounts API has to be started: only when none
    /// is running.
    pub start_poll: bool,
}

/// One press of the upgrade button, seen from the poll: the poll's deadline
/// after it, and whether the press starts a poll. A running poll (one with a
/// deadline) is kept as it is; only with none running does a press start one.
pub open spec fn press(deadline: Option<u64>, now: u64) -> (Option<u64>, bool) {
    match deadline {
        Some(t) => (Some(t), false),
        None => (Some(saturating(now as int + GIVE_UP_AFTER_MS as int)), true),
    }
}

/// Presses at the times `times`, with no answer from the accounts API in
/// between: the deadline after them, and how many polls they started.
pub open spec fn presses(deadline: Option<u64>, times: Seq<u64>) -> (Option<u64>, nat)
    decreases times.len(),
{
    if times.len() == 0 {
        (deadline, 0)
    } else {
        let first = press(deadline, times[0]);
        let rest = presses(first.0, times.drop_first());
        (rest.0, rest.1 + if first.1 { 1nat } else { 0nat })
    }
}

proof fn lemma_running_poll_is_kept(t: u64, times: Seq<u64>)
    ensures
        presses(Some(t), times) == (Some(t), 0nat),
    decreases times.len(),
{
    if times.len() > 0 {
        lemma_running_poll_is_kept(t, times.drop_first());
    }
}

/// However often the upgrade button is pressed while no answer comes, at
/// most one poll runs: the presses start one exactly when none was running,
/// and one is running after them.
pub proof fn lemma_one_poll_at_a_time(deadline: Option<u64>, times: Seq<u64>)
    requires
        times.len() > 0,
    ensures
        presses(deadline, times).1 == (if deadline is None { 1nat } else { 0nat }),
        presses(deadline, times).0 is Some,
        deadline is Some ==> presses(deadline, times).0 == deadline,
{
    let first = press(deadline, times[0]);
    lemma_running_poll_is_kept(first.0->Some_0, times.drop_first());
}

/// What the accounts API said about this install.
#[derive(Debug)]
pub struct LinkAnswer {
    pub linked: bool,
    pub handle: Option<String>,
    pub domain: Option<String>,
    pub relay_url: Option<String>,
}

/// What the poll does after one answer (or none).
#[derive(Debug)]
pub enum PollStep {
    /// The link landed: persist these, publish under them, dial.
    Finalize { handle: String, domain: String, relay_url: String },
    /// Ask again after this many milliseconds.
    Sleep(u64),
    /// Stop asking. `announce` says whether the link state changed.
    GiveUp { announce: bool },
}

/// The link's state machine: what the window is told, and what the poll and
/// the relay are asked to do.
pub struct Account {
    cloud: Cloud,
    link: AccountLink,
    deadline: Option<u64>,
}

impl Account {
    pub closed spec fn state(&self) -> AccountLink {
        self.link
    }

    pub closed spec fn site(&self) -> Seq<char> {
        self.cloud.site@
    }

    pub closed spec fn api(&self) -> Seq<char> {
        self.cloud.api@
    }

    /// When the current poll gives up, if one is running.
    pub closed spec fn gives_up_at(&self) -> Option<u64> {
        self.deadline
    }

    pub fn new(cloud: Cloud) -> (a: Self)
        ensures
            a.state() == AccountLink::Unlinked,
            a.site() == cloud.site@,
            a.api() == cloud.api@,
            a.gives_up_at() is None,
    {
        Account { cloud, link: AccountLink::Unlinked, deadline: None }
    }

    /// The link as it stands.
    pub fn link(&self) -> (l: AccountLink)
        ensures
            l == self.state(),
    {
        match &self.link {
            AccountLink::Unlinked => AccountLink::Unlinked,
            AccountLink::Waiting => AccountLink::Waiting,
            AccountLink::Linked { handle, domain } => AccountLink::Linked {
                handle: handle.clone(),
                domain: domain.clone(),
            },
        }
    }

    /// Bring a resolved link back to life at startup.
    pub fn start(&mut self, handle: String, domain: String)
        ensures
            final(self).state() == (AccountLink::Linked { handle, domain }),
            final(self).site() == old(self).site(),
            final(self).api() == old(self).api(),
            final(self).gives_up_at() == old(self).gives_up_at(),
    {
        self.link = AccountLink::Linked { handle, domain };
    }

    /// The page the browser is sent to for this install's checkout.
    pub open spec fn upgrade_url(&self, key: Seq<char>) -> Seq<char> {
        self.site() + "/upgrade?install="@ + key
    }

    /// The question the poll asks the accounts API.
    pub open spec fn poll_url(&self, key: Seq<char>) -> Seq<char> {
        self.api() + "/v1/installs/"@ + key
    }

    /// Start the upgrade at `now`: the page to open, whether the window
    /// should hear that the state changed, and whether to start polling.
    /// Idempotent while waiting: the same page, and no second poll (the
    /// deadline stands); see [`press`].
    pub fn begin_upgrade(&mut self, install_key: Option<&str>, now: u64) -> (r: Result<
        UpgradeStep,
        AccountError,
    >)
        ensures
            install_key is None ==> (r matches Err(AccountError::NoIdentity)) && *final(self)
                == *old(self),
            install_key is Some && old(self).state() is Linked ==> (r matches Err(
                AccountError::AlreadyLinked { handle },
            ) && old(self).state() matches AccountLink::Linked { handle: h, .. } && handle == h)
                && *final(self) == *old(self),
            install_key is Some && !(old(self).state() is Linked) ==> {
                &&& r matches Ok(step) && step.started.url@ == old(self).upgrade_url(install_key->Some_0@)
                    && step.announce == (old(self).state() is Unlinked)
                    && (final(self).gives_up_at(), step.start_poll) == press(old(self).gives_up_at(), now)
                &&& final(self).state() == AccountLink::Waiting
            },
            final(self).site() == old(self).site(),
            final(self).api() == old(self).api(),
    {
        let key = match install_key {
            None => return Err(AccountError::NoIdentity),
            Some(k) => k,
        };
        if let AccountLink::Linked { handle, .. } = &self.link {
            return Err(AccountError::AlreadyLinked { handle: handle.clone() });
        }
        let mut url = chars_of(self.cloud.site.as_str());
        append_str(&mut url, "/upgrade?install=");
        append_str(&mut url, key);
        let began = match self.link {
            AccountLink::Unlinked => true,
            _ => false,
        };
        self.link = AccountLink::Waiting;
        let start_poll = self.deadline.is_none();
        if start_poll {
            self.deadline = Some(now.saturating_add(GIVE_UP_AFTER_MS));
        }
        Ok(UpgradeStep { started: UpgradeStarted { url: string_from(&url) }, announce: began, start_poll })
    }

    /// The question the poll asks.
    pub fn poll_address(&self, install_key: &str) -> (u: String)
        ensures
            u@ == self.poll_url(install_key@),
    {
        let mut url = chars_of(self.cloud.api.as_str());
        append_str(&mut url, "/v1/installs/");
        append_str(&mut url, install_key);
        string_from(&url)
    }

    /// One round of the poll, at `now`: `answer` is what the accounts API
    /// said, or `None` when it could not be reached or read. A linked answer
    /// with a usable handle finishes the link; anything else asks again,
    /// until the deadline, when a link still waiting goes back to unlinked.
    pub fn on_answer(&mut self, answer: Option<LinkAnswer>, now: u64) -> (step: PollStep)
        ensures
            final(self).site() == old(self).site(),
            final(self).api() == old(self).api(),
            finishes(answer) ==> {
                let a = answer->Some_0;
                let h = spec_valid_handle(a.handle->Some_0@)->Some_0;
                let d = match a.domain {
                    Some(d) => d@,
                    None => DEFAULT_DOMAIN@,
                };
                let u = match a.relay_url {
                    Some(u) => u@,
                    None => DEFAULT_RELAY_URL@,
                };
                &&& step matches PollStep::Finalize { handle, domain, relay_url } && handle@ == h
                    && domain@ == d && relay_url@ == u
                &&& final(self).state() matches AccountLink::Linked { handle, domain } && handle@
                    == h && domain@ == d
                &&& final(self).gives_up_at() is None
            },
            !finishes(answer) ==> {
                let due = match old(self).gives_up_at() {
                    Some(t) => now >= t,
                    None => true,
                };
                &&& due ==> (step matches PollStep::GiveUp { announce } && announce == (old(
                    self,
                ).state() is Waiting)) && final(self).gives_up_at() is None && final(self).state()
                    == if old(self).state() is Waiting {
                    AccountLink::Unlinked
                } else {
                    old(self).state()
                }
                &&& !due ==> (step matches PollStep::Sleep(ms) && ms == POLL_EVERY_MS) && *final(self)
                    == *old(self)
            },
    {
        if let Some(a) = answer {
            if a.linked {
                if let Some(raw) = &a.handle {
                    if let Some(handle) = valid_handle(raw.as_str()) {
                        let domain = match a.domain {
                            Some(d) => d,
                            None => DEFAULT_DOMAIN.to_owned(),
                        };
                        let relay_url = match a.relay_url {
                            Some(u) => u,
                            None => DEFAULT_RELAY_URL.to_owned(),
                        };
                        self.link = AccountLink::Linked { handle: handle.clone(), domain: domain.clone() };
                        self.deadline = None;
                        return PollStep::Finalize { handle, domain, relay_url };
                    }
                }
            }
        }
        let due = match self.deadline {
            Some(t) => now >= t,
            None => true,
        };
        if due {
            let was_waiting = match self.link {
                AccountLink::Waiting => true,
                _ => false,
            };
            if was_waiting {
                self.link = AccountLink::Unlinked;
            }
            self.deadline = None;
            PollStep::GiveUp { announce: was_waiting }
        } else {
            PollStep::Sleep(POLL_EVERY_MS)
        }
    }

    /// Forget the link on this machine, unless the environment sets it.
    pub fn unlink(&mut self, environment_sets_handle: bool) -> (r: Result<(), AccountError>)
        ensures
            environment_sets_handle ==> (r matches Err(AccountError::EnvironmentOutranks))
                && *final(self) == *old(self),
            !environment_sets_handle ==> r is Ok && final(self).state() == AccountLink::Unlinked
                && final(self).gives_up_at() is None,
            final(self).site() == old(self).site(),
            final(self).api() == old(self).api(),
    {
        if environment_sets_handle {
            return Err(AccountError::EnvironmentOutranks);
        }
        self.link = AccountLink::Unlinked;
        self.deadline = None;
        Ok(())
    }
}

/// Whether an answer from the accounts API finishes the link: linked, with a
/// handle hostnames can be built from. A linked answer with a broken handle
/// is a broken cloud, and the poll keeps asking.
pub open spec fn finishes(answer: Option<LinkAnswer>) -> bool {
    match answer {
        Some(a) => a.linked && match a.handle {
            Some(h) => spec_valid_handle(h@) is Some,
            None => false,
        },
        None => false,
    }
}

/// `x`, or `u64::MAX` when it does not fit.
pub open spec fn saturating(x: int) -> u64 {
    if x > u64::MAX {
        u64::MAX
    } else {
        x as u64
    }
}

} // verus!
