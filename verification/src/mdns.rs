//! Publishing `appname.local` on the local network, and asking what a device
//! on it calls itself.
//!
//! The platform's own responder does the network work. What is decided here is
//! which name an app gets when the one it wants is taken, what a failed
//! registration is reported as, and how a name a device publishes is tidied
//! into something a person would call it.

use vstd::prelude::*;

use crate::decimal::{format_i64, signed_digits};
use crate::slug::{
    first_free_number, has_free_number, least_free_number, lemma_numbers_run_out, numbered,
    views, is_taken,
};
use crate::text::{
    append, append_str, chars_of, find_first, first_index, hex_digit, is_hex_digit, slice,
    strip, strip_chars, string_from, trim, trimmed, CharClass,
};

verus! {

/// What the responder's "name conflict" error code is.
pub const NAME_CONFLICT_CODE: i32 = -65548;

#[derive(Debug)]
pub enum MdnsError {
    /// The system responder could not be reached or refused the request.
    Responder(String),
    /// Another device already answers to this name.
    NameConflict { name: String },
    /// This platform has no responder wired up.
    Unsupported,
}

impl MdnsError {
    /// What went wrong, in words.
    pub fn message(&self) -> (m: String)
        ensures
            (match self {
                MdnsError::Responder(r) => m@ == "could not reach the system mDNS responder: "@
                    + r@,
                MdnsError::NameConflict { name } => m@ == name@
                    + ".local is already claimed on this network"@,
                MdnsError::Unsupported => m@ == "this platform has no mDNS support wired up yet"@,
            }),
    {
        let mut out: Vec<char> = Vec::new();
        match self {
            MdnsError::Responder(r) => {
                append_str(&mut out, "could not reach the system mDNS responder: ");
                append_str(&mut out, r.as_str());
            },
            MdnsError::NameConflict { name } => {
                append_str(&mut out, name.as_str());
                append_str(&mut out, ".local is already claimed on this network");
            },
            MdnsError::Unsupported => {
                append_str(&mut out, "this platform has no mDNS support wired up yet");
            },
        }
        string_from(&out)
    }
}

/// How far the search for a free suffix goes before giving up on numbers:
/// three past the number of names already taken, which is always enough.
pub open spec fn claim_limit(taken: nat) -> nat {
    if taken + 3 <= u64::MAX {
        taken + 3
    } else {
        u64::MAX as nat
    }
}

/// The name an app gets: the one it asked for if it is free, otherwise the
/// first free `name-2`, `name-3`, ...
pub open spec fn spec_claim(name: Seq<char>, taken: Seq<Seq<char>>) -> Seq<char> {
    if !taken.contains(name) {
        name
    } else if has_free_number(name, '-', taken, claim_limit(taken.len())) {
        numbered(name, '-', least_free_number(name, '-', taken, claim_limit(taken.len())))
    } else {
        name + "-x"@
    }
}

/// Pick a name for `name` that none of `taken` already is.
pub fn claim_name(name: &str, taken: &[String]) -> (r: String)
    ensures
        r@ == spec_claim(name@, views(taken@)),
        taken.len() + 3 <= u64::MAX ==> !views(taken@).contains(r@),
{
    let base = chars_of(name);
    if !is_taken(&base, taken) {
        return string_from(&base);
    }
    let len = taken.len() as u64;
    let limit: u64 = if len <= u64::MAX - 3 {
        len + 3
    } else {
        u64::MAX
    };
    assert(limit as nat == claim_limit(views(taken@).len()));
    let n = first_free_number(&base, '-', taken, limit);
    proof {
        if taken.len() + 3 <= u64::MAX && n == limit {
            lemma_numbers_run_out(base@, '-', views(taken@), limit as nat);
        }
    }
    let mut out = base.clone();
    if n < limit {
        out.push('-');
        let digits = crate::decimal::format_u64(n);
        append(&mut out, &digits);
        assert(out@ =~= numbered(name@, '-', n as nat));
    } else {
        append_str(&mut out, "-x");
    }
    string_from(&out)
}

/// A name that is free is kept as asked for, and whatever name is picked is
/// never one already taken (as long as the list of taken names is not
/// astronomically long).
pub proof fn lemma_claimed_name_is_free(name: Seq<char>, taken: Seq<Seq<char>>)
    requires
        taken.len() + 3 <= u64::MAX,
    ensures
        !taken.contains(name) ==> spec_claim(name, taken) == name,
        !taken.contains(spec_claim(name, taken)),
{
    if taken.contains(name) {
        let limit = claim_limit(taken.len());
        if !has_free_number(name, '-', taken, limit) {
            assert forall|m: nat| 2 <= m < limit implies taken.contains(#[trigger] numbered(name, '-', m)) by {
                if !taken.contains(numbered(name, '-', m)) {
                    assert(has_free_number(name, '-', taken, limit));
                }
            }
            lemma_numbers_run_out(name, '-', taken, limit);
        }
        let n = choose|n: nat| 2 <= n < limit && !taken.contains(#[trigger] numbered(name, '-', n));
        lemma_least_exists(name, taken, limit, n);
    }
}

/// Below any free number there is a least free number.
proof fn lemma_least_exists(name: Seq<char>, taken: Seq<Seq<char>>, limit: nat, n: nat)
    requires
        2 <= n < limit,
        !taken.contains(numbered(name, '-', n)),
    ensures
        ({
            let least = least_free_number(name, '-', taken, limit);
            2 <= least < limit && !taken.contains(numbered(name, '-', least))
        }),
    decreases n,
{
    if exists|m: nat| 2 <= m < n && !taken.contains(#[trigger] numbered(name, '-', m)) {
        let m = choose|m: nat| 2 <= m < n && !taken.contains(#[trigger] numbered(name, '-', m));
        lemma_least_exists(name, taken, limit, m);
    } else {
        assert(forall|m: nat| 2 <= m < n ==> taken.contains(#[trigger] numbered(name, '-', m)));
    }
}

/// A published record, held for as long as the name should stay published.
#[derive(Debug)]
pub struct Registration {
    name: String,
}

impl Registration {
    pub closed spec fn published_name(&self) -> Seq<char> {
        self.name@
    }

    /// The name this record publishes.
    pub fn name(&self) -> (n: &str)
        ensures
            n@ == self.published_name(),
    {
        self.name.as_str()
    }
}

/// What an announcement keeps alive.
#[derive(Debug)]
pub enum Handle {
    /// Nothing to release: the mock, or a platform without a responder.
    Nothing,
    /// A record held by the system responder.
    Record(Registration),
}

/// A published name.
#[derive(Debug)]
pub struct Announcement {
    /// What was asked for.
    pub requested: String,
    /// What was got. Differs when the network already had that name.
    pub registered: String,
    /// Held, not read: dropping it is what withdraws the announcement.
    pub handle: Handle,
}

impl Announcement {
    /// The name the responder holds for this announcement, if it holds one.
    pub closed spec fn record(&self) -> Option<Seq<char>> {
        match self.handle {
            Handle::Nothing => None,
            Handle::Record(reg) => Some(reg.name@),
        }
    }

    /// The hostname to put in a URL, e.g. `trip-planner.local`.
    pub fn hostname(&self) -> (h: String)
        ensures
            h@ == self.registered@ + ".local"@,
    {
        let mut out = chars_of(self.registered.as_str());
        append_str(&mut out, ".local");
        string_from(&out)
    }

    /// Whether the network made us take a different name.
    pub fn was_renamed(&self) -> (b: bool)
        ensures
            b == (self.requested@ != self.registered@),
    {
        !(self.requested == self.registered)
    }

    /// The responder's record behind this announcement, if there is one.
    pub fn registration(&self) -> (r: Option<&Registration>)
        ensures
            (match r {
                Some(reg) => self.record() == Some(reg.published_name()),
                None => self.record() is None,
            }),
    {
        match &self.handle {
            Handle::Nothing => None,
            Handle::Record(reg) => Some(reg),
        }
    }
}

/// What an announcement request came to: the announcement, or `None` when it
/// failed.
pub open spec fn outcome(r: Result<Announcement, MdnsError>) -> Option<Announcement> {
    match r {
        Ok(a) => Some(a),
        Err(_) => None,
    }
}

/// The names registered by the requests in a record of requests, in order.
pub open spec fn registered_of(asked: Seq<(Seq<char>, u32, Option<Announcement>)>) -> Seq<Seq<char>>
    decreases asked.len(),
{
    if asked.len() == 0 {
        Seq::empty()
    } else {
        let earlier = registered_of(asked.drop_last());
        match asked.last().2 {
            Some(a) => earlier.push(a.registered@),
            None => earlier,
        }
    }
}

/// Publishes hostnames on the local network: one implementation per platform,
/// and a mock for tests.
pub trait Announcer {
    /// Every request made of this announcer so far, in order: the name, the
    /// address, and the announcement that came back (`None` for a failure).
    spec fn asked(&self) -> Seq<(Seq<char>, u32, Option<Announcement>)>;

    /// Whether this announcer refuses every request, now and from now on.
    spec fn refuses(&self) -> bool;

    /// What the announcer's own state keeps true between requests.
    spec fn inv(&self) -> bool;

    /// Publish `<name>.local` pointing at `addr`. The name that comes back may
    /// differ from the one asked for; callers must use the returned one.
    fn announce(&mut self, name: &str, addr: u32) -> (r: Result<Announcement, MdnsError>)
        requires
            old(self).inv(),
        ensures
            final(self).inv(),
            final(self).asked() == old(self).asked().push((name@, addr, outcome(r))),
            r matches Ok(a) ==> a.requested@ == name@,
            old(self).refuses() ==> r is Err,
            final(self).refuses() == old(self).refuses(),
    ;

    /// Whether announcements are really visible on the network. Unless an
    /// implementation says otherwise, they are.
    fn is_live(&self) -> (b: bool)
        default_ensures
            b,
    {
        true
    }
}

/// Records what was announced, and can pretend names are already taken.
pub struct MockAnnouncer {
    taken: Vec<String>,
    announced: Vec<String>,
    fail: Option<String>,
    asked: Ghost<Seq<(Seq<char>, u32, Option<Announcement>)>>,
}

impl MockAnnouncer {
    /// Names the network is pretending to have.
    pub closed spec fn taken_names(&self) -> Seq<Seq<char>> {
        views(self.taken@)
    }

    /// Names announced so far, in order.
    pub closed spec fn announced_names(&self) -> Seq<Seq<char>> {
        views(self.announced@)
    }

    /// Why every announcement fails, when one is set.
    pub closed spec fn refusal(&self) -> Option<Seq<char>> {
        match self.fail {
            Some(r) => Some(r@),
            None => None,
        }
    }

    pub fn new() -> (m: Self)
        ensures
            m.taken_names() == Seq::<Seq<char>>::empty(),
            m.announced_names() == Seq::<Seq<char>>::empty(),
            m.refusal() is None,
            m.asked() == Seq::<(Seq<char>, u32, Option<Announcement>)>::empty(),
    {
        let m = MockAnnouncer { taken: Vec::new(), announced: Vec::new(), fail: None, asked: Ghost(Seq::empty()) };
        assert(views(m.taken@) =~= Seq::<Seq<char>>::empty());
        assert(views(m.announced@) =~= Seq::<Seq<char>>::empty());
        m
    }

    /// Pretend these names are already claimed on the network.
    pub fn with_taken(self, names: Vec<String>) -> (m: Self)
        ensures
            m.taken_names() == views(names@),
            m.announced_names() == self.announced_names(),
            m.refusal() == self.refusal(),
            m.asked() == self.asked(),
    {
        MockAnnouncer { taken: names, announced: self.announced, fail: self.fail, asked: self.asked }
    }

    /// Make every announcement fail, for testing the degraded path.
    pub fn failing(self, reason: &str) -> (m: Self)
        ensures
            m.taken_names() == self.taken_names(),
            m.announced_names() == self.announced_names(),
            m.refusal() == Some(reason@),
            m.asked() == self.asked(),
    {
        MockAnnouncer { taken: self.taken, announced: self.announced, fail: Some(reason.to_owned()), asked: self.asked }
    }

    /// Names announced so far, in order.
    pub fn announced(&self) -> (v: Vec<String>)
        ensures
            views(v@) == self.announced_names(),
    {
        crate::slug::clone_strings(&self.announced)
    }
}

impl Announcer for MockAnnouncer {
    closed spec fn asked(&self) -> Seq<(Seq<char>, u32, Option<Announcement>)> {
        self.asked@
    }

    open spec fn refuses(&self) -> bool {
        self.refusal() is Some
    }

    /// What the mock says it announced is what its requests registered, and
    /// while it does not refuse, every request it was asked succeeded.
    open spec fn inv(&self) -> bool {
        &&& self.announced_names() == registered_of(self.asked())
        &&& self.refusal() is None ==> forall|j: int| 0 <= j < self.asked().len() ==> (#[trigger] self.asked()[j]).2 is Some
    }

    fn announce(&mut self, name: &str, addr: u32) -> (r: Result<Announcement, MdnsError>)
        ensures
            old(self).refusal() matches Some(why) ==> {
                &&& r matches Err(MdnsError::Responder(got)) && got@ == why
                &&& final(self).taken_names() == old(self).taken_names()
                &&& final(self).announced_names() == old(self).announced_names()
            },
            old(self).refusal() is None ==> {
                let registered = spec_claim(name@, old(self).taken_names());
                &&& r is Ok
                &&& r->Ok_0.requested@ == name@
                &&& r->Ok_0.registered@ == registered
                &&& r->Ok_0.record() is None
                &&& old(self).taken_names().len() + 3 <= u64::MAX ==> !old(self).taken_names().contains(registered)
                &&& final(self).taken_names() == old(self).taken_names().push(registered)
                &&& final(self).announced_names() == old(self).announced_names().push(registered)
            },
            final(self).refusal() == old(self).refusal(),
    {
        match &self.fail {
            Some(reason) => {
                let r = Err(MdnsError::Responder(reason.clone()));
                proof {
                    self.asked@ = self.asked@.push((name@, addr, outcome(r)));
                    assert(self.asked@.drop_last() =~= old(self).asked@);
                }
                return r;
            },
            None => {},
        }
        let registered = claim_name(name, self.taken.as_slice());
        proof {
            assert(views(self.taken@) == old(self).taken_names());
        }
        self.taken.push(registered.clone());
        self.announced.push(registered.clone());
        proof {
            assert(views(self.taken@) =~= views(old(self).taken@).push(registered@));
            assert(views(self.announced@) =~= views(old(self).announced@).push(registered@));
        }
        let r = Ok(Announcement { requested: name.to_owned(), registered, handle: Handle::Nothing });
        proof {
            self.asked@ = self.asked@.push((name@, addr, outcome(r)));
            assert(self.asked@.drop_last() =~= old(self).asked@);
        }
        r
    }

    fn is_live(&self) -> (b: bool)
        ensures
            !b,
    {
        false
    }
}

/// Refuses every announcement, on platforms with no responder wired up. Apps
/// stay reachable at the machine's own hostname and by address.
pub struct UnsupportedAnnouncer {
    asked: Ghost<Seq<(Seq<char>, u32, Option<Announcement>)>>,
}

impl UnsupportedAnnouncer {
    pub fn new() -> (u: Self)
        ensures
            u.asked() == Seq::<(Seq<char>, u32, Option<Announcement>)>::empty(),
    {
        UnsupportedAnnouncer { asked: Ghost(Seq::empty()) }
    }
}

impl Announcer for UnsupportedAnnouncer {
    closed spec fn asked(&self) -> Seq<(Seq<char>, u32, Option<Announcement>)> {
        self.asked@
    }

    open spec fn refuses(&self) -> bool {
        true
    }

    open spec fn inv(&self) -> bool {
        true
    }

    fn announce(&mut self, name: &str, addr: u32) -> (r: Result<Announcement, MdnsError>)
        ensures
            r matches Err(MdnsError::Unsupported),
    {
        let r = Err(MdnsError::Unsupported);
        proof {
            self.asked@ = self.asked@.push((name@, addr, outcome(r)));
        }
        r
    }

    fn is_live(&self) -> (b: bool)
        ensures
            !b,
    {
        false
    }
}

/// `s` without any element equal to `x`, order kept.
pub open spec fn without(s: Seq<Seq<char>>, x: Seq<char>) -> Seq<Seq<char>>
    decreases s.len(),
{
    if s.len() == 0 {
        s
    } else if s.last() == x {
        without(s.drop_last(), x)
    } else {
        without(s.drop_last(), x).push(s.last())
    }
}

/// The announcer that goes through the system responder.
///
/// Announcing is two steps around the responder call: [`claim`] picks the
/// name and remembers it, [`settle`] turns the responder's answer into an
/// announcement or an error and forgets the name again on failure. Conflicts
/// the responder reports later are fed back through [`on_register`].
///
/// [`claim`]: BonjourAnnouncer::claim
/// [`settle`]: BonjourAnnouncer::settle
/// [`on_register`]: BonjourAnnouncer::on_register
pub struct BonjourAnnouncer {
    claimed: Vec<String>,
    conflicts: Vec<String>,
}

impl BonjourAnnouncer {
    /// Names this process believes are live.
    pub closed spec fn claimed_names(&self) -> Seq<Seq<char>> {
        views(self.claimed@)
    }

    /// Names the responder has reported as claimed by another device.
    pub closed spec fn conflict_names(&self) -> Seq<Seq<char>> {
        views(self.conflicts@)
    }

    pub fn new() -> (b: Self)
        ensures
            b.claimed_names() == Seq::<Seq<char>>::empty(),
            b.conflict_names() == Seq::<Seq<char>>::empty(),
    {
        let b = BonjourAnnouncer { claimed: Vec::new(), conflicts: Vec::new() };
        assert(views(b.claimed@) =~= Seq::<Seq<char>>::empty());
        assert(views(b.conflicts@) =~= Seq::<Seq<char>>::empty());
        b
    }

    /// Pick the name to register for `name`, suffixed against every name this
    /// process already published and every name the network said was taken,
    /// and remember it as published.
    pub fn claim(&mut self, name: &str) -> (registered: String)
        ensures
            registered@ == spec_claim(
                name@,
                old(self).claimed_names() + old(self).conflict_names(),
            ),
            final(self).claimed_names() == old(self).claimed_names().push(registered@),
            final(self).conflict_names() == old(self).conflict_names(),
    {
        let mut all = crate::slug::clone_strings(&self.claimed);
        let more = crate::slug::clone_strings(&self.conflicts);
        let ghost before = all@;
        let mut j: usize = 0;
        while j < more.len()
            invariant
                j <= more.len(),
                all@ == before + more@.take(j as int),
            decreases more.len() - j,
        {
            all.push(more[j].clone());
            j = j + 1;
            assert(all@ =~= before + more@.take(j as int));
        }
        assert(more@.take(j as int) =~= more@);
        assert(views(all@) =~= views(self.claimed@) + views(self.conflicts@));
        let registered = claim_name(name, all.as_slice());
        self.claimed.push(registered.clone());
        assert(views(self.claimed@) =~= views(old(self).claimed@).push(registered@));
        registered
    }

    /// The fully qualified, rooted name the responder is given, which the C
    /// interface cannot carry when it holds a NUL.
    pub fn full_name(registered: &str) -> (r: Result<String, MdnsError>)
        ensures
            crate::text::has_char(registered@, '\0') ==> (r matches Err(MdnsError::Responder(m))
                && m@ == "name contained a NUL byte"@),
            !crate::text::has_char(registered@, '\0') ==> (r matches Ok(f) && f@ == registered@
                + ".local."@),
    {
        let v = chars_of(registered);
        if crate::text::contains_char(&v, '\0') {
            return Err(MdnsError::Responder("name contained a NUL byte".to_owned()));
        }
        let mut out = v;
        append_str(&mut out, ".local.");
        Ok(string_from(&out))
    }

    /// The error for a responder that could not be reached at all.
    pub fn connection_failed(code: i32) -> (e: MdnsError)
        ensures
            e matches MdnsError::Responder(m) && m@ == "DNSServiceCreateConnection failed ("@
                + signed_digits(code as int) + ")"@,
    {
        let mut out: Vec<char> = Vec::new();
        append_str(&mut out, "DNSServiceCreateConnection failed (");
        let digits = format_i64(code as i64);
        append(&mut out, &digits);
        append_str(&mut out, ")");
        MdnsError::Responder(string_from(&out))
    }

    /// Turn the responder's answer to registering `registered` (asked for as
    /// `requested`) into an announcement. On failure the name is no longer
    /// believed published.
    pub fn settle(&mut self, requested: &str, registered: &str, code: i32) -> (r: Result<
        Announcement,
        MdnsError,
    >)
        ensures
            code == 0 ==> {
                &&& r is Ok
                &&& r->Ok_0.requested@ == requested@
                &&& r->Ok_0.registered@ == registered@
                &&& r->Ok_0.record() == Some(registered@)
                &&& final(self).claimed_names() == old(self).claimed_names()
            },
            code == NAME_CONFLICT_CODE ==> (r matches Err(MdnsError::NameConflict { name })
                && name@ == registered@),
            code != 0 && code != NAME_CONFLICT_CODE ==> (r matches Err(MdnsError::Responder(m))
                && m@ == "DNSServiceRegisterRecord failed ("@ + signed_digits(code as int)
                + ")"@),
            code != 0 ==> final(self).claimed_names() == without(
                old(self).claimed_names(),
                registered@,
            ),
            final(self).conflict_names() == old(self).conflict_names(),
    {
        if code == 0 {
            return Ok(
                Announcement {
                    requested: requested.to_owned(),
                    registered: registered.to_owned(),
                    handle: Handle::Record(Registration { name: registered.to_owned() }),
                },
            );
        }
        self.forget(registered);
        if code == NAME_CONFLICT_CODE {
            Err(MdnsError::NameConflict { name: registered.to_owned() })
        } else {
            let mut out: Vec<char> = Vec::new();
            append_str(&mut out, "DNSServiceRegisterRecord failed (");
            let digits = format_i64(code as i64);
            append(&mut out, &digits);
            append_str(&mut out, ")");
            Err(MdnsError::Responder(string_from(&out)))
        }
    }

    /// Stop believing `name` is published.
    fn forget(&mut self, name: &str)
        ensures
            final(self).claimed_names() == without(old(self).claimed_names(), name@),
            final(self).conflict_names() == old(self).conflict_names(),
    {
        let mut old_claimed: Vec<String> = Vec::new();
        std::mem::swap(&mut old_claimed, &mut self.claimed);
        let target = chars_of(name);
        let mut i: usize = 0;
        while i < old_claimed.len()
            invariant
                i <= old_claimed.len(),
                views(self.claimed@) == without(views(old_claimed@.take(i as int)), name@),
                self.conflicts == old(self).conflicts,
                target@ == name@,
            decreases old_claimed.len() - i,
        {
            let c = &old_claimed[i];
            let ghost t = views(old_claimed@.take(i as int + 1));
            proof {
                assert(t.drop_last() =~= views(old_claimed@.take(i as int)));
                assert(t.last() == old_claimed@[i as int]@);
                assert(t.len() > 0);
                assert(without(t, name@) == if t.last() == name@ {
                    without(t.drop_last(), name@)
                } else {
                    without(t.drop_last(), name@).push(t.last())
                });
            }
            if !crate::text::same(&chars_of(c.as_str()), &target) {
                self.claimed.push(c.clone());
                assert(views(self.claimed@) =~= without(views(old_claimed@.take(i as int)), name@).push(c@));
            }
            assert(views(self.claimed@) == without(t, name@));
            i = i + 1;
        }
        assert(old_claimed@.take(i as int) =~= old_claimed@);
    }

    /// What the responder said later about one registration: a conflict is
    /// remembered so the name is not asked for again; anything else changes
    /// nothing here.
    pub fn on_register(&mut self, name: String, code: i32)
        ensures
            final(self).claimed_names() == old(self).claimed_names(),
            code == NAME_CONFLICT_CODE ==> final(self).conflict_names() == old(
                self,
            ).conflict_names().push(name@),
            code != NAME_CONFLICT_CODE ==> final(self).conflict_names() == old(
                self,
            ).conflict_names(),
    {
        if code == NAME_CONFLICT_CODE {
            self.conflicts.push(name);
            assert(views(self.conflicts@) =~= views(old(self).conflicts@).push(name@));
        }
    }
}

/// Asks the network what the device at an address calls itself. The answer is
/// a suggestion for a name, never an identity.
pub trait Discoverer {
    /// The name the device at `addr` publishes for itself, if any, within
    /// roughly `within_ms` milliseconds.
    fn name_for(&self, addr: u32, within_ms: u64) -> (r: Option<String>);

    /// Whether this implementation can really see the network. Unless an
    /// implementation says otherwise, it can.
    fn is_live(&self) -> (b: bool)
        default_ensures
            b,
    {
        true
    }
}

/// No lookup at all: callers fall back to whatever the browser suggested.
pub struct NoDiscoverer;

impl Discoverer for NoDiscoverer {
    fn name_for(&self, addr: u32, within_ms: u64) -> (r: Option<String>)
        ensures
            r is None,
    {
        None
    }

    fn is_live(&self) -> (b: bool)
        ensures
            !b,
    {
        false
    }
}

/// The latest answer recorded for `addr`.
pub open spec fn latest_answer(entries: Seq<(u32, Seq<char>)>, addr: u32) -> Option<Seq<char>>
    decreases entries.len(),
{
    if entries.len() == 0 {
        None
    } else if entries.last().0 == addr {
        Some(entries.last().1)
    } else {
        latest_answer(entries.drop_last(), addr)
    }
}

/// A discoverer with a fixed answer sheet, for tests.
pub struct MockDiscoverer {
    names: Vec<(u32, String)>,
}

impl MockDiscoverer {
    pub closed spec fn entries(&self) -> Seq<(u32, Seq<char>)> {
        self.names@.map_values(|e: (u32, String)| (e.0, e.1@))
    }

    /// What the sheet says about `addr`.
    pub open spec fn answer(&self, addr: u32) -> Option<Seq<char>> {
        latest_answer(self.entries(), addr)
    }

    pub fn new() -> (d: Self)
        ensures
            d.entries() == Seq::<(u32, Seq<char>)>::empty(),
            forall|a: u32| #[trigger] d.answer(a) is None,
    {
        let d = MockDiscoverer { names: Vec::new() };
        assert(d.entries() =~= Seq::<(u32, Seq<char>)>::empty());
        d
    }

    /// Answer `name` for `addr` from now on.
    pub fn with(self, addr: u32, name: &str) -> (d: Self)
        ensures
            d.answer(addr) == Some(name@),
            forall|a: u32| a != addr ==> #[trigger] d.answer(a) == self.answer(a),
    {
        let mut names = self.names;
        names.push((addr, name.to_owned()));
        let d = MockDiscoverer { names };
        assert(d.entries().drop_last() =~= self.entries());
        d
    }
}

impl Discoverer for MockDiscoverer {
    fn name_for(&self, addr: u32, within_ms: u64) -> (r: Option<String>)
        ensures
            (match r {
                Some(n) => self.answer(addr) == Some(n@),
                None => self.answer(addr) is None,
            }),
    {
        let mut i = self.names.len();
        assert(self.entries().take(i as int) =~= self.entries());
        while i > 0
            invariant
                i <= self.names.len(),
                latest_answer(self.entries(), addr) == latest_answer(self.entries().take(i as int), addr),
            decreases i,
        {
            let ghost t = self.entries().take(i as int);
            assert(t.drop_last() =~= self.entries().take(i as int - 1));
            if self.names[i - 1].0 == addr {
                return Some(self.names[i - 1].1.clone());
            }
            i = i - 1;
        }
        assert(self.entries().take(0) =~= Seq::<(u32, Seq<char>)>::empty());
        None
    }
}

/// `aa:bb:cc:dd:ee:ff`: six pairs of hex digits separated by colons.
pub open spec fn is_mac_text(s: Seq<char>) -> bool {
    &&& s.len() == 17
    &&& forall|i: int|
        0 <= i < 17 ==> if i % 3 == 2 {
            s[i] == ':'
        } else {
            is_hex_digit(#[trigger] s[i])
        }
}

/// Whether `candidate` is a MAC address written with colons.
pub fn is_mac(candidate: &str) -> (b: bool)
    ensures
        b == is_mac_text(candidate@),
{
    let v = chars_of(candidate);
    if v.len() != 17 {
        return false;
    }
    let mut i: usize = 0;
    while i < 17
        invariant
            i <= 17,
            v.len() == 17,
            v@ == candidate@,
            forall|k: int|
                0 <= k < i ==> if k % 3 == 2 {
                    v@[k] == ':'
                } else {
                    is_hex_digit(#[trigger] v@[k])
                },
        decreases 17 - i,
    {
        if i % 3 == 2 {
            if v[i] != ':' {
                return false;
            }
        } else if !hex_digit(v[i]) {
            assert(!is_hex_digit(v@[i as int]));
            return false;
        }
        i = i + 1;
    }
    true
}

/// Whether `s` is twelve hex digits: how some devices prefix their name with
/// their MAC address.
pub open spec fn is_mac_prefix(s: Seq<char>) -> bool {
    s.len() == 12 && forall|i: int| 0 <= i < 12 ==> is_hex_digit(#[trigger] s[i])
}

/// Whether ` [` starts at position `i` of `s`.
pub open spec fn bracket_at(s: Seq<char>, i: int) -> bool {
    0 <= i && i + 1 < s.len() && s[i] == ' ' && s[i + 1] == '['
}

/// The position of the last ` [` in `s`, if there is one.
pub open spec fn last_bracket(s: Seq<char>) -> Option<int> {
    if exists|i: int| #[trigger] bracket_at(s, i) {
        Some(choose|i: int| bracket_at(s, i) && forall|j: int| i < j ==> !#[trigger] bracket_at(s, j))
    } else {
        None
    }
}

/// `name` without a MAC address and `@` in front of it.
pub open spec fn without_mac_prefix(name: Seq<char>) -> Seq<char> {
    match first_index(name, '@') {
        Some(i) => if is_mac_prefix(name.take(i)) {
            name.skip(i + 1)
        } else {
            name
        },
        None => name,
    }
}

/// `s` without a bracketed MAC address at its end.
pub open spec fn without_mac_suffix(s: Seq<char>) -> Seq<char> {
    match last_bracket(s) {
        Some(i) => if is_mac_text(crate::text::strip_end(s.skip(i + 2), CharClass::Exactly(']'))) {
            s.take(i)
        } else {
            s
        },
        None => s,
    }
}

/// A published name with the decorations devices add taken off: a MAC address
/// before an `@`, and one in brackets at the end.
pub open spec fn spec_tidy(name: Seq<char>) -> Seq<char> {
    trim(without_mac_suffix(without_mac_prefix(name)))
}

fn find_bracket(v: &Vec<char>) -> (r: Option<usize>)
    ensures
        r is Some <==> last_bracket(v@) is Some,
        r matches Some(k) ==> last_bracket(v@) == Some(k as int) && k + 1 < v.len(),
{
    let mut i = v.len();
    while i > 1
        invariant
            i <= v.len(),
            forall|j: int| i - 1 <= j ==> !#[trigger] bracket_at(v@, j),
        decreases i,
    {
        if v[i - 2] == ' ' && v[i - 1] == '[' {
            let k = i - 2;
            proof {
                let s = v@;
                assert(bracket_at(s, k as int));
                let w = choose|w: int| bracket_at(s, w) && forall|j: int| w < j ==> !#[trigger] bracket_at(s, j);
                if w < k {
                    assert(!bracket_at(s, k as int));
                } else if w > k {
                    assert(!bracket_at(s, w));
                }
            }
            return Some(k);
        }
        proof {
            assert forall|j: int| i - 2 <= j implies !#[trigger] bracket_at(v@, j) by {
                if j >= i - 1 {
                } else {
                    assert(j == i - 2);
                }
            }
        }
        i = i - 1;
    }
    proof {
        assert forall|j: int| 0 <= j implies !#[trigger] bracket_at(v@, j) by {
            if j < i - 1 {
                assert(i <= 1);
            }
        }
    }
    None
}

fn strip_mac_prefix(v: &Vec<char>) -> (r: Vec<char>)
    ensures
        r@ == without_mac_prefix(v@),
{
    match find_first(v, '@') {
        Some(i) => {
            let mac = slice(v, 0, i);
            assert(mac@ =~= v@.take(i as int));
            let mut hex = mac.len() == 12;
            let mut k: usize = 0;
            while hex && k < mac.len()
                invariant
                    k <= mac.len(),
                    hex ==> mac.len() == 12,
                    hex ==> forall|j: int| 0 <= j < k ==> is_hex_digit(#[trigger] mac@[j]),
                    !hex ==> !is_mac_prefix(mac@),
                decreases mac.len() - k,
            {
                if !hex_digit(mac[k]) {
                    hex = false;
                    assert(!is_hex_digit(mac@[k as int]));
                }
                k = k + 1;
            }
            if hex {
                let r = slice(v, i + 1, v.len());
                assert(r@ =~= v@.skip(i + 1));
                r
            } else {
                v.clone()
            }
        },
        None => v.clone(),
    }
}

fn strip_mac_suffix(v: Vec<char>) -> (r: Vec<char>)
    ensures
        r@ == without_mac_suffix(v@),
{
    match find_bracket(&v) {
        Some(i) => {
            let tail = slice(&v, i + 2, v.len());
            assert(tail@ =~= v@.skip(i + 2));
            let closed = strip_end_chars(&tail, ']');
            let text = string_from(&closed);
            if is_mac(text.as_str()) {
                let kept = slice(&v, 0, i);
                assert(kept@ =~= v@.take(i as int));
                kept
            } else {
                v
            }
        },
        None => v,
    }
}

/// The name a device publishes, tidied into what a person would call it.
pub fn tidy(name: &str) -> (r: String)
    ensures
        r@ == spec_tidy(name@),
{
    let v = chars_of(name);
    let without_prefix = strip_mac_prefix(&v);
    let without_suffix = strip_mac_suffix(without_prefix);
    let r = trimmed(&without_suffix);
    string_from(&r)
}

/// The name a device answered with, once tidied; a name that tidies away to
/// nothing names nobody.
pub fn name_from(instance: &str) -> (r: Option<String>)
    ensures
        match r {
            Some(n) => n@ == spec_tidy(instance@) && n@.len() > 0,
            None => spec_tidy(instance@).len() == 0,
        },
{
    let name = tidy(instance);
    if name.as_str().is_empty() {
        None
    } else {
        Some(name)
    }
}

/// How long a lookup may spend browsing one kind of service: an equal share of
/// the whole allowance, cut short by what is left of it, so that one silent
/// service cannot starve the others.
pub fn service_slice_ms(remaining_ms: u64, within_ms: u64, services: u64) -> (r: u64)
    requires
        services > 0,
    ensures
        r == if remaining_ms <= within_ms / services { remaining_ms } else { within_ms / services },
{
    let share = within_ms / services;
    if remaining_ms <= share {
        remaining_ms
    } else {
        share
    }
}

/// `str::trim_end_matches` with one character.
pub fn strip_end_chars(v: &Vec<char>, c: char) -> (r: Vec<char>)
    ensures
        r@ == crate::text::strip_end(v@, CharClass::Exactly(c)),
{
    let mut j = v.len();
    assert(v@.subrange(0, j as int) =~= v@);
    while j > 0 && v[j - 1] == c
        invariant
            j <= v.len(),
            crate::text::strip_end(v@, CharClass::Exactly(c)) == crate::text::strip_end(
                v@.subrange(0, j as int),
                CharClass::Exactly(c),
            ),
        decreases j,
    {
        proof {
            let t = v@.subrange(0, j as int);
            assert(t.drop_last() =~= v@.subrange(0, j - 1));
        }
        j = j - 1;
    }
    slice(v, 0, j)
}

} // verus!
