//! The set of apps currently being served, and the names they answer to.
//!
//! Replaced wholesale on rescan. Each app answers to its `<name>.local`
//! announcement on the local network and, once this install has a handle, to
//! `<label>-<handle>.<domain>` through the relay.

use vstd::prelude::*;

use crate::access::{RelayMode, Visibility};
use crate::mdns::{Announcement, Announcer};
use crate::order::{insert_by_key, key_views, sorted_keys};
use crate::registry::{spec_effective_label, AppRecord};
use crate::text::{
    append_str, chars_of, find_last, has_char, last_index, lower_seq, lowercase, slice, strip_end,
    string_from, trim, trimmed, unicode_lower, unicode_lowercase, CharClass,
};

verus! {

/// What the server needs to serve one app.
#[derive(Debug, Clone)]
pub struct ServedApp {
    pub paused: bool,
    pub slug: String,
    pub name: String,
    /// The folder, canonical.
    pub root: String,
    pub entry: String,
    pub visibility: Visibility,
    pub relay: RelayMode,
}

/// What the server is given for a record whose folder resolves to `root`.
pub open spec fn served_from(r: AppRecord, root: Seq<char>, s: ServedApp) -> bool {
    &&& s.paused == r.manifest.paused
    &&& s.slug@ == r.manifest.slug@
    &&& s.name@ == r.manifest.name@
    &&& s.root@ == root
    &&& s.entry@ == r.manifest.entry@
    &&& s.visibility == r.manifest.visibility
    &&& s.relay == r.manifest.relay
}

impl ServedApp {
    /// A copy of this app.
    pub fn copy(&self) -> (s: Self)
        ensures
            s == *self,
    {
        ServedApp {
            paused: self.paused,
            slug: self.slug.clone(),
            name: self.name.clone(),
            root: self.root.clone(),
            entry: self.entry.clone(),
            visibility: self.visibility,
            relay: self.relay,
        }
    }
}

struct Entry {
    record: AppRecord,
    served: ServedApp,
    /// The `<name>.local` this app answers to, while it is announced.
    announcement: Option<Announcement>,
}

pub struct Library {
    apps: Vec<Entry>,
    /// This install's handle and the domain its apps hang off, once an
    /// account has claimed one.
    relay_identity: Option<(String, String)>,
}

/// The slug of each entry.
spec fn slugs_of(es: Seq<Entry>) -> Seq<Seq<char>> {
    es.map_values(|e: Entry| e.record.manifest.slug@)
}

/// The position of the entry for `slug`, if there is one.
spec fn position(es: Seq<Entry>, slug: Seq<char>) -> Option<int> {
    if exists|i: int| 0 <= i < es.len() && es[i].record.manifest.slug@ == slug {
        Some(choose|i: int| 0 <= i < es.len() && es[i].record.manifest.slug@ == slug)
    } else {
        None
    }
}

spec fn distinct_slugs(es: Seq<Entry>) -> bool {
    forall|i: int, j: int|
        0 <= i < es.len() && 0 <= j < es.len() && i != j ==> es[i].record.manifest.slug@
            != es[j].record.manifest.slug@
}

/// The entry for `slug`, if there is one.
spec fn entry_for(es: Seq<Entry>, slug: Seq<char>) -> Option<Entry> {
    match position(es, slug) {
        Some(i) => Some(es[i]),
        None => None,
    }
}

proof fn lemma_position_at(es: Seq<Entry>, i: int)
    requires
        distinct_slugs(es),
        0 <= i < es.len(),
    ensures
        position(es, es[i].record.manifest.slug@) == Some(i),
{
    let s = es[i].record.manifest.slug@;
    let w = choose|w: int| 0 <= w < es.len() && es[w].record.manifest.slug@ == s;
    if w != i {
        assert(es[w].record.manifest.slug@ != es[i].record.manifest.slug@);
    }
}

proof fn lemma_remove_entry(es: Seq<Entry>, j: int)
    requires
        distinct_slugs(es),
        0 <= j < es.len(),
    ensures
        distinct_slugs(es.remove(j)),
        entry_for(es.remove(j), es[j].record.manifest.slug@) is None,
        forall|s: Seq<char>| s != es[j].record.manifest.slug@ ==> #[trigger] entry_for(es.remove(j), s) == entry_for(es, s),
{
    let r = es.remove(j);
    assert forall|a: int, b: int| 0 <= a < r.len() && 0 <= b < r.len() && a != b implies r[a].record.manifest.slug@ != r[b].record.manifest.slug@ by {
        let a2 = if a < j { a } else { a + 1 };
        let b2 = if b < j { b } else { b + 1 };
        assert(r[a] == es[a2]);
        assert(r[b] == es[b2]);
    }
    let gone = es[j].record.manifest.slug@;
    if exists|i: int| 0 <= i < r.len() && r[i].record.manifest.slug@ == gone {
        let i = choose|i: int| 0 <= i < r.len() && r[i].record.manifest.slug@ == gone;
        let i2 = if i < j { i } else { i + 1 };
        assert(r[i] == es[i2]);
    }
    assert forall|s: Seq<char>| s != gone implies #[trigger] entry_for(r, s) == entry_for(es, s) by {
        if exists|i: int| 0 <= i < es.len() && es[i].record.manifest.slug@ == s {
            let i = choose|i: int| 0 <= i < es.len() && es[i].record.manifest.slug@ == s;
            lemma_position_at(es, i);
            let i2 = if i < j { i } else { i - 1 };
            assert(r[i2] == es[i]);
            lemma_position_at(r, i2);
        } else {
            if exists|i: int| 0 <= i < r.len() && r[i].record.manifest.slug@ == s {
                let i = choose|i: int| 0 <= i < r.len() && r[i].record.manifest.slug@ == s;
                let i2 = if i < j { i } else { i + 1 };
                assert(r[i] == es[i2]);
            }
        }
    }
}

proof fn lemma_put_entry(es: Seq<Entry>, e: Entry, r: Seq<Entry>)
    requires
        distinct_slugs(es),
        r == match position(es, e.record.manifest.slug@) {
            Some(k) => es.update(k, e),
            None => es.push(e),
        },
    ensures
        distinct_slugs(r),
        entry_for(r, e.record.manifest.slug@) == Some(e),
        forall|t: Seq<char>| t != e.record.manifest.slug@ ==> #[trigger] entry_for(r, t) == entry_for(es, t),
{
    let s = e.record.manifest.slug@;
    match position(es, s) {
        Some(k) => {
            let r = es.update(k, e);
            assert forall|a: int, b: int| 0 <= a < r.len() && 0 <= b < r.len() && a != b implies r[a].record.manifest.slug@ != r[b].record.manifest.slug@ by {
                if a != k && b != k {
                    assert(r[a] == es[a] && r[b] == es[b]);
                } else if a == k {
                    assert(r[b] == es[b]);
                    assert(es[k].record.manifest.slug@ == s);
                } else {
                    assert(r[a] == es[a]);
                    assert(es[k].record.manifest.slug@ == s);
                }
            }
            lemma_position_at(r, k);
            assert forall|t: Seq<char>| t != s implies #[trigger] entry_for(r, t) == entry_for(es, t) by {
                if exists|i: int| 0 <= i < es.len() && es[i].record.manifest.slug@ == t {
                    let i = choose|i: int| 0 <= i < es.len() && es[i].record.manifest.slug@ == t;
                    lemma_position_at(es, i);
                    assert(i != k);
                    assert(r[i] == es[i]);
                    lemma_position_at(r, i);
                } else if exists|i: int| 0 <= i < r.len() && r[i].record.manifest.slug@ == t {
                    let i = choose|i: int| 0 <= i < r.len() && r[i].record.manifest.slug@ == t;
                    if i != k {
                        assert(r[i] == es[i]);
                    }
                }
            }
        },
        None => {
            let r = es.push(e);
            assert forall|a: int, b: int| 0 <= a < r.len() && 0 <= b < r.len() && a != b implies r[a].record.manifest.slug@ != r[b].record.manifest.slug@ by {
                if a < es.len() && b < es.len() {
                    assert(r[a] == es[a] && r[b] == es[b]);
                } else if a < es.len() {
                    assert(r[a] == es[a]);
                } else {
                    assert(r[b] == es[b]);
                }
            }
            lemma_position_at(r, es.len() as int);
            assert forall|t: Seq<char>| t != s implies #[trigger] entry_for(r, t) == entry_for(es, t) by {
                if exists|i: int| 0 <= i < es.len() && es[i].record.manifest.slug@ == t {
                    let i = choose|i: int| 0 <= i < es.len() && es[i].record.manifest.slug@ == t;
                    lemma_position_at(es, i);
                    assert(r[i] == es[i]);
                    lemma_position_at(r, i);
                } else if exists|i: int| 0 <= i < r.len() && r[i].record.manifest.slug@ == t {
                    let i = choose|i: int| 0 <= i < r.len() && r[i].record.manifest.slug@ == t;
                    if i < es.len() {
                        assert(r[i] == es[i]);
                    }
                }
            }
        },
    }
}

/// Where `slug`'s record is among the records of a replace: the last one with
/// that slug whose folder resolved.
pub open spec fn last_kept_at(records: Seq<AppRecord>, roots: Seq<Option<String>>, slug: Seq<char>) -> Option<int>
    decreases records.len(),
{
    if records.len() == 0 || roots.len() != records.len() {
        None
    } else if roots.last() is Some && records.last().manifest.slug@ == slug {
        Some(records.len() - 1)
    } else {
        last_kept_at(records.drop_last(), roots.drop_last(), slug)
    }
}

/// Whether the record at `k` is announced by a replace with these records and
/// resolved folders: its folder resolved, and its app was not already on the
/// air before the replace - or an earlier record with the same slug already
/// took that announcement over.
pub open spec fn needs_announcing(lib: Library, records: Seq<AppRecord>, roots: Seq<Option<String>>, k: int) -> bool {
    &&& roots[k] is Some
    &&& (lib.announcement_for(records[k].manifest.slug@) is Some ==> last_kept_at(
        records.take(k),
        roots.take(k),
        records[k].manifest.slug@,
    ) is Some)
}

/// The slugs a replace announces, in record order, among the first `n`
/// records.
pub open spec fn announce_plan(lib: Library, records: Seq<AppRecord>, roots: Seq<Option<String>>, n: int) -> Seq<
    Seq<char>,
>
    decreases n,
{
    if n <= 0 {
        Seq::empty()
    } else if needs_announcing(lib, records, roots, n - 1) {
        announce_plan(lib, records, roots, n - 1).push(records[n - 1].manifest.slug@)
    } else {
        announce_plan(lib, records, roots, n - 1)
    }
}

/// Where the request for the record at `k` stands in the plan.
proof fn lemma_plan_grows(lib: Library, records: Seq<AppRecord>, roots: Seq<Option<String>>, k: int, n: int)
    requires
        0 <= k < n,
        needs_announcing(lib, records, roots, k),
    ensures
        announce_plan(lib, records, roots, k).len() < announce_plan(lib, records, roots, n).len(),
        announce_plan(lib, records, roots, n)[announce_plan(lib, records, roots, k).len() as int]
            == records[k].manifest.slug@,
    decreases n,
{
    if n == k + 1 {
    } else {
        lemma_plan_grows(lib, records, roots, k, n - 1);
    }
}

/// How many of the folders resolved.
pub open spec fn kept_count(roots: Seq<Option<String>>) -> nat
    decreases roots.len(),
{
    if roots.len() == 0 {
        0
    } else if roots.last() is Some {
        kept_count(roots.drop_last()) + 1
    } else {
        kept_count(roots.drop_last())
    }
}

/// No two records whose folders resolved share a slug.
pub open spec fn kept_distinct(records: Seq<AppRecord>, roots: Seq<Option<String>>) -> bool {
    forall|a: int, b: int|
        0 <= a < b < records.len() && b < roots.len() && roots[a] is Some && roots[b] is Some
            ==> #[trigger] records[a].manifest.slug@ != #[trigger] records[b].manifest.slug@
}

proof fn lemma_last_kept_facts(records: Seq<AppRecord>, roots: Seq<Option<String>>, slug: Seq<char>)
    requires
        records.len() == roots.len(),
    ensures
        last_kept_at(records, roots, slug) matches Some(k) ==> 0 <= k < records.len() && roots[k] is Some
            && records[k].manifest.slug@ == slug,
        last_kept_at(records, roots, slug) is None ==> forall|k: int|
            0 <= k < records.len() && roots[k] is Some ==> #[trigger] records[k].manifest.slug@ != slug,
    decreases records.len(),
{
    if records.len() > 0 {
        lemma_last_kept_facts(records.drop_last(), roots.drop_last(), slug);
        assert forall|k: int| 0 <= k < records.len() - 1 implies records.drop_last()[k] == records[k] && roots.drop_last()[k] == roots[k] by {}
    }
}

/// `hostname.trim()` without trailing dots, in ASCII lower case.
pub open spec fn normal_host(hostname: Seq<char>) -> Seq<char> {
    lower_seq(strip_end(trim(hostname), CharClass::Exactly('.')))
}

/// The public label inside a relay hostname, if it is one of this install's:
/// `<label>-<handle>.<domain>`, with the domain and handle both this
/// install's, split at the last hyphen, and nothing deeper than the domain.
pub open spec fn spec_label_in_host(identity: Option<(Seq<char>, Seq<char>)>, hostname: Seq<char>) -> Option<
    Seq<char>,
> {
    match identity {
        None => None,
        Some((handle, domain)) => {
            let host = normal_host(hostname);
            let suffix = seq!['.'] + domain;
            if host.len() >= suffix.len() && host.skip(host.len() - suffix.len()) == suffix {
                let label = host.take(host.len() - suffix.len());
                if has_char(label, '.') {
                    None
                } else {
                    match last_index(label, '-') {
                        None => None,
                        Some(k) => if label.skip(k + 1) == handle && k > 0 {
                            Some(label.take(k))
                        } else {
                            None
                        },
                    }
                }
            } else {
                None
            }
        },
    }
}

/// `<label>-<handle>.<domain>`.
pub open spec fn relay_host(label: Seq<char>, handle: Seq<char>, domain: Seq<char>) -> Seq<char> {
    label + seq!['-'] + handle + seq!['.'] + domain
}

fn find_in(es: &Vec<Entry>, slug: &Vec<char>) -> (r: Option<usize>)
    requires
        distinct_slugs(es@),
    ensures
        (match r {
            Some(i) => position(es@, slug@) == Some(i as int) && i < es.len() && es@[i as int].record.manifest.slug@ == slug@,
            None => position(es@, slug@) is None,
        }),
{
    let mut i: usize = 0;
    while i < es.len()
        invariant
            i <= es.len(),
            distinct_slugs(es@),
            forall|k: int| 0 <= k < i ==> es@[k].record.manifest.slug@ != slug@,
        decreases es.len() - i,
    {
        if crate::text::same(&chars_of(es[i].record.manifest.slug.as_str()), slug) {
            proof {
                lemma_position_at(es@, i as int);
            }
            return Some(i);
        }
        i = i + 1;
    }
    None
}

/// Announce `slug`, when there is an address to point it at.
fn announce_one<A: Announcer>(announcer: &mut A, slug: &str, addr: Option<u32>) -> (a: Option<Announcement>)
    requires
        old(announcer).inv(),
    ensures
        final(announcer).inv(),
        final(announcer).refuses() == old(announcer).refuses(),
        (match addr {
            None => a is None && *final(announcer) == *old(announcer),
            Some(at) => final(announcer).asked() == old(announcer).asked().push((slug@, at, a)) && (old(
                announcer,
            ).refuses() ==> a is None && final(announcer).refuses()),
        }),
{
    match addr {
        None => None,
        Some(at) => match announcer.announce(slug, at) {
            Ok(a) => Some(a),
            Err(_) => None,
        },
    }
}

impl Library {
    pub closed spec fn wf(&self) -> bool {
        distinct_slugs(self.apps@)
    }

    /// This install's handle and domain.
    pub closed spec fn identity(&self) -> Option<(Seq<char>, Seq<char>)> {
        match self.relay_identity {
            Some((h, d)) => Some((h@, d@)),
            None => None,
        }
    }

    /// The record served for `slug`, if it is in the library.
    pub closed spec fn record_for(&self, slug: Seq<char>) -> Option<AppRecord> {
        match position(self.apps@, slug) {
            Some(i) => Some(self.apps@[i].record),
            None => None,
        }
    }

    /// The announcement held for `slug`, if it is in the library and announced.
    pub closed spec fn announcement_for(&self, slug: Seq<char>) -> Option<Announcement> {
        match position(self.apps@, slug) {
            Some(i) => self.apps@[i].announcement,
            None => None,
        }
    }

    /// What the server is given for `slug`.
    pub closed spec fn served_for(&self, slug: Seq<char>) -> Option<ServedApp> {
        match position(self.apps@, slug) {
            Some(i) => Some(self.apps@[i].served),
            None => None,
        }
    }

    /// Whether the app `slug` is served from the folder it says.
    pub closed spec fn serves_from(&self, slug: Seq<char>, root: Seq<char>) -> bool {
        match position(self.apps@, slug) {
            Some(i) => served_from(self.apps@[i].record, root, self.apps@[i].served),
            None => false,
        }
    }

    /// How many apps are in the library.
    pub closed spec fn size(&self) -> nat {
        self.apps@.len()
    }

    /// The label an app in the library answers to on the internet.
    pub open spec fn label_of(&self, slug: Seq<char>) -> Option<Seq<char>> {
        match self.record_for(slug) {
            Some(r) => Some(spec_effective_label(r.manifest)),
            None => None,
        }
    }

    /// The announced hostname of an app in the library.
    pub open spec fn hostname_for(&self, slug: Seq<char>) -> Option<Seq<char>> {
        match self.announcement_for(slug) {
            Some(a) => Some(a.registered@ + ".local"@),
            None => None,
        }
    }

    /// What the library holds for an app, seen from each side: an app has a
    /// record exactly when it is served, an announcement only when it is in
    /// the library, and it is served from a folder exactly when what is served
    /// matches its record and that folder.
    pub proof fn lemma_views_agree(&self, slug: Seq<char>)
        ensures
            self.record_for(slug) is Some <==> self.served_for(slug) is Some,
            self.announcement_for(slug) is Some ==> self.record_for(slug) is Some,
            forall|root: Seq<char>|
                #[trigger] self.serves_from(slug, root) <==> (self.record_for(slug) matches Some(r)
                    && self.served_for(slug) matches Some(sa) && served_from(r, root, sa)),
    {
    }

    pub fn new() -> (l: Self)
        ensures
            l.wf(),
            l.identity() is None,
            l.size() == 0,
            forall|s: Seq<char>| #[trigger] l.record_for(s) is None,
            forall|s: Seq<char>| #[trigger] l.announcement_for(s) is None,
            forall|s: Seq<char>| #[trigger] l.served_for(s) is None,
    {
        Library { apps: Vec::new(), relay_identity: None }
    }

    /// Tell the library which public names belong to this machine: the handle
    /// and domain are kept trimmed and in lower case.
    pub fn set_relay_identity(&mut self, handle: Option<(String, String)>)
        requires
            old(self).wf(),
        ensures
            final(self).wf(),
            (match handle {
                Some((h, d)) => final(self).identity() == Some((lower_seq(trim(h@)), lower_seq(trim(d@)))),
                None => final(self).identity() is None,
            }),
            forall|s: Seq<char>| #[trigger] final(self).record_for(s) == old(self).record_for(s),
            forall|s: Seq<char>| #[trigger] final(self).announcement_for(s) == old(self).announcement_for(s),
            final(self).size() == old(self).size(),
    {
        self.relay_identity = match handle {
            Some((h, d)) => {
                let hh = lowercase(&trimmed(&chars_of(h.as_str())));
                let dd = lowercase(&trimmed(&chars_of(d.as_str())));
                Some((string_from(&hh), string_from(&dd)))
            },
            None => None,
        };
    }

    /// This machine's handle and domain.
    pub fn relay_identity(&self) -> (r: Option<(String, String)>)
        ensures
            (match r {
                Some((h, d)) => self.identity() == Some((h@, d@)),
                None => self.identity() is None,
            }),
    {
        match &self.relay_identity {
            Some((h, d)) => Some((h.clone(), d.clone())),
            None => None,
        }
    }

    fn find(&self, slug: &Vec<char>) -> (r: Option<usize>)
        requires
            self.wf(),
        ensures
            (match r {
                Some(i) => position(self.apps@, slug@) == Some(i as int) && i < self.apps.len(),
                None => position(self.apps@, slug@) is None,
            }),
    {
        let mut i: usize = 0;
        while i < self.apps.len()
            invariant
                i <= self.apps.len(),
                distinct_slugs(self.apps@),
                forall|k: int| 0 <= k < i ==> self.apps@[k].record.manifest.slug@ != slug@,
            decreases self.apps.len() - i,
        {
            if crate::text::same(&chars_of(self.apps[i].record.manifest.slug.as_str()), slug) {
                proof {
                    let es = self.apps@;
                    let w = choose|w: int| 0 <= w < es.len() && es[w].record.manifest.slug@ == slug@;
                    if w != i as int {
                        assert(es[w].record.manifest.slug@ != es[i as int].record.manifest.slug@);
                    }
                }
                return Some(i);
            }
            i = i + 1;
        }
        None
    }

    /// The public label inside a relay hostname, if it names one of this
    /// install's apps' addresses. Refuses rather than guesses.
    pub fn label_in_relay_host(&self, hostname: &str) -> (r: Option<String>)
        ensures
            (match r {
                Some(l) => spec_label_in_host(self.identity(), hostname@) == Some(l@),
                None => spec_label_in_host(self.identity(), hostname@) is None,
            }),
    {
        let (handle, domain) = match &self.relay_identity {
            None => return None,
            Some((h, d)) => (h, d),
        };
        let t = trimmed(&chars_of(hostname));
        let stripped = crate::mdns::strip_end_chars(&t, '.');
        let host = lowercase(&stripped);
        let mut suffix: Vec<char> = vec!['.'];
        append_str(&mut suffix, domain.as_str());
        assert(suffix@ =~= seq!['.'] + domain@);
        if host.len() < suffix.len() {
            return None;
        }
        let cut = host.len() - suffix.len();
        let tail = slice(&host, cut, host.len());
        assert(tail@ =~= host@.skip(cut as int));
        if !crate::text::same(&tail, &suffix) {
            return None;
        }
        let label = slice(&host, 0, cut);
        assert(label@ =~= host@.take(cut as int));
        if crate::text::contains_char(&label, '.') {
            return None;
        }
        let k = match find_last(&label, '-') {
            None => return None,
            Some(k) => k,
        };
        let claimed = slice(&label, k + 1, label.len());
        assert(claimed@ =~= label@.skip(k + 1));
        if crate::text::same(&claimed, &chars_of(handle.as_str())) && k > 0 {
            let l = slice(&label, 0, k);
            assert(l@ =~= label@.take(k as int));
            Some(string_from(&l))
        } else {
            None
        }
    }

    /// Which app answers to a public label, if any. Labels are compared
    /// trimmed and in lower case.
    /// Another app than `slug` that answers to `label`, if there is one. The
    /// label is compared as the library keeps labels: trimmed, in lower case.
    pub fn other_holder(&self, slug: &str, label: &str) -> (r: Option<String>)
        requires
            self.wf(),
        ensures
            (match r {
                Some(o) => o@ != slug@ && self.label_of(o@) == Some(lower_seq(trim(label@))),
                None => forall|o: Seq<char>|
                    o != slug@ ==> #[trigger] self.label_of(o) != Some(lower_seq(trim(label@))),
            }),
    {
        let want = lowercase(&trimmed(&chars_of(label)));
        let own = chars_of(slug);
        let mut i: usize = 0;
        while i < self.apps.len()
            invariant
                i <= self.apps.len(),
                distinct_slugs(self.apps@),
                want@ == lower_seq(trim(label@)),
                own@ == slug@,
                forall|k: int|
                    0 <= k < i ==> spec_effective_label(self.apps@[k].record.manifest) != want@
                        || self.apps@[k].record.manifest.slug@ == slug@,
            decreases self.apps.len() - i,
        {
            let m = &self.apps[i].record.manifest;
            if crate::text::same(&chars_of(m.effective_public_label()), &want) && !crate::text::same(
                &chars_of(m.slug.as_str()),
                &own,
            ) {
                let found = m.slug.clone();
                proof {
                    lemma_position_at(self.apps@, i as int);
                }
                return Some(found);
            }
            i = i + 1;
        }
        proof {
            assert forall|o: Seq<char>| o != slug@ implies #[trigger] self.label_of(o) != Some(want@) by {
                match position(self.apps@, o) {
                    Some(p) => {
                        lemma_position_at(self.apps@, p);
                    },
                    None => {},
                }
            }
        }
        None
    }

    pub fn slug_for_public_label(&self, label: &str) -> (r: Option<String>)
        requires
            self.wf(),
        ensures
            (match r {
                Some(s) => self.label_of(s@) == Some(lower_seq(trim(label@))),
                None => forall|s: Seq<char>| #[trigger] self.label_of(s) != Some(lower_seq(trim(label@))),
            }),
    {
        let want = lowercase(&trimmed(&chars_of(label)));
        let mut i: usize = 0;
        while i < self.apps.len()
            invariant
                i <= self.apps.len(),
                distinct_slugs(self.apps@),
                want@ == lower_seq(trim(label@)),
                forall|k: int| 0 <= k < i ==> spec_effective_label(self.apps@[k].record.manifest) != want@,
            decreases self.apps.len() - i,
        {
            let m = &self.apps[i].record.manifest;
            if crate::text::same(&chars_of(m.effective_public_label()), &want) {
                let slug = m.slug.clone();
                proof {
                    let es = self.apps@;
                    let w = choose|w: int| 0 <= w < es.len() && es[w].record.manifest.slug@ == slug@;
                    if w != i as int {
                        assert(es[w].record.manifest.slug@ != es[i as int].record.manifest.slug@);
                    }
                }
                return Some(slug);
            }
            i = i + 1;
        }
        proof {
            assert forall|s: Seq<char>| #[trigger] self.label_of(s) != Some(want@) by {
                match position(self.apps@, s) {
                    Some(p) => {
                        assert(spec_effective_label(self.apps@[p].record.manifest) != want@);
                    },
                    None => {},
                }
            }
        }
        None
    }

    /// The public name an app answers to, if this install has a handle: its
    /// label (the slug, lower-cased, for an app not in the library) joined to
    /// the handle and domain.
    pub fn public_host(&self, slug: &str) -> (r: Option<String>)
        requires
            self.wf(),
        ensures
            (match self.identity() {
                None => r is None,
                Some((handle, domain)) => {
                    let label = match self.label_of(trim(slug@)) {
                        Some(l) => l,
                        None => lower_seq(trim(slug@)),
                    };
                    if label.len() == 0 {
                        r is None
                    } else {
                        r matches Some(h) && h@ == relay_host(label, handle, domain)
                    }
                },
            }),
    {
        let (handle, domain) = match &self.relay_identity {
            None => return None,
            Some((h, d)) => (h, d),
        };
        let key = trimmed(&chars_of(slug));
        let label = match self.find(&key) {
            Some(i) => chars_of(self.apps[i].record.manifest.effective_public_label()),
            None => lowercase(&key),
        };
        if label.len() == 0 {
            return None;
        }
        let mut out = label;
        out.push('-');
        append_str(&mut out, handle.as_str());
        out.push('.');
        append_str(&mut out, domain.as_str());
        Some(string_from(&out))
    }

    /// Replace the whole library, announcing each app that is not already on
    /// the air.
    ///
    /// `roots[i]` is the canonical folder of `records[i]`, or `None` when it
    /// does not resolve; such an app is dropped rather than failing the swap.
    /// An app already announced keeps its announcement, so a rescan does not
    /// make every phone on the network re-resolve; a failed announcement only
    /// costs the app its `.local` name. Anything no longer in the records is
    /// gone, and with it its name.
    #[verifier::rlimit(60)]
    #[verifier::spinoff_prover]
    pub fn replace_announcing<A: Announcer>(
        &mut self,
        records: Vec<AppRecord>,
        roots: Vec<Option<String>>,
        announcer: &mut A,
        addr: Option<u32>,
    )
        requires
            old(self).wf(),
            records.len() == roots.len(),
            old(announcer).inv(),
        ensures
            final(self).wf(),
            final(announcer).inv(),
            final(announcer).refuses() == old(announcer).refuses(),
            final(self).identity() == old(self).identity(),
            forall|s: Seq<char>|
                #![trigger final(self).record_for(s)]
                (match last_kept_at(records@, roots@, s) {
                    None => final(self).record_for(s) is None,
                    Some(k) => final(self).record_for(s) == Some(records@[k]) && final(self).serves_from(
                        s,
                        roots@[k]->Some_0@,
                    ),
                }),
            kept_distinct(records@, roots@) ==> forall|s: Seq<char>|
                last_kept_at(records@, roots@, s) is Some && old(self).announcement_for(s) is Some
                    ==> #[trigger] final(self).announcement_for(s) == old(self).announcement_for(s),
            addr is None ==> *final(announcer) == *old(announcer),
            addr matches Some(at) ==> {
                let plan = announce_plan(*old(self), records@, roots@, records@.len() as int);
                &&& final(announcer).asked().len() == old(announcer).asked().len() + plan.len()
                &&& final(announcer).asked().take(old(announcer).asked().len() as int) == old(announcer).asked()
                &&& forall|j: int|
                    0 <= j < plan.len() ==> (#[trigger] final(announcer).asked()[old(announcer).asked().len() + j]).0
                        == plan[j] && final(announcer).asked()[old(announcer).asked().len() + j].1 == at
            },
            kept_distinct(records@, roots@) ==> final(self).size() == kept_count(roots@),
            old(announcer).refuses() ==> final(announcer).refuses() && (forall|j: int|
                old(announcer).asked().len() <= j < final(announcer).asked().len()
                    ==> #[trigger] final(announcer).asked()[j].2 is None),
            forall|s: Seq<char>|
                #![trigger final(self).announcement_for(s)]
                last_kept_at(records@, roots@, s) matches Some(k) ==> final(self).announcement_for(s) == if needs_announcing(
                    *old(self),
                    records@,
                    roots@,
                    k,
                ) {
                    match addr {
                        None => None,
                        Some(_) => final(announcer).asked()[(old(announcer).asked().len() + announce_plan(
                            *old(self),
                            records@,
                            roots@,
                            k,
                        ).len()) as int].2,
                    }
                } else {
                    old(self).announcement_for(s)
                },
            kept_distinct(records@, roots@) && (forall|k: int|
                0 <= k < records.len() && roots@[k] is Some ==> old(self).announcement_for(
                    #[trigger] records@[k].manifest.slug@,
                ) is Some) ==> *final(announcer) == *old(announcer),
    {
        let mut previous: Vec<Entry> = Vec::new();
        std::mem::swap(&mut previous, &mut self.apps);
        let ghost old_apps = previous@;
        let mut next: Vec<Entry> = Vec::new();
        let mut records = records;
        let mut roots = roots;
        let ghost recs = records@;
        let ghost rts = roots@;
        let ghost mut i: int = 0;
        assert(recs.skip(0) =~= recs);
        assert(rts.skip(0) =~= rts);
        while records.len() > 0
            invariant
                0 <= i <= recs.len(),
                recs.len() == rts.len(),
                records@ == recs.skip(i),
                roots@ == rts.skip(i),
                distinct_slugs(previous@),
                distinct_slugs(next@),
                distinct_slugs(old_apps),
                old_apps == old(self).apps@,
                self.relay_identity == old(self).relay_identity,
                forall|s: Seq<char>|
                    #![trigger last_kept_at(recs.take(i), rts.take(i), s)]
                    (match last_kept_at(recs.take(i), rts.take(i), s) {
                        None => entry_for(next@, s) is None && entry_for(previous@, s) == entry_for(
                            old_apps,
                            s,
                        ),
                        Some(k) => entry_for(next@, s) is Some && entry_for(next@, s)->Some_0.record
                            == recs[k] && served_from(
                            recs[k],
                            rts[k]->Some_0@,
                            entry_for(next@, s)->Some_0.served,
                        ) && entry_for(previous@, s) is None,
                    }),
                kept_distinct(recs.take(i), rts.take(i)) ==> forall|s: Seq<char>|
                    #![trigger last_kept_at(recs.take(i), rts.take(i), s)]
                    last_kept_at(recs.take(i), rts.take(i), s) is Some && entry_for(old_apps, s) is Some
                        && entry_for(old_apps, s)->Some_0.announcement is Some
                        ==> entry_for(next@, s)->Some_0.announcement == entry_for(
                        old_apps,
                        s,
                    )->Some_0.announcement,
                addr is None ==> *announcer == *old(announcer),
                announcer.inv(),
                announcer.refuses() == old(announcer).refuses(),
                addr matches Some(at) ==> {
                    let plan = announce_plan(*old(self), recs, rts, i);
                    &&& announcer.asked().len() == old(announcer).asked().len() + plan.len()
                    &&& announcer.asked().take(old(announcer).asked().len() as int) == old(announcer).asked()
                    &&& forall|j: int|
                        0 <= j < plan.len() ==> (#[trigger] announcer.asked()[old(announcer).asked().len() + j]).0
                            == plan[j] && announcer.asked()[old(announcer).asked().len() + j].1 == at
                },
                kept_distinct(recs.take(i), rts.take(i)) ==> next.len() == kept_count(rts.take(i)),
                old(announcer).refuses() ==> announcer.refuses() && (forall|j: int|
                    old(announcer).asked().len() <= j < announcer.asked().len()
                        ==> #[trigger] announcer.asked()[j].2 is None),
                forall|s: Seq<char>|
                    #![trigger last_kept_at(recs.take(i), rts.take(i), s)]
                    last_kept_at(recs.take(i), rts.take(i), s) matches Some(k) ==> entry_for(next@, s)->Some_0.announcement
                        == if needs_announcing(*old(self), recs, rts, k) {
                        match addr {
                            None => None,
                            Some(_) => announcer.asked()[(old(announcer).asked().len() + announce_plan(
                                *old(self),
                                recs,
                                rts,
                                k,
                            ).len()) as int].2,
                        }
                    } else {
                        old(self).announcement_for(s)
                    },
                kept_distinct(recs.take(i), rts.take(i)) && (forall|k: int|
                    0 <= k < i && rts[k] is Some ==> entry_for(
                        old_apps,
                        #[trigger] recs[k].manifest.slug@,
                    ) is Some && entry_for(old_apps, recs[k].manifest.slug@)->Some_0.announcement is Some)
                    ==> *announcer == *old(announcer),
            decreases records.len(),
        {
            let record = records.remove(0);
            let root = roots.remove(0);
            let ghost ii = i;
            proof {
                assert(record == recs[ii]);
                assert(root == rts[ii]);
                assert(recs.take(ii + 1).drop_last() =~= recs.take(ii));
                assert(rts.take(ii + 1).drop_last() =~= rts.take(ii));
                assert(recs.skip(ii + 1) =~= recs.skip(ii).subrange(1, recs.skip(ii).len() as int));
                assert(rts.skip(ii + 1) =~= rts.skip(ii).subrange(1, rts.skip(ii).len() as int));
                lemma_last_kept_facts(recs.take(ii), rts.take(ii), record.manifest.slug@);
                assert forall|k: int| 0 <= k < ii implies recs.take(ii + 1)[k] == recs.take(ii)[k] && rts.take(ii + 1)[k] == rts.take(ii)[k] by {}
            }
            match root {
                None => {
                    proof {
                        assert forall|s: Seq<char>| #[trigger] last_kept_at(recs.take(ii + 1), rts.take(ii + 1), s) == last_kept_at(recs.take(ii), rts.take(ii), s) by {}
                        assert(kept_distinct(recs.take(ii + 1), rts.take(ii + 1)) ==> kept_distinct(recs.take(ii), rts.take(ii)));
                        assert(kept_count(rts.take(ii + 1)) == kept_count(rts.take(ii)));
                    }
                },
                Some(root) => {
                    let slug_chars = chars_of(record.manifest.slug.as_str());
                    let slug = record.manifest.slug.clone();
                    let ghost s0 = slug@;
                    let ghost prev_before = previous@;
                    let found = find_in(&previous, &slug_chars);
                    let ghost asked_before = announcer.asked();
                    let ghost needs_here = needs_announcing(*old(self), recs, rts, ii);
                    proof {
                        assert(recs[ii].manifest.slug@ == s0);
                        assert(old(self).announcement_for(s0) == match entry_for(old_apps, s0) {
                            Some(e) => e.announcement,
                            None => None,
                        });
                        if last_kept_at(recs.take(ii), rts.take(ii), s0) is None {
                            assert(entry_for(prev_before, s0) == entry_for(old_apps, s0));
                        } else {
                            assert(entry_for(prev_before, s0) is None);
                        }
                    }
                    let announcement = match found {
                        Some(j) => {
                            proof {
                                lemma_remove_entry(previous@, j as int);
                                assert(entry_for(prev_before, s0) == Some(prev_before[j as int]));
                            }
                            let e = previous.remove(j);
                            assert(e == prev_before[j as int]);
                            assert(previous@ == prev_before.remove(j as int));
                            match e.announcement {
                                Some(a) => {
                                    proof {
                                        assert(old(self).announcement_for(s0) == Some(a));
                                        assert(!needs_here);
                                    }
                                    Some(a)
                                },
                                None => {
                                    proof {
                                        assert(old(self).announcement_for(s0) is None);
                                        assert(needs_here);
                                    }
                                    announce_one(announcer, slug.as_str(), addr)
                                },
                            }
                        },
                        None => {
                            proof {
                                assert(entry_for(prev_before, s0) is None);
                                assert(needs_here);
                            }
                            announce_one(announcer, slug.as_str(), addr)
                        },
                    };
                    proof {
                        if needs_here {
                            match addr {
                                None => assert(announcement is None),
                                Some(at) => assert(announcer.asked() == asked_before.push((s0, at, announcement))),
                            }
                        } else {
                            assert(announcement == old(self).announcement_for(s0));
                            assert(announcer.asked() == asked_before);
                        }
                    }
                    let served = ServedApp {
                        paused: record.manifest.paused,
                        slug: record.manifest.slug.clone(),
                        name: record.manifest.name.clone(),
                        root,
                        entry: record.manifest.entry.clone(),
                        visibility: record.manifest.visibility,
                        relay: record.manifest.relay,
                    };
                    let entry = Entry { record, served, announcement };
                    let ghost next_before = next@;
                    match find_in(&next, &slug_chars) {
                        Some(k) => {
                            next.set(k, entry);
                        },
                        None => {
                            next.push(entry);
                        },
                    }
                    proof {
                        assert(next@ == match position(next_before, s0) {
                            Some(k) => next_before.update(k, entry),
                            None => next_before.push(entry),
                        });
                        lemma_put_entry(next_before, entry, next@);
                        assert forall|s: Seq<char>| s != s0 implies #[trigger] last_kept_at(recs.take(ii + 1), rts.take(ii + 1), s) == last_kept_at(recs.take(ii), rts.take(ii), s) by {}
                        assert(last_kept_at(recs.take(ii + 1), rts.take(ii + 1), s0) == Some(ii));
                        assert(entry_for(next@, s0) == Some(entry));
                        assert(entry_for(previous@, s0) is None) by {
                            match found {
                                Some(j) => {},
                                None => {},
                            }
                        }
                        assert forall|s: Seq<char>| s != s0 implies #[trigger] entry_for(previous@, s) == entry_for(prev_before, s) by {
                            match found {
                                Some(j) => {
                                    lemma_remove_entry(prev_before, j as int);
                                    assert(previous@ == prev_before.remove(j as int));
                                    assert(prev_before[j as int].record.manifest.slug@ == s0);
                                },
                                None => {},
                            }
                        }
                        match found {
                            Some(j) => {
                                assert(entry_for(prev_before, s0) == Some(prev_before[j as int]));
                            },
                            None => {
                                assert(entry_for(prev_before, s0) is None);
                            },
                        }
                        assert forall|s: Seq<char>|
                            #![trigger last_kept_at(recs.take(ii + 1), rts.take(ii + 1), s)]
                            (match last_kept_at(recs.take(ii + 1), rts.take(ii + 1), s) {
                                None => entry_for(next@, s) is None && entry_for(previous@, s) == entry_for(
                                    old_apps,
                                    s,
                                ),
                                Some(k) => entry_for(next@, s) is Some && entry_for(next@, s)->Some_0.record
                                    == recs[k] && served_from(
                                    recs[k],
                                    rts[k]->Some_0@,
                                    entry_for(next@, s)->Some_0.served,
                                ) && entry_for(previous@, s) is None,
                            }) by {
                            if s == s0 {
                            } else {
                                assert(last_kept_at(recs.take(ii), rts.take(ii), s) == last_kept_at(recs.take(ii + 1), rts.take(ii + 1), s));
                            }
                        }
                        assert forall|s: Seq<char>|
                            #![trigger last_kept_at(recs.take(ii + 1), rts.take(ii + 1), s)]
                            last_kept_at(recs.take(ii + 1), rts.take(ii + 1), s) matches Some(k) ==> entry_for(
                                next@,
                                s,
                            )->Some_0.announcement == if needs_announcing(*old(self), recs, rts, k) {
                                match addr {
                                    None => None,
                                    Some(_) => announcer.asked()[(old(announcer).asked().len() + announce_plan(
                                        *old(self),
                                        recs,
                                        rts,
                                        k,
                                    ).len()) as int].2,
                                }
                            } else {
                                old(self).announcement_for(s)
                            } by {
                            if s == s0 {
                                assert(entry_for(next@, s0) == Some(entry));
                            } else {
                                assert(last_kept_at(recs.take(ii), rts.take(ii), s) == last_kept_at(recs.take(ii + 1), rts.take(ii + 1), s));
                                if let Some(k) = last_kept_at(recs.take(ii), rts.take(ii), s) {
                                    if needs_announcing(*old(self), recs, rts, k) {
                                        lemma_last_kept_facts(recs.take(ii), rts.take(ii), s);
                                        lemma_plan_grows(*old(self), recs, rts, k, ii);
                                    }
                                }
                            }
                        }
                        if kept_distinct(recs.take(ii + 1), rts.take(ii + 1)) {
                            assert(kept_distinct(recs.take(ii), rts.take(ii)));
                            assert forall|k: int| 0 <= k < ii && rts.take(ii)[k] is Some implies recs.take(ii)[k].manifest.slug@ != s0 by {
                                assert(recs.take(ii + 1)[k] == recs.take(ii)[k]);
                                assert(rts.take(ii + 1)[k] == rts.take(ii)[k]);
                                assert(recs.take(ii + 1)[ii] == recs[ii]);
                            }
                            assert(last_kept_at(recs.take(ii), rts.take(ii), s0) is None);
                            assert(entry_for(next_before, s0) is None);
                            assert(next@.len() == next_before.len() + 1);
                            assert(kept_count(rts.take(ii + 1)) == kept_count(rts.take(ii)) + 1);
                            assert forall|s: Seq<char>|
                                #![trigger last_kept_at(recs.take(ii + 1), rts.take(ii + 1), s)]
                                last_kept_at(recs.take(ii + 1), rts.take(ii + 1), s) is Some && entry_for(old_apps, s) is Some
                                    && entry_for(old_apps, s)->Some_0.announcement is Some
                                    ==> entry_for(next@, s)->Some_0.announcement == entry_for(
                                    old_apps,
                                    s,
                                )->Some_0.announcement by {
                                if s == s0 {
                                } else {
                                    assert(last_kept_at(recs.take(ii), rts.take(ii), s) == last_kept_at(recs.take(ii + 1), rts.take(ii + 1), s));
                                }
                            }
                        }
                    }
                },
            }
            proof {
                i = i + 1;
            }
        }
        proof {
            assert(recs.skip(i).len() == 0);
            assert(recs.take(i) =~= recs);
            assert(rts.take(i) =~= rts);
        }
        self.apps = next;
    }

    /// Replace the whole library without announcing anything.
    pub fn replace(&mut self, records: Vec<AppRecord>, roots: Vec<Option<String>>)
        requires
            old(self).wf(),
            records.len() == roots.len(),
        ensures
            final(self).wf(),
            final(self).identity() == old(self).identity(),
            forall|s: Seq<char>|
                #![trigger final(self).record_for(s)]
                (match last_kept_at(records@, roots@, s) {
                    None => final(self).record_for(s) is None,
                    Some(k) => final(self).record_for(s) == Some(records@[k]) && final(self).serves_from(
                        s,
                        roots@[k]->Some_0@,
                    ),
                }),
    {
        let mut none = crate::mdns::UnsupportedAnnouncer::new();
        self.replace_announcing(records, roots, &mut none, None);
    }

    /// Whether `r` is what a request for `hostname` is served: an app whose
    /// announced `.local` name it is, or else the app whose public label a relay
    /// hostname of this install names.
    pub open spec fn resolves(&self, hostname: Seq<char>, r: Option<ServedApp>) -> bool {
        if exists|s: Seq<char>| #[trigger] self.hostname_for(s) == Some(hostname) {
            r is Some && exists|s: Seq<char>|
                #[trigger] self.hostname_for(s) == Some(hostname) && self.served_for(s) == r
        } else {
            match spec_label_in_host(self.identity(), hostname) {
                None => r is None,
                Some(l) => if exists|s: Seq<char>| #[trigger] self.label_of(s) == Some(lower_seq(trim(l))) {
                    r is Some && exists|s: Seq<char>|
                        #[trigger] self.label_of(s) == Some(lower_seq(trim(l))) && self.served_for(s) == r
                } else {
                    r is None
                },
            }
        }
    }

    /// The app a request for `hostname` is for, if any.
    pub fn get_by_hostname(&self, hostname: &str) -> (r: Option<ServedApp>)
        requires
            self.wf(),
        ensures
            self.resolves(hostname@, r),
    {
        let want = chars_of(hostname);
        let mut i: usize = 0;
        while i < self.apps.len()
            invariant
                i <= self.apps.len(),
                distinct_slugs(self.apps@),
                want@ == hostname@,
                forall|k: int| 0 <= k < i ==> !(#[trigger] self.apps@[k].announcement matches Some(a)
                    && a.registered@ + ".local"@ == hostname@),
            decreases self.apps.len() - i,
        {
            match &self.apps[i].announcement {
                Some(a) => {
                    let h = a.hostname();
                    if crate::text::same(&chars_of(h.as_str()), &want) {
                        let served = self.apps[i].served.copy();
                        proof {
                            lemma_position_at(self.apps@, i as int);
                            assert(self.hostname_for(self.apps@[i as int].record.manifest.slug@) == Some(hostname@));
                        }
                        return Some(served);
                    }
                },
                None => {},
            }
            i = i + 1;
        }
        proof {
            assert forall|s: Seq<char>| #[trigger] self.hostname_for(s) != Some(hostname@) by {
                match position(self.apps@, s) {
                    Some(p) => {
                        assert(!(self.apps@[p].announcement matches Some(a) && a.registered@ + ".local"@ == hostname@));
                    },
                    None => {},
                }
            }
        }
        let label = match self.label_in_relay_host(hostname) {
            None => return None,
            Some(l) => l,
        };
        let slug = match self.slug_for_public_label(label.as_str()) {
            None => return None,
            Some(s) => s,
        };
        self.get(slug.as_str())
    }

    /// Every record in the library, in no particular order.
    pub closed spec fn all_records(&self) -> Seq<AppRecord> {
        self.apps@.map_values(|e: Entry| e.record)
    }

    /// What the server is given for every app, in no particular order.
    pub closed spec fn all_served(&self) -> Seq<ServedApp> {
        self.apps@.map_values(|e: Entry| e.served)
    }

    /// Every record, ordered by name without regard to case.
    pub fn records(&self) -> (r: Vec<AppRecord>)
        ensures
            r@.to_multiset() == self.all_records().to_multiset(),
            sorted_keys(r@.map_values(|x: AppRecord| unicode_lower(x.manifest.name@))),
    {
        let mut out: Vec<AppRecord> = Vec::new();
        let mut keys: Vec<Vec<char>> = Vec::new();
        let mut i: usize = 0;
        let ghost all = self.all_records();
        assert(all.take(0) =~= out@);
        while i < self.apps.len()
            invariant
                i <= self.apps.len(),
                all == self.apps@.map_values(|e: Entry| e.record),
                out.len() == keys.len(),
                out@.to_multiset() == all.take(i as int).to_multiset(),
                key_views(keys@) == out@.map_values(|x: AppRecord| unicode_lower(x.manifest.name@)),
                sorted_keys(key_views(keys@)),
            decreases self.apps.len() - i,
        {
            let rec = self.apps[i].record.copy();
            let key = chars_of(unicode_lowercase(rec.manifest.name.as_str()).as_str());
            let ghost before = out@;
            let ghost kb = key_views(keys@);
            insert_by_key(&mut out, &mut keys, rec, key);
            proof {
                let p = choose|p: int|
                    0 <= p <= before.len() && out@ == before.insert(p, rec) && key_views(keys@)
                        == kb.insert(p, key@);
                vstd::seq_lib::to_multiset_insert(before, p, rec);
                assert(all.take(i as int + 1) =~= all.take(i as int).push(rec));
                vstd::seq_lib::to_multiset_build(all.take(i as int), rec);
                assert(out@.map_values(|x: AppRecord| unicode_lower(x.manifest.name@)) =~= before.map_values(
                    |x: AppRecord| unicode_lower(x.manifest.name@),
                ).insert(p, unicode_lower(rec.manifest.name@)));
            }
            i = i + 1;
        }
        assert(all.take(i as int) =~= all);
        out
    }

    /// What the server is given for every app, ordered by name without regard
    /// to case.
    pub fn list(&self) -> (r: Vec<ServedApp>)
        ensures
            r@.to_multiset() == self.all_served().to_multiset(),
            sorted_keys(r@.map_values(|x: ServedApp| unicode_lower(x.name@))),
    {
        let mut out: Vec<ServedApp> = Vec::new();
        let mut keys: Vec<Vec<char>> = Vec::new();
        let mut i: usize = 0;
        let ghost all = self.all_served();
        assert(all.take(0) =~= out@);
        while i < self.apps.len()
            invariant
                i <= self.apps.len(),
                all == self.apps@.map_values(|e: Entry| e.served),
                out.len() == keys.len(),
                out@.to_multiset() == all.take(i as int).to_multiset(),
                key_views(keys@) == out@.map_values(|x: ServedApp| unicode_lower(x.name@)),
                sorted_keys(key_views(keys@)),
            decreases self.apps.len() - i,
        {
            let app = self.apps[i].served.copy();
            let key = chars_of(unicode_lowercase(app.name.as_str()).as_str());
            let ghost before = out@;
            let ghost kb = key_views(keys@);
            insert_by_key(&mut out, &mut keys, app, key);
            proof {
                let p = choose|p: int|
                    0 <= p <= before.len() && out@ == before.insert(p, app) && key_views(keys@)
                        == kb.insert(p, key@);
                vstd::seq_lib::to_multiset_insert(before, p, app);
                assert(all.take(i as int + 1) =~= all.take(i as int).push(app));
                vstd::seq_lib::to_multiset_build(all.take(i as int), app);
                assert(out@.map_values(|x: ServedApp| unicode_lower(x.name@)) =~= before.map_values(
                    |x: ServedApp| unicode_lower(x.name@),
                ).insert(p, unicode_lower(app.name@)));
            }
            i = i + 1;
        }
        assert(all.take(i as int) =~= all);
        out
    }

    /// The announced hostname for an app, if it has one.
    pub fn hostname(&self, slug: &str) -> (r: Option<String>)
        requires
            self.wf(),
        ensures
            (match r {
                Some(h) => self.hostname_for(slug@) == Some(h@),
                None => self.hostname_for(slug@) is None,
            }),
    {
        match self.find(&chars_of(slug)) {
            Some(i) => match &self.apps[i].announcement {
                Some(a) => Some(a.hostname()),
                None => None,
            },
            None => None,
        }
    }

    /// The record for an app, if it is in the library.
    pub fn record(&self, slug: &str) -> (r: Option<AppRecord>)
        requires
            self.wf(),
        ensures
            r == self.record_for(slug@),
    {
        match self.find(&chars_of(slug)) {
            Some(i) => Some(self.apps[i].record.copy()),
            None => None,
        }
    }

    /// What the server needs for an app, if it is in the library.
    pub fn get(&self, slug: &str) -> (r: Option<ServedApp>)
        requires
            self.wf(),
        ensures
            r == self.served_for(slug@),
    {
        match self.find(&chars_of(slug)) {
            Some(i) => Some(self.apps[i].served.copy()),
            None => None,
        }
    }

    pub fn len(&self) -> (n: usize)
        ensures
            n == self.size(),
    {
        self.apps.len()
    }

    pub fn is_empty(&self) -> (b: bool)
        ensures
            b == (self.size() == 0),
    {
        self.apps.len() == 0
    }
}


/// A label that can stand in a public hostname as it is: not empty, no dot,
/// lower case, no blank at either end.
pub open spec fn plain_label(l: Seq<char>) -> bool {
    &&& l.len() > 0
    &&& !has_char(l, '.')
    &&& lower_seq(l) == l
    &&& !crate::text::is_white(l[0])
    &&& !crate::text::is_white(l.last())
}

/// A handle as accounts issue them: lower case, with no hyphen (which is what
/// makes the split at the last hyphen unambiguous) and no dot.
pub open spec fn plain_handle(h: Seq<char>) -> bool {
    &&& !has_char(h, '-')
    &&& !has_char(h, '.')
    &&& lower_seq(h) == h
}

/// A domain as this install is configured with it: lower case, not ending in
/// a dot or a blank.
pub open spec fn plain_domain(d: Seq<char>) -> bool {
    &&& d.len() > 0
    &&& lower_seq(d) == d
    &&& d.last() != '.'
    &&& !crate::text::is_white(d.last())
}

/// The name the window hands out is the one the daemon answers to: reading
/// the label back out of `<label>-<handle>.<domain>` gives the label.
pub proof fn lemma_relay_name_round_trip(label: Seq<char>, handle: Seq<char>, domain: Seq<char>)
    requires
        plain_label(label),
        plain_handle(handle),
        plain_domain(domain),
    ensures
        spec_label_in_host(Some((handle, domain)), relay_host(label, handle, domain)) == Some(label),
{
    let h = relay_host(label, handle, domain);
    let front = label + seq!['-'] + handle;
    let suffix = seq!['.'] + domain;
    assert(h =~= front + suffix);
    assert(h[0] == label[0]);
    assert(h.last() == domain.last());
    assert(crate::text::strip_start(h, CharClass::Whitespace) == h);
    assert(strip_end(h, CharClass::Whitespace) == h);
    assert(trim(h) == h);
    assert(strip_end(h, CharClass::Exactly('.')) == h);
    assert forall|i: int| 0 <= i < h.len() implies crate::text::lower(#[trigger] h[i]) == h[i] by {
        if i < label.len() {
            assert(lower_seq(label)[i] == label[i]);
        } else if i == label.len() {
        } else if i < label.len() + 1 + handle.len() {
            assert(lower_seq(handle)[i - label.len() - 1] == handle[i - label.len() - 1]);
        } else if i == label.len() + 1 + handle.len() {
        } else {
            let j = i - label.len() - 2 - handle.len();
            assert(lower_seq(domain)[j] == domain[j]);
        }
    }
    assert(lower_seq(h) =~= h);
    assert(normal_host(h) == h);
    assert(h.skip(h.len() - suffix.len()) =~= suffix);
    assert(h.take(h.len() - suffix.len()) =~= front);
    assert(!has_char(front, '.')) by {
        if has_char(front, '.') {
            let i = choose|i: int| 0 <= i < front.len() && front[i] == '.';
            if i < label.len() {
                assert(label[i] == '.');
            } else if i > label.len() {
                assert(handle[i - label.len() - 1] == '.');
            }
        }
    }
    let k = label.len() as int;
    assert(front[k] == '-');
    assert forall|j: int| k < j < front.len() implies front[j] != '-' by {
        assert(front[j] == handle[j - k - 1]);
    }
    let w = choose|i: int| 0 <= i < front.len() && front[i] == '-' && forall|j: int| i < j < front.len() ==> front[j] != '-';
    assert(w == k) by {
        if w < k {
            assert(front[k] != '-');
        } else if w > k {
            assert(front[w] == handle[w - k - 1]);
        }
    }
    assert(last_index(front, '-') == Some(k));
    assert(front.skip(k + 1) =~= handle);
    assert(front.take(k) =~= label);
}

impl Library {
    /// A request for an app's public hostname reaches that app, as long as no
    /// other app answers to the same label and no announced `.local` name is
    /// spelled the same way.
    pub proof fn lemma_public_host_reaches_its_app(&self, slug: Seq<char>, r: Option<ServedApp>)
        requires
            self.wf(),
            self.identity() matches Some((handle, domain)) && plain_handle(handle) && plain_domain(domain),
            self.label_of(slug) matches Some(label) && plain_label(label),
            forall|other: Seq<char>| other != slug ==> #[trigger] self.label_of(other) != self.label_of(slug),
            forall|s: Seq<char>| #[trigger] self.hostname_for(s) != Some(relay_host(
                self.label_of(slug)->Some_0,
                self.identity()->Some_0.0,
                self.identity()->Some_0.1,
            )),
            self.resolves(
                relay_host(self.label_of(slug)->Some_0, self.identity()->Some_0.0, self.identity()->Some_0.1),
                r,
            ),
        ensures
            r == self.served_for(slug),
    {
        let label = self.label_of(slug)->Some_0;
        let (handle, domain) = self.identity()->Some_0;
        lemma_relay_name_round_trip(label, handle, domain);
        assert(strip_end(label, CharClass::Whitespace) == label);
        assert(crate::text::strip_start(label, CharClass::Whitespace) == label);
        assert(lower_seq(trim(label)) == label);
        assert(self.label_of(slug) == Some(lower_seq(trim(label))));
        let s = choose|s: Seq<char>| #[trigger] self.label_of(s) == Some(lower_seq(trim(label))) && self.served_for(s) == r;
        if s != slug {
            assert(self.label_of(s) != self.label_of(slug));
        }
    }
}

} // verus!
