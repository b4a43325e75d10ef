//! The daemon's own decisions around serving: which ports to try, how an
//! origin is written, and what a rescan changed.

use vstd::prelude::*;

use crate::decimal::{digits, format_u64, parse_i64, parse_i64_chars};
use crate::access::Visibility;
use crate::registry::AppRecord;
use crate::slug::views;
use crate::text::{append, append_str, chars_of, string_from, trim, trimmed};

verus! {

/// The ports tried by default, in order: 80 first so URLs need no port, then
/// a high port for when something else already has it.
pub open spec fn default_ports() -> Seq<u16> {
    seq![80u16, 8420u16, 8421u16, 8422u16]
}

/// `text` split at every `c`: always at least one piece, as `str::split` does.
pub open spec fn split_on(text: Seq<char>, c: char) -> Seq<Seq<char>>
    decreases text.len(),
{
    if text.len() == 0 {
        seq![Seq::<char>::empty()]
    } else {
        let r = split_on(text.drop_last(), c);
        if text.last() == c {
            r.push(Seq::<char>::empty())
        } else {
            r.update(r.len() - 1, r.last().push(text.last()))
        }
    }
}

proof fn lemma_split_nonempty(text: Seq<char>, c: char)
    ensures
        split_on(text, c).len() >= 1,
    decreases text.len(),
{
    if text.len() > 0 {
        lemma_split_nonempty(text.drop_last(), c);
    }
}

/// What `str::parse::<u16>` makes of some text.
pub open spec fn spec_parse_u16(s: Seq<char>) -> Option<u16> {
    if s.len() > 0 && s[0] == '-' {
        None
    } else {
        match parse_i64(s) {
            Some(v) => if 0 <= v <= 65535 {
                Some(v as u16)
            } else {
                None
            },
            None => None,
        }
    }
}

/// The ports some pieces of text name, skipping any that name none.
pub open spec fn parsed_ports(pieces: Seq<Seq<char>>) -> Seq<u16>
    decreases pieces.len(),
{
    if pieces.len() == 0 {
        Seq::empty()
    } else {
        let before = parsed_ports(pieces.drop_last());
        match spec_parse_u16(trim(pieces.last())) {
            Some(p) => before.push(p),
            None => before,
        }
    }
}

/// The ports to try this run: those a comma-separated setting names, or the
/// defaults when it is unset or names none.
pub open spec fn spec_ports(setting: Option<Seq<char>>) -> Seq<u16> {
    match setting {
        None => default_ports(),
        Some(raw) => {
            let p = parsed_ports(split_on(raw, ','));
            if p.len() == 0 {
                default_ports()
            } else {
                p
            }
        },
    }
}

fn parse_u16(s: &Vec<char>) -> (r: Option<u16>)
    ensures
        (match r {
            Some(p) => spec_parse_u16(s@) == Some(p),
            None => spec_parse_u16(s@) is None,
        }),
{
    if s.len() > 0 && s[0] == '-' {
        return None;
    }
    match parse_i64_chars(s) {
        Some(v) => if 0 <= v && v <= 65535 {
            Some(v as u16)
        } else {
            None
        },
        None => None,
    }
}

fn default_port_list() -> (v: Vec<u16>)
    ensures
        v@ == default_ports(),
{
    let v = vec![80u16, 8420u16, 8421u16, 8422u16];
    assert(v@ =~= default_ports());
    v
}

/// The ports to try, from the `KT_PORTS` setting if there is one.
pub fn ports_from(setting: Option<&str>) -> (v: Vec<u16>)
    ensures
        v@ == spec_ports(match setting {
            Some(s) => Some(s@),
            None => None,
        }),
{
    let raw = match setting {
        None => return default_port_list(),
        Some(r) => chars_of(r),
    };
    // Walk the text once, splitting at commas as `split_on` does.
    let mut pieces_done: Vec<u16> = Vec::new();
    let mut current: Vec<char> = Vec::new();
    let mut i: usize = 0;
    proof {
        lemma_split_nonempty(raw@.take(0), ',');
        assert(raw@.take(0) =~= Seq::<char>::empty());
    }
    while i < raw.len()
        invariant
            i <= raw.len(),
            ({
                let pieces = split_on(raw@.take(i as int), ',');
                &&& pieces.len() >= 1
                &&& current@ == pieces.last()
                &&& pieces_done@ == parsed_ports(pieces.drop_last())
            }),
        decreases raw.len() - i,
    {
        let ghost before = split_on(raw@.take(i as int), ',');
        proof {
            assert(raw@.take(i as int + 1).drop_last() =~= raw@.take(i as int));
        }
        if raw[i] == ',' {
            let piece = trimmed(&current);
            match parse_u16(&piece) {
                Some(p) => pieces_done.push(p),
                None => {},
            }
            current = Vec::new();
            proof {
                let after = before.push(Seq::<char>::empty());
                assert(after.drop_last() =~= before);
                assert(before.drop_last().push(before.last()) =~= before);
            }
        } else {
            current.push(raw[i]);
            proof {
                let after = before.update(before.len() - 1, before.last().push(raw@[i as int]));
                assert(after.drop_last() =~= before.drop_last());
            }
        }
        i = i + 1;
    }
    let piece = trimmed(&current);
    match parse_u16(&piece) {
        Some(p) => pieces_done.push(p),
        None => {},
    }
    proof {
        let pieces = split_on(raw@.take(i as int), ',');
        assert(raw@.take(i as int) =~= raw@);
        assert(pieces.drop_last().push(pieces.last()) =~= pieces);
    }
    if pieces_done.len() == 0 {
        default_port_list()
    } else {
        pieces_done
    }
}

/// An origin, with the port left off when it is the default.
pub open spec fn spec_origin(host: Seq<char>, port: u16) -> Seq<char> {
    if port == 80 {
        "http://"@ + host
    } else {
        "http://"@ + host + seq![':'] + digits(port as nat)
    }
}

/// `http://host`, or `http://host:port` when the port has to be typed.
pub fn origin_for(host: &str, port: u16) -> (o: String)
    ensures
        o@ == spec_origin(host@, port),
{
    let mut out: Vec<char> = Vec::new();
    append_str(&mut out, "http://");
    append_str(&mut out, host);
    if port != 80 {
        out.push(':');
        let d = format_u64(port as u64);
        append(&mut out, &d);
    }
    string_from(&out)
}

/// Enough of an app to tell "nothing moved" from "something the window should
/// redraw".
#[derive(Debug, Clone, PartialEq, Eq)]
pub struct AppFingerprint {
    pub version: u32,
    pub visibility: Visibility,
    pub size_bytes: u64,
    pub deployed_at: Option<u64>,
    pub entry_exists: bool,
    pub name: String,
}

/// Whether two records look the same to the window.
pub open spec fn same_fingerprint(a: AppRecord, b: AppRecord) -> bool {
    &&& a.manifest.version == b.manifest.version
    &&& a.manifest.visibility == b.manifest.visibility
    &&& a.size_bytes == b.size_bytes
    &&& a.deployed_at == b.deployed_at
    &&& a.entry_exists == b.entry_exists
    &&& a.manifest.name@ == b.manifest.name@
}

pub fn fingerprint(record: &AppRecord) -> (f: AppFingerprint)
    ensures
        f.version == record.manifest.version,
        f.visibility == record.manifest.visibility,
        f.size_bytes == record.size_bytes,
        f.deployed_at == record.deployed_at,
        f.entry_exists == record.entry_exists,
        f.name@ == record.manifest.name@,
{
    AppFingerprint {
        version: record.manifest.version,
        visibility: record.manifest.visibility,
        size_bytes: record.size_bytes,
        deployed_at: record.deployed_at,
        entry_exists: record.entry_exists,
        name: record.manifest.name.clone(),
    }
}

fn fingerprints_match(a: &AppRecord, b: &AppRecord) -> (r: bool)
    ensures
        r == same_fingerprint(*a, *b),
{
    a.manifest.version == b.manifest.version && a.manifest.visibility == b.manifest.visibility
        && a.size_bytes == b.size_bytes && a.deployed_at == b.deployed_at && a.entry_exists
        == b.entry_exists && a.manifest.name == b.manifest.name
}

/// The record a rescan's `before` list holds for `slug`: the last with it.
pub open spec fn last_with_slug(before: Seq<AppRecord>, slug: Seq<char>) -> Option<AppRecord>
    decreases before.len(),
{
    if before.len() == 0 {
        None
    } else if before.last().manifest.slug@ == slug {
        Some(before.last())
    } else {
        last_with_slug(before.drop_last(), slug)
    }
}

/// Whether the window has to hear about `record` after a rescan: it is new,
/// or it looks different from before.
pub open spec fn is_changed(before: Seq<AppRecord>, record: AppRecord) -> bool {
    match last_with_slug(before, record.manifest.slug@) {
        Some(b) => !same_fingerprint(b, record),
        None => true,
    }
}

pub open spec fn has_slug(records: Seq<AppRecord>, slug: Seq<char>) -> bool {
    exists|i: int| 0 <= i < records.len() && #[trigger] records[i].manifest.slug@ == slug
}

proof fn lemma_has_slug_step(before: Seq<AppRecord>, j: int, s: Seq<char>)
    requires
        0 <= j < before.len(),
    ensures
        has_slug(before.take(j + 1), s) <==> (has_slug(before.take(j), s) || before[j].manifest.slug@ == s),
{
    if has_slug(before.take(j + 1), s) {
        let x = choose|x: int| 0 <= x < j + 1 && #[trigger] before.take(j + 1)[x].manifest.slug@ == s;
        if x < j {
            assert(before.take(j)[x].manifest.slug@ == s);
        }
    }
    if has_slug(before.take(j), s) {
        let x = choose|x: int| 0 <= x < j && #[trigger] before.take(j)[x].manifest.slug@ == s;
        assert(before.take(j + 1)[x].manifest.slug@ == s);
    }
    if before[j].manifest.slug@ == s {
        assert(before.take(j + 1)[j].manifest.slug@ == s);
    }
}

/// The records of a scan that the owner has not told the daemon to forget:
/// those whose folder is not among `forgotten`, in order. The folders
/// themselves stay on disk.
pub open spec fn spec_not_forgotten(records: Seq<AppRecord>, forgotten: Seq<Seq<char>>) -> Seq<AppRecord>
    decreases records.len(),
{
    if records.len() == 0 {
        records
    } else if forgotten.contains(records.last().path@) {
        spec_not_forgotten(records.drop_last(), forgotten)
    } else {
        spec_not_forgotten(records.drop_last(), forgotten).push(records.last())
    }
}

fn is_forgotten(forgotten: &[String], path: &String) -> (b: bool)
    ensures
        b == views(forgotten@).contains(path@),
{
    let mut j: usize = 0;
    while j < forgotten.len()
        invariant
            j <= forgotten.len(),
            forall|k: int| 0 <= k < j ==> (#[trigger] forgotten@[k])@ != path@,
        decreases forgotten.len() - j,
    {
        if crate::text::same_text(forgotten[j].as_str(), path.as_str()) {
            assert(views(forgotten@)[j as int] == path@);
            return true;
        }
        j = j + 1;
    }
    proof {
        if views(forgotten@).contains(path@) {
            let k = choose|k: int| 0 <= k < views(forgotten@).len() && views(forgotten@)[k] == path@;
            assert(forgotten@[k]@ == path@);
        }
    }
    false
}

pub fn not_forgotten(records: Vec<AppRecord>, forgotten: &[String]) -> (r: Vec<AppRecord>)
    ensures
        r@ == spec_not_forgotten(records@, views(forgotten@)),
{
    let mut out: Vec<AppRecord> = Vec::new();
    let mut i: usize = 0;
    while i < records.len()
        invariant
            i <= records.len(),
            out@ == spec_not_forgotten(records@.take(i as int), views(forgotten@)),
        decreases records.len() - i,
    {
        proof {
            assert(records@.take(i as int + 1).drop_last() =~= records@.take(i as int));
        }
        if !is_forgotten(forgotten, &records[i].path) {
            out.push(records[i].copy());
        }
        i = i + 1;
    }
    assert(records@.take(i as int) =~= records@);
    out
}

/// Why the daemon serves less well than it should.
#[derive(Debug, Clone, Copy, PartialEq, Eq, Structural)]
pub enum DegradedReason {
    /// The preferred port was taken, so apps are on a fallback port.
    PortFallback,
    /// No responder for `.local` names on this machine.
    MdnsUnavailable,
}

/// How well the daemon is serving, as the window shows it.
#[derive(Debug, Clone, PartialEq, Eq)]
pub enum ServingState {
    Serving,
    Paused,
    Degraded { reason: DegradedReason, message: String },
}

/// Whether listening on the port at `index` among the candidates degrades
/// serving: anything but the first is a fallback.
pub fn port_degraded(index: usize) -> (r: Option<DegradedReason>)
    ensures
        r == if index > 0 { Some(DegradedReason::PortFallback) } else { None },
{
    if index > 0 {
        Some(DegradedReason::PortFallback)
    } else {
        None
    }
}

/// How the daemon is serving once it listens on `port`: degraded by a port
/// fallback first, then by missing `.local` names, else serving.
pub fn serving_state(port_degraded: Option<DegradedReason>, mdns_live: bool, port: u16) -> (s: ServingState)
    ensures
        (match port_degraded {
            Some(reason) => s matches ServingState::Degraded { reason: got, message } && got == reason
                && message@ == "Port 80 was already in use, so apps are served on port "@ + digits(port as nat)
                + " for now."@,
            None => if mdns_live {
                s == ServingState::Serving
            } else {
                s matches ServingState::Degraded { reason: got, message } && got == DegradedReason::MdnsUnavailable
                    && message@
                    == "Friendly .local names are not available, so apps are reachable by IP address instead."@
            },
        }),
{
    match port_degraded {
        Some(reason) => {
            let mut m = chars_of("Port 80 was already in use, so apps are served on port ");
            let d = format_u64(port as u64);
            append(&mut m, &d);
            append_str(&mut m, " for now.");
            ServingState::Degraded { reason, message: string_from(&m) }
        },
        None => {
            if mdns_live {
                ServingState::Serving
            } else {
                ServingState::Degraded {
                    reason: DegradedReason::MdnsUnavailable,
                    message: "Friendly .local names are not available, so apps are reachable by IP address instead.".to_owned(),
                }
            }
        },
    }
}

/// What a rescan changed, as the window needs to hear it.
#[derive(Debug)]
pub struct Changes {
    /// Positions in the new list of the apps that are new or look different.
    pub changed: Vec<usize>,
    /// The slugs that are gone, each once.
    pub removed: Vec<String>,
}

fn last_index_with_slug(before: &[AppRecord], slug: &Vec<char>) -> (r: Option<usize>)
    ensures
        (match r {
            Some(j) => j < before.len() && last_with_slug(before@, slug@) == Some(before@[j as int]),
            None => last_with_slug(before@, slug@) is None,
        }),
{
    let mut j = before.len();
    assert(before@.take(j as int) =~= before@);
    while j > 0
        invariant
            j <= before.len(),
            last_with_slug(before@, slug@) == last_with_slug(before@.take(j as int), slug@),
        decreases j,
    {
        proof {
            assert(before@.take(j as int).drop_last() =~= before@.take(j as int - 1));
        }
        if crate::text::same(&chars_of(before[j - 1].manifest.slug.as_str()), slug) {
            return Some(j - 1);
        }
        j = j - 1;
    }
    None
}

/// What changed between two listings of the library.
pub fn changes(before: &[AppRecord], after: &[AppRecord]) -> (c: Changes)
    ensures
        forall|k: int| 0 <= k < c.changed@.len() ==> c.changed@[k] < after.len(),
        forall|k: int, l: int| 0 <= k < l < c.changed@.len() ==> c.changed@[k] < c.changed@[l],
        forall|i: int|
            0 <= i < after.len() ==> (is_changed(before@, after@[i]) <==> c.changed@.contains(
                i as usize,
            )),
        forall|s: Seq<char>|
            views(c.removed@).contains(s) <==> (has_slug(before@, s) && !has_slug(after@, s)),
        forall|k: int, l: int| 0 <= k < l < c.removed@.len() ==> c.removed@[k]@ != c.removed@[l]@,
{
    let mut changed: Vec<usize> = Vec::new();
    let mut i: usize = 0;
    while i < after.len()
        invariant
            i <= after.len(),
            forall|k: int| 0 <= k < changed@.len() ==> changed@[k] < i,
            forall|k: int, l: int| 0 <= k < l < changed@.len() ==> changed@[k] < changed@[l],
            forall|x: int| 0 <= x < i ==> (is_changed(before@, after@[x]) <==> changed@.contains(x as usize)),
        decreases after.len() - i,
    {
        let slug = chars_of(after[i].manifest.slug.as_str());
        let differs = match last_index_with_slug(before, &slug) {
            Some(j) => !fingerprints_match(&before[j], &after[i]),
            None => true,
        };
        assert(differs == is_changed(before@, after@[i as int]));
        let ghost old_changed = changed@;
        if differs {
            changed.push(i);
        }
        proof {
            assert forall|x: int| 0 <= x < i + 1 implies (is_changed(before@, after@[x]) <==> changed@.contains(x as usize)) by {
                if x < i {
                    if changed@.contains(x as usize) {
                        let k = choose|k: int| 0 <= k < changed@.len() && changed@[k] == x as usize;
                        if k < old_changed.len() {
                            assert(old_changed[k] == x as usize);
                        }
                    }
                    if old_changed.contains(x as usize) {
                        let k = choose|k: int| 0 <= k < old_changed.len() && old_changed[k] == x as usize;
                        assert(changed@[k] == x as usize);
                    }
                } else {
                    if differs {
                        assert(changed@[changed@.len() - 1] == x as usize);
                    } else {
                        if changed@.contains(x as usize) {
                            let k = choose|k: int| 0 <= k < changed@.len() && changed@[k] == x as usize;
                            assert(old_changed[k] < i);
                        }
                    }
                }
            }
        }
        i = i + 1;
    }
    let mut removed: Vec<String> = Vec::new();
    let mut j: usize = 0;
    while j < before.len()
        invariant
            j <= before.len(),
            forall|s: Seq<char>|
                #[trigger] views(removed@).contains(s) <==> (has_slug(before@.take(j as int), s) && !has_slug(after@, s)),
            forall|k: int, l: int| 0 <= k < l < removed@.len() ==> removed@[k]@ != removed@[l]@,
        decreases before.len() - j,
    {
        let slug = chars_of(before[j].manifest.slug.as_str());
        let mut present = false;
        let mut a: usize = 0;
        while a < after.len()
            invariant
                a <= after.len(),
                present <==> exists|x: int| 0 <= x < a && #[trigger] after@[x].manifest.slug@ == slug@,
            decreases after.len() - a,
        {
            if crate::text::same(&chars_of(after[a].manifest.slug.as_str()), &slug) {
                present = true;
            }
            a = a + 1;
        }
        assert(present <==> has_slug(after@, slug@));
        let already = crate::slug::is_taken(&slug, removed.as_slice());
        let ghost old_removed = removed@;
        if !present && !already {
            removed.push(before[j].manifest.slug.clone());
            proof {
                assert(views(removed@) =~= views(old_removed).push(slug@));
            }
        }
        proof {
            assert forall|t: Seq<char>|
                #[trigger] views(removed@).contains(t) <==> (has_slug(before@.take(j as int + 1), t) && !has_slug(after@, t)) by {
                lemma_has_slug_step(before@, j as int, t);
                assert(views(old_removed).contains(t) <==> (has_slug(before@.take(j as int), t) && !has_slug(after@, t)));
                if !present && !already {
                    assert(views(removed@) == views(old_removed).push(slug@));
                } else {
                    assert(removed@ == old_removed);
                }
                if views(removed@).contains(t) {
                    let k = choose|k: int| 0 <= k < views(removed@).len() && views(removed@)[k] == t;
                    if k < old_removed.len() {
                        assert(views(old_removed)[k] == t);
                    }
                }
                if views(old_removed).contains(t) {
                    let k = choose|k: int| 0 <= k < views(old_removed).len() && views(old_removed)[k] == t;
                    assert(views(removed@)[k] == t);
                }
                if t == slug@ && !present && !already {
                    assert(views(removed@)[views(removed@).len() - 1] == t);
                }
            }
            assert forall|k: int, l: int| 0 <= k < l < removed@.len() implies removed@[k]@ != removed@[l]@ by {
                if l == removed@.len() - 1 && !present && !already && l >= old_removed.len() {
                    assert(views(old_removed)[k] == removed@[k]@);
                } else {
                    assert(removed@[k] == old_removed[k] && removed@[l] == old_removed[l]);
                }
            }
        }
        j = j + 1;
    }
    proof {
        assert(before@.take(j as int) =~= before@);
    }
    Changes { changed, removed }
}

} // verus!
