//! Folder name to URL-safe slug.
//!
//! The slug becomes a hostname (`trip-planner.local`) and a path prefix, so it
//! has to survive DNS: lowercase, ASCII alphanumerics and hyphens, no leading
//! or trailing hyphen, non-empty, at most 63 characters.

use vstd::prelude::*;

use crate::text::{
    CharClass, append, ascii_alnum, chars_of, in_class, is_ascii_alnum, lower, same, string_from,
    strip_end, to_lower,
};

verus! {

/// The longest a hostname label may be.
pub const MAX_LABEL: usize = 63;

/// One step of the scan: alphanumerics are kept lower-cased, and every run of
/// anything else becomes a single hyphen, never at the start.
pub open spec fn slug_scan(s: Seq<char>) -> Seq<char>
    decreases s.len(),
{
    if s.len() == 0 {
        Seq::empty()
    } else {
        let prev = slug_scan(s.drop_last());
        let c = s.last();
        if is_ascii_alnum(c) {
            prev.push(lower(c))
        } else if prev.len() > 0 && prev.last() != '-' {
            prev.push('-')
        } else {
            prev
        }
    }
}

pub open spec fn app_word() -> Seq<char> {
    seq!['a', 'p', 'p']
}

/// `slugify`, as a function on characters.
pub open spec fn spec_slugify(name: Seq<char>) -> Seq<char> {
    let t = strip_end(slug_scan(name), CharClass::Exactly('-'));
    let u = if t.len() > MAX_LABEL {
        strip_end(t.take(MAX_LABEL as int), CharClass::Exactly('-'))
    } else {
        t
    };
    if u.len() == 0 {
        app_word()
    } else {
        u
    }
}

/// A lower-case ASCII letter or digit.
pub open spec fn is_slug_alnum(c: char) -> bool {
    ('a' <= c && c <= 'z') || ('0' <= c && c <= '9')
}

/// What a hostname label may be: 1 to 63 of `[a-z0-9-]`, starting and ending
/// with a letter or digit.
pub open spec fn is_dns_label(s: Seq<char>) -> bool {
    &&& 1 <= s.len() <= MAX_LABEL
    &&& forall|i: int| 0 <= i < s.len() ==> is_slug_alnum(#[trigger] s[i]) || s[i] == '-'
    &&& is_slug_alnum(s[0])
    &&& is_slug_alnum(s.last())
}

/// Only lower-case alphanumerics and hyphens, and never a hyphen first.
pub open spec fn scan_shape(s: Seq<char>) -> bool {
    &&& forall|i: int| 0 <= i < s.len() ==> is_slug_alnum(#[trigger] s[i]) || s[i] == '-'
    &&& s.len() > 0 ==> is_slug_alnum(s[0])
}

proof fn lemma_scan_shape(s: Seq<char>)
    ensures
        scan_shape(slug_scan(s)),
    decreases s.len(),
{
    if s.len() > 0 {
        lemma_scan_shape(s.drop_last());
        let prev = slug_scan(s.drop_last());
        let c = s.last();
        if is_ascii_alnum(c) {
            assert(is_slug_alnum(lower(c)));
            assert(forall|i: int| 0 <= i < prev.len() ==> prev.push(lower(c))[i] == prev[i]);
        } else if prev.len() > 0 && prev.last() != '-' {
            assert(forall|i: int| 0 <= i < prev.len() ==> prev.push('-')[i] == prev[i]);
        }
    }
}

/// Trimming trailing characters leaves a prefix, with none of them at its end.
pub proof fn lemma_strip_end_prefix(s: Seq<char>, class: CharClass)
    ensures
        strip_end(s, class).len() <= s.len(),
        strip_end(s, class) == s.take(strip_end(s, class).len() as int),
        strip_end(s, class).len() > 0 ==> !in_class(class, strip_end(s, class).last()),
    decreases s.len(),
{
    if s.len() > 0 && in_class(class, s.last()) {
        lemma_strip_end_prefix(s.drop_last(), class);
        let r = strip_end(s.drop_last(), class);
        assert(r == s.drop_last().take(r.len() as int));
        assert(s.drop_last().take(r.len() as int) =~= s.take(r.len() as int));
    } else {
        assert(s.take(s.len() as int) =~= s);
    }
}

proof fn lemma_prefix_shape(s: Seq<char>, k: int)
    requires
        scan_shape(s),
        0 <= k <= s.len(),
    ensures
        scan_shape(s.take(k)),
{
}

/// Whatever goes in, a usable hostname label comes out.
pub proof fn lemma_slugify_is_label(name: Seq<char>)
    ensures
        is_dns_label(spec_slugify(name)),
{
    let a = slug_scan(name);
    lemma_scan_shape(name);
    let dash = CharClass::Exactly('-');
    let t = strip_end(a, dash);
    lemma_strip_end_prefix(a, dash);
    lemma_prefix_shape(a, t.len() as int);
    if t.len() > MAX_LABEL {
        let t63 = t.take(MAX_LABEL as int);
        lemma_prefix_shape(t, MAX_LABEL as int);
        let u = strip_end(t63, dash);
        lemma_strip_end_prefix(t63, dash);
        lemma_prefix_shape(t63, u.len() as int);
    }
    let r = spec_slugify(name);
    if r == app_word() {
        assert(is_slug_alnum(r[0]));
    }
}

/// Drop trailing hyphens in place.
fn pop_hyphens(out: &mut Vec<char>)
    ensures
        final(out)@ == strip_end(old(out)@, CharClass::Exactly('-')),
{
    while out.len() > 0 && out[out.len() - 1] == '-'
        invariant
            strip_end(old(out)@, CharClass::Exactly('-')) == strip_end(
                out@,
                CharClass::Exactly('-'),
            ),
        decreases out.len(),
    {
        let ghost before = out@;
        out.pop();
        assert(out@ =~= before.drop_last());
    }
}

/// Slugify a folder name. Never fails: anything unusable becomes `app`.
pub fn slugify(name: &str) -> (slug: String)
    ensures
        slug@ == spec_slugify(name@),
        is_dns_label(slug@),
{
    let cs = chars_of(name);
    let mut out: Vec<char> = Vec::new();
    let mut i: usize = 0;
    while i < cs.len()
        invariant
            i <= cs.len(),
            out@ == slug_scan(cs@.take(i as int)),
        decreases cs.len() - i,
    {
        let c = cs[i];
        assert(cs@.take((i + 1) as int).drop_last() =~= cs@.take(i as int));
        if ascii_alnum(c) {
            out.push(to_lower(c));
        } else if out.len() > 0 && out[out.len() - 1] != '-' {
            out.push('-');
        }
        i = i + 1;
    }
    assert(cs@.take(cs.len() as int) =~= cs@);
    pop_hyphens(&mut out);
    if out.len() > MAX_LABEL {
        out.truncate(MAX_LABEL);
        pop_hyphens(&mut out);
    }
    proof {
        lemma_slugify_is_label(name@);
    }
    if out.len() == 0 {
        let app = vec!['a', 'p', 'p'];
        assert(app@ =~= app_word());
        string_from(&app)
    } else {
        string_from(&out)
    }
}

/// `base-n`, with `n` written in decimal.
pub open spec fn suffixed(base: Seq<char>, n: nat) -> Seq<char> {
    base + seq!['-'] + crate::decimal::digits(n)
}

/// `deduplicate`, as a function: the base if it is free, otherwise the first
/// free `base-n` for `n` from 2 below 1000, and `base-<count+1>` past that.
pub open spec fn spec_deduplicate(base: Seq<char>, taken: Seq<Seq<char>>) -> Seq<char> {
    if !taken.contains(base) {
        base
    } else if exists|n: nat| 2 <= n < 1000 && !taken.contains(suffixed(base, n)) {
        let n = choose|n: nat|
            2 <= n < 1000 && !taken.contains(suffixed(base, n)) && forall|m: nat|
                2 <= m < n ==> taken.contains(#[trigger] suffixed(base, m));
        suffixed(base, n)
    } else {
        suffixed(base, (taken.len() + 1) as nat)
    }
}

pub open spec fn views(v: Seq<String>) -> Seq<Seq<char>> {
    v.map_values(|s: String| s@)
}

/// Whether `candidate` is one of `taken`.
pub fn is_taken(candidate: &Vec<char>, taken: &[String]) -> (b: bool)
    ensures
        b == views(taken@).contains(candidate@),
{
    let mut i: usize = 0;
    while i < taken.len()
        invariant
            i <= taken.len(),
            forall|k: int| 0 <= k < i ==> taken@[k]@ != candidate@,
        decreases taken.len() - i,
    {
        let t = chars_of(taken[i].as_str());
        if same(&t, candidate) {
            assert(views(taken@)[i as int] == candidate@);
            return true;
        }
        i = i + 1;
    }
    proof {
        if views(taken@).contains(candidate@) {
            let k = choose|k: int| 0 <= k < views(taken@).len() && views(taken@)[k] == candidate@;
            assert(taken@[k]@ == candidate@);
        }
    }
    false
}

/// Suffix until unique. Two folders can slugify the same way ("My App" and
/// "my-app"), and a slug is a hostname, so collisions have to resolve rather
/// than one app silently shadowing another.
pub fn deduplicate(base: &str, taken: &[String]) -> (slug: String)
    requires
        taken.len() < usize::MAX,
    ensures
        slug@ == spec_deduplicate(base@, views(taken@)),
        views(taken@).len() < 998 ==> !views(taken@).contains(slug@),
{
    let b = chars_of(base);
    if !is_taken(&b, taken) {
        return string_from(&b);
    }
    let mut n: u64 = 2;
    while n < 1000
        invariant
            2 <= n <= 1000,
            b@ == base@,
            views(taken@).contains(base@),
            forall|m: nat| 2 <= m < n ==> views(taken@).contains(#[trigger] suffixed(base@, m)),
        decreases 1000 - n,
    {
        let mut candidate = b.clone();
        candidate.push('-');
        let digits = crate::decimal::format_u64(n);
        append(&mut candidate, &digits);
        assert(candidate@ =~= suffixed(base@, n as nat));
        if !is_taken(&candidate, taken) {
            proof {
                let w = n as nat;
                assert(2 <= w < 1000 && !views(taken@).contains(suffixed(base@, w)));
                let c = choose|c: nat|
                    2 <= c < 1000 && !views(taken@).contains(suffixed(base@, c)) && forall|m: nat|
                        2 <= m < c ==> views(taken@).contains(#[trigger] suffixed(base@, m));
                assert(c == w) by {
                    if c < w {
                        assert(views(taken@).contains(suffixed(base@, c)));
                    } else if c > w {
                        assert(views(taken@).contains(suffixed(base@, w)));
                    }
                }
            }
            return string_from(&candidate);
        }
        n = n + 1;
    }
    proof {
        assert(!exists|m: nat| 2 <= m < 1000 && !views(taken@).contains(suffixed(base@, m)));
        if views(taken@).len() < 998 {
            crate::decimal::lemma_suffixes_distinct(base@);
            lemma_too_few_to_block(base@, views(taken@));
        }
    }
    let mut candidate = b.clone();
    candidate.push('-');
    let digits = crate::decimal::format_u64((taken.len() as u64) + 1);
    append(&mut candidate, &digits);
    assert(candidate@ =~= suffixed(base@, (views(taken@).len() + 1) as nat));
    string_from(&candidate)
}

/// Covering all 998 suffixes takes at least 998 taken names.
proof fn lemma_too_few_to_block(base: Seq<char>, taken: Seq<Seq<char>>)
    requires
        forall|m: nat, k: nat| m != k ==> #[trigger] suffixed(base, m) != #[trigger] suffixed(base, k),
        forall|m: nat| 2 <= m < 1000 ==> taken.contains(#[trigger] suffixed(base, m)),
    ensures
        taken.len() >= 998,
{
    let f = |m: int| suffixed(base, m as nat);
    let dom = vstd::set_lib::set_int_range(2, 1000);
    vstd::set_lib::lemma_int_range(2, 1000);
    let image = dom.map(f);
    assert forall|y: Seq<char>| image.contains(y) implies taken.to_set().contains(y) by {
        let m = choose|m: int| dom.contains(m) && f(m) == y;
        assert(taken.contains(suffixed(base, m as nat)));
    }
    assert(image.subset_of(taken.to_set()));
    taken.lemma_cardinality_of_set();
    assert(vstd::relations::injective_on(f, dom)) by {
        assert forall|a: int, b: int| dom.contains(a) && dom.contains(b) && #[trigger] f(a) == #[trigger] f(b) implies a == b by {
            if a != b {
                assert(suffixed(base, a as nat) != suffixed(base, b as nat));
            }
        }
    }
    vstd::set_lib::lemma_map_size(dom, image, f);
    vstd::set_lib::lemma_len_subset(image, taken.to_set());
}


/// `base`, a separator, and `n` in decimal: `notes-2`, `Notes 2`.
pub open spec fn numbered(base: Seq<char>, sep: char, n: nat) -> Seq<char> {
    base + seq![sep] + crate::decimal::digits(n)
}

/// Whether some number in `2..limit` gives a name not in `taken`.
pub open spec fn has_free_number(base: Seq<char>, sep: char, taken: Seq<Seq<char>>, limit: nat) -> bool {
    exists|n: nat| 2 <= n < limit && !taken.contains(#[trigger] numbered(base, sep, n))
}

/// The least number in `2..limit` that gives a name not in `taken`.
pub open spec fn least_free_number(base: Seq<char>, sep: char, taken: Seq<Seq<char>>, limit: nat) -> nat {
    choose|n: nat|
        2 <= n < limit && !taken.contains(numbered(base, sep, n)) && forall|m: nat|
            2 <= m < n ==> taken.contains(#[trigger] numbered(base, sep, m))
}

/// `base-m` and `base-n` (for any one separator) differ whenever `m` and `n` do.
pub proof fn lemma_numbered_distinct(base: Seq<char>, sep: char)
    ensures
        forall|m: nat, k: nat|
            m != k ==> #[trigger] numbered(base, sep, m) != #[trigger] numbered(base, sep, k),
{
    assert forall|m: nat, k: nat| m != k implies numbered(base, sep, m) != numbered(base, sep, k) by {
        if numbered(base, sep, m) == numbered(base, sep, k) {
            let p = base + seq![sep];
            assert((p + crate::decimal::digits(m)).subrange(p.len() as int, (p + crate::decimal::digits(m)).len() as int)
                =~= crate::decimal::digits(m));
            assert((p + crate::decimal::digits(k)).subrange(p.len() as int, (p + crate::decimal::digits(k)).len() as int)
                =~= crate::decimal::digits(k));
            crate::decimal::lemma_digits_injective(m, k);
        }
    }
}

/// Taking every name `base-2 .. base-(limit-1)` takes at least `limit - 2` names.
pub proof fn lemma_numbers_run_out(base: Seq<char>, sep: char, taken: Seq<Seq<char>>, limit: nat)
    requires
        limit >= 2,
        forall|m: nat| 2 <= m < limit ==> taken.contains(#[trigger] numbered(base, sep, m)),
    ensures
        taken.len() >= limit - 2,
{
    lemma_numbered_distinct(base, sep);
    let f = |m: int| numbered(base, sep, m as nat);
    let dom = vstd::set_lib::set_int_range(2, limit as int);
    vstd::set_lib::lemma_int_range(2, limit as int);
    let image = dom.map(f);
    assert forall|y: Seq<char>| image.contains(y) implies taken.to_set().contains(y) by {
        let m = choose|m: int| dom.contains(m) && f(m) == y;
        assert(taken.contains(numbered(base, sep, m as nat)));
    }
    assert(image.subset_of(taken.to_set()));
    taken.lemma_cardinality_of_set();
    assert(vstd::relations::injective_on(f, dom)) by {
        assert forall|a: int, b: int| dom.contains(a) && dom.contains(b) && #[trigger] f(a) == #[trigger] f(b) implies a == b by {
            if a != b {
                assert(numbered(base, sep, a as nat) != numbered(base, sep, b as nat));
            }
        }
    }
    vstd::set_lib::lemma_map_size(dom, image, f);
    vstd::set_lib::lemma_len_subset(image, taken.to_set());
}

/// The first number from 2 whose name is free, or `limit` when every number
/// below `limit` is taken.
pub fn first_free_number(base: &Vec<char>, sep: char, taken: &[String], limit: u64) -> (n: u64)
    requires
        2 <= limit,
    ensures
        2 <= n <= limit,
        forall|m: nat| 2 <= m < n ==> views(taken@).contains(#[trigger] numbered(base@, sep, m)),
        n < limit <==> has_free_number(base@, sep, views(taken@), limit as nat),
        n < limit ==> n == least_free_number(base@, sep, views(taken@), limit as nat),
        n < limit ==> !views(taken@).contains(numbered(base@, sep, n as nat)),
{
    let mut n: u64 = 2;
    while n < limit
        invariant
            2 <= n <= limit,
            forall|m: nat| 2 <= m < n ==> views(taken@).contains(#[trigger] numbered(base@, sep, m)),
        decreases limit - n,
    {
        let mut candidate = base.clone();
        candidate.push(sep);
        let digits = crate::decimal::format_u64(n);
        append(&mut candidate, &digits);
        assert(candidate@ =~= numbered(base@, sep, n as nat));
        if !is_taken(&candidate, taken) {
            proof {
                let t = views(taken@);
                let w = n as nat;
                assert(2 <= w < limit && !t.contains(numbered(base@, sep, w)));
                let c = choose|c: nat|
                    2 <= c < limit && !t.contains(numbered(base@, sep, c)) && forall|m: nat|
                        2 <= m < c ==> t.contains(#[trigger] numbered(base@, sep, m));
                assert(c == w) by {
                    if c < w {
                        assert(t.contains(numbered(base@, sep, c)));
                    } else if c > w {
                        assert(t.contains(numbered(base@, sep, w)));
                    }
                }
            }
            return n;
        }
        n = n + 1;
    }
    n
}

/// A copy of a list of strings.
pub fn clone_strings(v: &Vec<String>) -> (r: Vec<String>)
    ensures
        r@ == v@,
{
    let mut r: Vec<String> = Vec::new();
    let mut i: usize = 0;
    while i < v.len()
        invariant
            i <= v.len(),
            r@ == v@.take(i as int),
        decreases v.len() - i,
    {
        r.push(v[i].clone());
        i = i + 1;
        assert(r@ =~= v@.take(i as int));
    }
    assert(v@.take(i as int) =~= v@);
    r
}
} // verus!
