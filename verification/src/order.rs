//! Ordering text the way `str` and `String` compare: character by character,
//! by code point, a prefix first.

use vstd::prelude::*;

verus! {

/// Whether `a` sorts no later than `b`.
pub open spec fn lex_le(a: Seq<char>, b: Seq<char>) -> bool
    decreases a.len(),
{
    if a.len() == 0 {
        true
    } else if b.len() == 0 {
        false
    } else if a[0] != b[0] {
        a[0] < b[0]
    } else {
        lex_le(a.drop_first(), b.drop_first())
    }
}

/// Any two texts are ordered one way or the other.
pub proof fn lemma_lex_total(a: Seq<char>, b: Seq<char>)
    ensures
        lex_le(a, b) || lex_le(b, a),
    decreases a.len(),
{
    if a.len() > 0 && b.len() > 0 && a[0] == b[0] {
        lemma_lex_total(a.drop_first(), b.drop_first());
    }
}

/// The order is transitive.
pub proof fn lemma_lex_trans(a: Seq<char>, b: Seq<char>, c: Seq<char>)
    requires
        lex_le(a, b),
        lex_le(b, c),
    ensures
        lex_le(a, c),
    decreases a.len(),
{
    if a.len() > 0 && b.len() > 0 && c.len() > 0 && a[0] == b[0] && b[0] == c[0] {
        lemma_lex_trans(a.drop_first(), b.drop_first(), c.drop_first());
    }
}

/// Whether `a` sorts no later than `b`.
pub fn text_le(a: &Vec<char>, b: &Vec<char>) -> (r: bool)
    ensures
        r == lex_le(a@, b@),
{
    let mut i: usize = 0;
    assert(a@.skip(0) =~= a@);
    assert(b@.skip(0) =~= b@);
    while i < a.len() && i < b.len() && a[i] == b[i]
        invariant
            i <= a.len(),
            i <= b.len(),
            lex_le(a@, b@) == lex_le(a@.skip(i as int), b@.skip(i as int)),
        decreases a.len() - i,
    {
        proof {
            let x = a@.skip(i as int);
            let y = b@.skip(i as int);
            assert(x.drop_first() =~= a@.skip(i as int + 1));
            assert(y.drop_first() =~= b@.skip(i as int + 1));
        }
        i = i + 1;
    }
    if i == a.len() {
        true
    } else if i == b.len() {
        false
    } else {
        a[i] < b[i]
    }
}

/// Whether a sequence of keys is in order.
pub open spec fn sorted_keys(keys: Seq<Seq<char>>) -> bool {
    forall|i: int, j: int| 0 <= i < j < keys.len() ==> lex_le(#[trigger] keys[i], #[trigger] keys[j])
}

pub open spec fn key_views(keys: Seq<Vec<char>>) -> Seq<Seq<char>> {
    keys.map_values(|k: Vec<char>| k@)
}

/// Put `item`, whose sort key is `key`, into its place among `items`: after
/// everything that sorts no later than it.
pub fn insert_by_key<T>(items: &mut Vec<T>, keys: &mut Vec<Vec<char>>, item: T, key: Vec<char>)
    requires
        old(items).len() == old(keys).len(),
        sorted_keys(key_views(old(keys)@)),
    ensures
        final(items).len() == final(keys).len(),
        sorted_keys(key_views(final(keys)@)),
        exists|p: int|
            0 <= p <= old(items).len() && final(items)@ == old(items)@.insert(p, item) && key_views(
                final(keys)@,
            ) == key_views(old(keys)@).insert(p, key@),
{
    let mut p: usize = 0;
    while p < keys.len() && text_le(&keys[p], &key)
        invariant
            p <= keys.len(),
            items.len() == keys.len(),
            forall|k: int| 0 <= k < p ==> lex_le(#[trigger] key_views(keys@)[k], key@),
        decreases keys.len() - p,
    {
        p = p + 1;
    }
    let ghost ks = key_views(keys@);
    proof {
        let n = ks.insert(p as int, key@);
        assert forall|i: int, j: int| 0 <= i < j < n.len() implies lex_le(#[trigger] n[i], #[trigger] n[j]) by {
            if j < p {
                assert(n[i] == ks[i] && n[j] == ks[j]);
            } else if j == p {
                assert(n[i] == ks[i]);
            } else if i == p {
                assert(n[j] == ks[j - 1]);
                assert(!lex_le(ks[p as int], key@));
                lemma_lex_total(ks[p as int], key@);
                if j - 1 > p {
                    lemma_lex_trans(key@, ks[p as int], ks[j - 1]);
                }
            } else if i < p {
                assert(n[i] == ks[i] && n[j] == ks[j - 1]);
            } else {
                assert(n[i] == ks[i - 1] && n[j] == ks[j - 1]);
            }
        }
    }
    items.insert(p, item);
    keys.insert(p, key);
    assert(key_views(keys@) =~= ks.insert(p as int, key@));
}

} // verus!
