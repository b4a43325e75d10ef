//! Integers written in decimal, and read back.
//!
//! The same text `Display` and `FromStr` produce and accept for the integer
//! types: no leading zeros when writing, an optional sign and at least one
//! digit when reading, and out-of-range values refused.

use vstd::prelude::*;

verus! {

pub open spec fn digit_char(d: int) -> char {
    (48 + d) as char
}

pub open spec fn is_digit(c: char) -> bool {
    '0' <= c && c <= '9'
}

pub open spec fn digit_value(c: char) -> int {
    (c as int) - 48
}

/// `n` in decimal, without leading zeros.
pub open spec fn digits(n: nat) -> Seq<char>
    decreases n,
{
    if n < 10 {
        seq![digit_char(n as int)]
    } else {
        digits(n / 10).push(digit_char((n % 10) as int))
    }
}

/// The number a run of digits spells.
pub open spec fn value(s: Seq<char>) -> nat
    decreases s.len(),
{
    if s.len() == 0 {
        0
    } else {
        (value(s.drop_last()) * 10 + digit_value(s.last())) as nat
    }
}

pub open spec fn all_digits(s: Seq<char>) -> bool {
    forall|i: int| 0 <= i < s.len() ==> is_digit(#[trigger] s[i])
}

/// A signed integer in decimal: a minus sign before the magnitude when it is
/// negative.
pub open spec fn signed_digits(x: int) -> Seq<char> {
    if x < 0 {
        seq!['-'] + digits((-x) as nat)
    } else {
        digits(x as nat)
    }
}

/// What `str::parse::<i64>` accepts and what it yields: an optional `+` or
/// `-`, then one or more ASCII digits, naming a value that fits in an `i64`.
pub open spec fn parse_i64(s: Seq<char>) -> Option<int> {
    if s.len() == 0 {
        None
    } else {
        let neg = s[0] == '-';
        let rest = if s[0] == '-' || s[0] == '+' {
            s.drop_first()
        } else {
            s
        };
        if rest.len() == 0 || !all_digits(rest) {
            None
        } else {
            let v: int = if neg {
                -(value(rest) as int)
            } else {
                value(rest) as int
            };
            if i64::MIN <= v <= i64::MAX {
                Some(v)
            } else {
                None
            }
        }
    }
}

pub proof fn lemma_digit_roundtrip(k: int)
    requires
        0 <= k < 10,
    ensures
        digit_value(digit_char(k)) == k,
        is_digit(digit_char(k)),
        k > 0 ==> digit_char(k) != '0',
{
    assert((48 + k) as char as int == 48 + k);
}

pub proof fn lemma_digits_shape(n: nat)
    ensures
        digits(n).len() >= 1,
        all_digits(digits(n)),
        value(digits(n)) == n,
        n > 0 ==> digits(n)[0] != '0',
    decreases n,
{
    if n < 10 {
        lemma_digit_roundtrip(n as int);
        let e = seq![digit_char(n as int)];
        assert(e.drop_last() =~= Seq::<char>::empty());
        assert(value(e.drop_last()) == 0);
        assert(value(e) == digit_value(e.last()));
    } else {
        lemma_digits_shape(n / 10);
        let d = digits(n / 10);
        let k = (n % 10) as int;
        let e = d.push(digit_char(k));
        assert(e.drop_last() =~= d);
        lemma_digit_roundtrip(k);
        assert(forall|i: int| 0 <= i < d.len() ==> e[i] == d[i]);
        assert(value(e) == value(d) * 10 + digit_value(e.last()));
        assert(value(d) == n / 10);
        assert(n == (n / 10) * 10 + n % 10);
    }
}

/// Different numbers are written differently.
pub proof fn lemma_digits_injective(m: nat, n: nat)
    requires
        digits(m) == digits(n),
    ensures
        m == n,
{
    lemma_digits_shape(m);
    lemma_digits_shape(n);
}

/// `base-m` and `base-n` are different names whenever `m` and `n` differ.
pub proof fn lemma_suffixes_distinct(base: Seq<char>)
    ensures
        forall|m: nat, k: nat|
            m != k ==> #[trigger] (base + seq!['-'] + digits(m)) != #[trigger] (base + seq!['-']
                + digits(k)),
{
    assert forall|m: nat, k: nat| m != k implies (base + seq!['-'] + digits(m)) != (base + seq![
        '-',
    ] + digits(k)) by {
        if base + seq!['-'] + digits(m) == base + seq!['-'] + digits(k) {
            let p = base + seq!['-'];
            assert((p + digits(m)).subrange(p.len() as int, (p + digits(m)).len() as int)
                =~= digits(m));
            assert((p + digits(k)).subrange(p.len() as int, (p + digits(k)).len() as int)
                =~= digits(k));
            lemma_digits_injective(m, k);
        }
    }
}

/// `n` in decimal.
pub fn format_u64(n: u64) -> (r: Vec<char>)
    ensures
        r@ == digits(n as nat),
    decreases n,
{
    if n < 10 {
        let c = ((n as u8) + 48) as char;
        vec![c]
    } else {
        let mut r = format_u64(n / 10);
        let c = (((n % 10) as u8) + 48) as char;
        r.push(c);
        r
    }
}

/// `x` in decimal, signed.
pub fn format_i64(x: i64) -> (r: Vec<char>)
    ensures
        r@ == signed_digits(x as int),
{
    if x < 0 {
        let magnitude: u64 = ((-(x + 1)) as u64) + 1;
        let mut r = vec!['-'];
        let d = format_u64(magnitude);
        crate::text::append(&mut r, &d);
        r
    } else {
        format_u64(x as u64)
    }
}

proof fn lemma_value_grows(s: Seq<char>, i: int)
    requires
        0 <= i < s.len(),
        all_digits(s),
    ensures
        value(s.take(i + 1)) == value(s.take(i)) * 10 + digit_value(s[i]),
        value(s.take(i + 1)) >= value(s.take(i)),
{
    assert(s.take(i + 1).drop_last() =~= s.take(i));
}

proof fn lemma_value_monotone(s: Seq<char>, i: int)
    requires
        0 <= i <= s.len(),
        all_digits(s),
    ensures
        value(s) >= value(s.take(i)),
    decreases s.len() - i,
{
    if i < s.len() {
        lemma_value_grows(s, i);
        lemma_value_monotone(s, i + 1);
    } else {
        assert(s.take(i) =~= s);
    }
}

/// `str::parse::<i64>`, on characters.
pub fn parse_i64_chars(s: &Vec<char>) -> (r: Option<i64>)
    ensures
        r matches Some(x) ==> parse_i64(s@) == Some(x as int),
        r is None ==> parse_i64(s@) is None,
{
    if s.len() == 0 {
        return None;
    }
    let neg = s[0] == '-';
    let start: usize = if s[0] == '-' || s[0] == '+' {
        1
    } else {
        0
    };
    let ghost rest = if s@[0] == '-' || s@[0] == '+' {
        s@.drop_first()
    } else {
        s@
    };
    assert(rest =~= s@.subrange(start as int, s.len() as int));
    if start == s.len() {
        return None;
    }
    // 2^63: the largest magnitude an i64 can hold, reached only by i64::MIN.
    let limit: u64 = 0x8000_0000_0000_0000;
    let mut acc: u64 = 0;
    let mut i: usize = start;
    while i < s.len()
        invariant
            start <= i <= s.len(),
            rest == s@.subrange(start as int, s.len() as int),
            s.len() > 0,
            start < s.len(),
            rest == (if s@[0] == '-' || s@[0] == '+' {
                s@.drop_first()
            } else {
                s@
            }),
            neg == (s@[0] == '-'),
            forall|k: int| 0 <= k < i - start ==> is_digit(#[trigger] rest[k]),
            acc as nat == value(rest.take(i - start)),
            acc <= limit,
            limit == 0x8000_0000_0000_0000u64,
        decreases s.len() - i,
    {
        let c = s[i];
        if !('0' <= c && c <= '9') {
            assert(!is_digit(rest[i - start]));
            assert(!all_digits(rest));
            assert(parse_i64(s@) is None);
            return None;
        }
        let d: u64 = ((c as u32) - 48) as u64;
        proof {
            assert(rest.take(i - start + 1).drop_last() =~= rest.take(i - start));
        }
        if acc > (limit - d) / 10 {
            proof {
                // Past the limit already: the whole run can only be larger.
                assert(acc * 10 + d > limit) by (nonlinear_arith)
                    requires
                        acc > (limit - d) / 10,
                        d <= 9,
                        limit == 0x8000_0000_0000_0000u64,
                ;
                if all_digits(rest) {
                    lemma_value_monotone(rest, i - start + 1);
                }
            }
            return None;
        }
        assert(acc * 10 + d <= limit) by (nonlinear_arith)
            requires
                acc <= (limit - d) / 10,
                d <= 9,
                limit == 0x8000_0000_0000_0000u64,
        ;
        acc = acc * 10 + d;
        i = i + 1;
    }
    assert(rest.take(rest.len() as int) =~= rest);
    assert(all_digits(rest));
    if neg {
        if acc == limit {
            Some(i64::MIN)
        } else {
            Some(-(acc as i64))
        }
    } else {
        if acc == limit {
            None
        } else {
            Some(acc as i64)
        }
    }
}

/// Reading back what was written gives the number that was written.
pub proof fn lemma_parse_signed_digits(x: i64)
    ensures
        parse_i64(signed_digits(x as int)) == Some(x as int),
{
    if x < 0 {
        let m = (-(x as int)) as nat;
        lemma_digits_shape(m);
        let s = seq!['-'] + digits(m);
        assert(s[0] == '-');
        assert(s.drop_first() =~= digits(m));
    } else {
        lemma_digits_shape(x as nat);
        let d = digits(x as nat);
        assert(is_digit(d[0]));
    }
}

} // verus!
