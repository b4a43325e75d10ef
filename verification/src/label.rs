//! Public labels: what an owner may type as the first part of an app's public
//! address, `{label}-{handle}.{domain}`.
//!
//! Whatever is typed is trimmed and put in lower case first, so "Holiday"
//! names the same address as "holiday". What is left must be a piece of a
//! hostname: letters, digits and hyphens, no hyphen at either end, and short
//! enough that the whole first part stays within the 63 characters a DNS
//! label may have.

use vstd::prelude::*;

use crate::text::{chars_of, is_white, lower, lower_seq, lowercase, string_from, trim, trimmed};

verus! {

/// The longest first part of a hostname DNS allows.
pub const LONGEST_HOST_LABEL: usize = 63;

/// Why a label was refused. Each says which rule was broken, since a form
/// that only says "invalid" tells its user nothing.
#[derive(Debug, Clone, Copy, PartialEq, Eq, Structural)]
pub enum LabelFault {
    /// Nothing but blanks.
    Empty,
    /// A character that cannot stand in a hostname.
    Characters,
    /// A hyphen at the start or the end.
    Hyphen,
    /// Too long to share one hostname part with the handle.
    TooLong,
}

/// A character a normalised label may hold.
pub open spec fn label_char(c: char) -> bool {
    ('a' <= c && c <= 'z') || ('0' <= c && c <= '9') || c == '-'
}

/// What a typed label comes to, for an install whose handle is `handle`.
pub open spec fn spec_normalise(raw: Seq<char>, handle: Seq<char>) -> Result<Seq<char>, LabelFault> {
    let l = lower_seq(trim(raw));
    if l.len() == 0 {
        Err(LabelFault::Empty)
    } else if exists|i: int| 0 <= i < l.len() && !label_char(#[trigger] l[i]) {
        Err(LabelFault::Characters)
    } else if l[0] == '-' || l.last() == '-' {
        Err(LabelFault::Hyphen)
    } else if l.len() + 1 + handle.len() > LONGEST_HOST_LABEL {
        Err(LabelFault::TooLong)
    } else {
        Ok(l)
    }
}

pub open spec fn fault_message(f: LabelFault) -> Seq<char> {
    match f {
        LabelFault::Empty => "a public address needs at least one letter or number"@,
        LabelFault::Characters => "a public address can only use letters, numbers and hyphens"@,
        LabelFault::Hyphen => "a public address cannot start or end with a hyphen"@,
        LabelFault::TooLong => "that public address is too long to fit in a hostname with your handle"@,
    }
}

impl LabelFault {
    /// What the owner is told.
    pub fn message(&self) -> (m: &'static str)
        ensures
            m@ == fault_message(*self),
    {
        match self {
            LabelFault::Empty => "a public address needs at least one letter or number",
            LabelFault::Characters => "a public address can only use letters, numbers and hyphens",
            LabelFault::Hyphen => "a public address cannot start or end with a hyphen",
            LabelFault::TooLong => "that public address is too long to fit in a hostname with your handle",
        }
    }
}

fn is_label_char(c: char) -> (b: bool)
    ensures
        b == label_char(c),
{
    ('a' <= c && c <= 'z') || ('0' <= c && c <= '9') || c == '-'
}

/// The label an owner typed, in the form the library keeps and compares, or
/// the rule it breaks.
pub fn normalise_public_label(raw: &str, handle: &str) -> (r: Result<String, LabelFault>)
    ensures
        (match r {
            Ok(l) => spec_normalise(raw@, handle@) == Ok::<Seq<char>, LabelFault>(l@),
            Err(f) => spec_normalise(raw@, handle@) == Err::<Seq<char>, LabelFault>(f),
        }),
{
    let l = lowercase(&trimmed(&chars_of(raw)));
    if l.len() == 0 {
        return Err(LabelFault::Empty);
    }
    let mut i: usize = 0;
    while i < l.len()
        invariant
            i <= l.len(),
            l@ == lower_seq(trim(raw@)),
            forall|k: int| 0 <= k < i ==> label_char(#[trigger] l@[k]),
        decreases l.len() - i,
    {
        if !is_label_char(l[i]) {
            assert(!label_char(l@[i as int]));
            return Err(LabelFault::Characters);
        }
        i = i + 1;
    }
    if l[0] == '-' || l[l.len() - 1] == '-' {
        return Err(LabelFault::Hyphen);
    }
    let h = chars_of(handle).len();
    if l.len() >= LONGEST_HOST_LABEL || h > LONGEST_HOST_LABEL - 1 - l.len() {
        return Err(LabelFault::TooLong);
    }
    Ok(string_from(&l))
}

/// A normalised label is its own normal form: trimming it and putting it in
/// lower case again changes nothing, so it is compared with the labels the
/// library keeps as it is.
pub proof fn lemma_normal_form(raw: Seq<char>, handle: Seq<char>)
    requires
        spec_normalise(raw, handle) is Ok,
    ensures
        ({
            let l = spec_normalise(raw, handle)->Ok_0;
            &&& lower_seq(trim(l)) == l
            &&& spec_normalise(l, handle) == spec_normalise(raw, handle)
        }),
{
    let l = spec_normalise(raw, handle)->Ok_0;
    assert(label_char(l[0]));
    assert(label_char(l[l.len() - 1]));
    assert(!is_white(l[0]));
    assert(!is_white(l.last()));
    assert(trim(l) == l);
    assert forall|i: int| 0 <= i < l.len() implies lower(l[i]) == l[i] by {
        assert(label_char(l[i]));
    }
    assert(lower_seq(l) =~= l);
}

} // verus!
