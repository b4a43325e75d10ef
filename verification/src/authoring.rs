//! Making apps: a new empty one, or an existing folder brought in.
//!
//! Everything here works in folder names, and deliberately writes no
//! `app.json`: the registry generates manifests for folders that lack one, and
//! a second place that minted them is how the two would drift.
//!
//! Paths are text. Where a decision compares two paths they are the canonical
//! ones the caller resolved: absolute, no `.` or `..`, no doubled or trailing
//! separators (except the root itself).

use vstd::prelude::*;

use crate::decimal::{format_i64, signed_digits};
use crate::slug::{first_free_number, has_free_number, is_taken, least_free_number, numbered, views};
use crate::text::{
    append, append_str, chars_of, debug_quoted, find_last, last_index, quoted, slice, strip, strip_chars,
    string_from, trim, trimmed, CharClass,
};

verus! {

#[derive(Debug)]
pub enum AuthorError {
    NameEmpty,
    NameUnusable(String),
    NotAFolder(String),
    Missing(String),
    AlreadyInWorkspace(String),
    ContainsWorkspace(String),
    /// Writing to the disk failed: where, and what the system said.
    Io { path: String, source: String },
}

impl AuthorError {
    /// What a person is told.
    pub open spec fn spec_message(&self) -> Seq<char> {
        match *self {
            AuthorError::NameEmpty => "an app needs a name"@,
            AuthorError::NameUnusable(s) => debug_quoted(s@) + " cannot be a folder name"@,
            AuthorError::NotAFolder(s) => debug_quoted(s@) + " is not a folder"@,
            AuthorError::Missing(s) => debug_quoted(s@) + " does not exist"@,
            AuthorError::AlreadyInWorkspace(s) => debug_quoted(s@) + " is already in your workspace"@,
            AuthorError::ContainsWorkspace(s) => debug_quoted(s@) + " contains your workspace"@,
            AuthorError::Io { path, source } => "could not write "@ + path@ + ": "@ + source@,
        }
    }

    pub fn message(&self) -> (m: String)
        ensures
            m@ == self.spec_message(),
    {
        let (quoted_part, tail): (&String, &str) = match self {
            AuthorError::NameEmpty => return "an app needs a name".to_owned(),
            AuthorError::Io { path, source } => {
                let mut out = chars_of("could not write ");
                append_str(&mut out, path.as_str());
                append_str(&mut out, ": ");
                append_str(&mut out, source.as_str());
                return string_from(&out);
            },
            AuthorError::NameUnusable(s) => (s, " cannot be a folder name"),
            AuthorError::NotAFolder(s) => (s, " is not a folder"),
            AuthorError::Missing(s) => (s, " does not exist"),
            AuthorError::AlreadyInWorkspace(s) => (s, " is already in your workspace"),
            AuthorError::ContainsWorkspace(s) => (s, " contains your workspace"),
        };
        let q = quoted(quoted_part.as_str());
        let mut out = chars_of(q.as_str());
        append_str(&mut out, tail);
        string_from(&out)
    }
}

/// The starter page, up to the first place the app's name goes.
pub const STARTER_HEAD: &'static str = "<!doctype html>\n<html lang=\"en\">\n<head>\n<meta charset=\"utf-8\">\n<meta name=\"viewport\" content=\"width=device-width, initial-scale=1\">\n<title>";

/// Between the name in the title and the name in the heading.
pub const STARTER_MIDDLE: &'static str = "</title>\n<style>\n  body {\n    margin: 0;\n    min-height: 100vh;\n    display: grid;\n    place-items: center;\n    font: 16px/1.6 system-ui, sans-serif;\n    background: #fbfaf8;\n    color: #1a1a1a;\n  }\n  main { max-width: 32rem; padding: 2rem; text-align: center; }\n  h1 { font-size: 2rem; margin: 0 0 .5rem; letter-spacing: -.02em; }\n  p { color: #4a463f; margin: 0; }\n  code { font-family: ui-monospace, monospace; font-size: .9em; }\n</style>\n</head>\n<body>\n<main>\n  <h1>";

/// Between the heading and the folder named in the text.
pub const STARTER_TEXT: &'static str = "</h1>\n  <p>\n    This page is <code>index.html</code> in your ";

/// After the folder named in the text.
pub const STARTER_TAIL: &'static str = " folder.\n    Edit it and refresh - there is nothing to rebuild.\n  </p>\n</main>\n</body>\n</html>\n";

/// The starter page for an app named `name`: one self-contained file with no
/// build step, naming the folder it lives in.
pub open spec fn spec_starter(name: Seq<char>) -> Seq<char> {
    STARTER_HEAD@ + name + STARTER_MIDDLE@ + name + STARTER_TEXT@ + name + STARTER_TAIL@
}

/// The starter page a new empty app gets.
pub fn starter(name: &str) -> (page: String)
    ensures
        page@ == spec_starter(name@),
{
    let mut out: Vec<char> = Vec::new();
    append_str(&mut out, STARTER_HEAD);
    append_str(&mut out, name);
    append_str(&mut out, STARTER_MIDDLE);
    append_str(&mut out, name);
    append_str(&mut out, STARTER_TEXT);
    append_str(&mut out, name);
    append_str(&mut out, STARTER_TAIL);
    string_from(&out)
}

/// `char::is_control`: the C0 and C1 control characters.
pub open spec fn is_control(c: char) -> bool {
    c <= '\u{1f}' || ('\u{7f}' <= c && c <= '\u{9f}')
}

/// Path separators and the characters Windows reserves.
pub open spec fn is_reserved(c: char) -> bool {
    c == '/' || c == '\\' || c == ':' || c == '*' || c == '?' || c == '"' || c == '<' || c
        == '>' || c == '|'
}

/// What a character becomes in a folder name.
pub open spec fn folder_char(c: char) -> char {
    if is_control(c) || is_reserved(c) {
        '-'
    } else {
        c
    }
}

/// What someone typed, trimmed, with unusable characters replaced and the
/// dots and blanks at either end taken off.
pub open spec fn cleaned(raw: Seq<char>) -> Seq<char> {
    strip(trim(raw).map_values(|c: char| folder_char(c)), CharClass::DotOrWhitespace)
}

/// Whether a cleaned name can be a folder.
pub open spec fn usable(c: Seq<char>) -> bool {
    c.len() > 0 && c != "."@ && c != ".."@
}

/// The folder name for a cleaned name: at most 64 characters, trimmed.
pub open spec fn shortened(c: Seq<char>) -> Seq<char> {
    trim(c.take(if c.len() < 64 { c.len() as int } else { 64 }))
}

fn folder_char_of(c: char) -> (r: char)
    ensures
        r == folder_char(c),
{
    if c <= '\u{1f}' || ('\u{7f}' <= c && c <= '\u{9f}') || c == '/' || c == '\\' || c == ':'
        || c == '*' || c == '?' || c == '"' || c == '<' || c == '>' || c == '|' {
        '-'
    } else {
        c
    }
}

/// Turn what someone typed into something that can be a folder name, or say
/// why it cannot be one.
pub fn folder_name(raw: &str) -> (r: Result<String, AuthorError>)
    ensures
        trim(raw@).len() == 0 ==> r matches Err(AuthorError::NameEmpty),
        trim(raw@).len() > 0 && !usable(cleaned(raw@)) ==> (r matches Err(
            AuthorError::NameUnusable(s),
        ) && s@ == raw@),
        trim(raw@).len() > 0 && usable(cleaned(raw@)) ==> (r matches Ok(name) && name@
            == shortened(cleaned(raw@))),
{
    let t = trimmed(&chars_of(raw));
    if t.len() == 0 {
        return Err(AuthorError::NameEmpty);
    }
    let mut mapped: Vec<char> = Vec::new();
    let mut i: usize = 0;
    while i < t.len()
        invariant
            i <= t.len(),
            mapped@ == t@.take(i as int).map_values(|c: char| folder_char(c)),
        decreases t.len() - i,
    {
        mapped.push(folder_char_of(t[i]));
        i = i + 1;
        assert(mapped@ =~= t@.take(i as int).map_values(|c: char| folder_char(c)));
    }
    assert(t@.take(i as int) =~= t@);
    let c = strip_chars(&mapped, CharClass::DotOrWhitespace);
    let dot = vec!['.'];
    let dots = vec!['.', '.'];
    assert(dot@ =~= "."@) by {
        reveal_strlit(".");
    }
    assert(dots@ =~= ".."@) by {
        reveal_strlit("..");
    }
    if c.len() == 0 || crate::text::same(&c, &dot) || crate::text::same(&c, &dots) {
        return Err(AuthorError::NameUnusable(raw.to_owned()));
    }
    let n = if c.len() < 64 {
        c.len()
    } else {
        64
    };
    let head = slice(&c, 0, n);
    assert(head@ =~= c@.take(n as int));
    let out = trimmed(&head);
    Ok(string_from(&out))
}

/// The folder a new app of the wanted name gets: the name if nothing in the
/// workspace has it, else `Name 2`, `Name 3`, ... as Finder does, and past a
/// thousand the clock.
pub open spec fn spec_unique_in(taken: Seq<Seq<char>>, wanted: Seq<char>, now: int) -> Seq<char> {
    if !taken.contains(wanted) {
        wanted
    } else if has_free_number(wanted, ' ', taken, 1000) {
        numbered(wanted, ' ', least_free_number(wanted, ' ', taken, 1000))
    } else {
        wanted + seq![' '] + signed_digits(now)
    }
}

/// `wanted`, or the first `wanted n` that no entry of the workspace is called.
pub fn unique_in(taken: &[String], wanted: &str, now: i64) -> (name: String)
    ensures
        name@ == spec_unique_in(views(taken@), wanted@, now as int),
        taken.len() < 998 ==> !views(taken@).contains(name@),
{
    let base = chars_of(wanted);
    if !is_taken(&base, taken) {
        return string_from(&base);
    }
    let n = first_free_number(&base, ' ', taken, 1000);
    proof {
        if taken.len() < 998 && n == 1000 {
            crate::slug::lemma_numbers_run_out(wanted@, ' ', views(taken@), 1000);
        }
    }
    let mut out = base.clone();
    out.push(' ');
    if n < 1000 {
        let digits = crate::decimal::format_u64(n);
        append(&mut out, &digits);
        assert(out@ =~= numbered(wanted@, ' ', n as nat));
    } else {
        let digits = format_i64(now);
        append(&mut out, &digits);
        assert(out@ =~= wanted@ + seq![' '] + signed_digits(now as int));
    }
    string_from(&out)
}

/// What creating an app amounts to: the folder to make in the workspace, and
/// the page to put in it.
#[derive(Debug)]
pub struct NewApp {
    pub folder: String,
    pub page: String,
}

/// Plan an empty app called `name` in a workspace whose entries are `taken`.
pub fn plan_create(name: &str, taken: &[String], now: i64) -> (r: Result<NewApp, AuthorError>)
    ensures
        trim(name@).len() == 0 ==> r matches Err(AuthorError::NameEmpty),
        trim(name@).len() > 0 && !usable(cleaned(name@)) ==> (r matches Err(
            AuthorError::NameUnusable(s),
        ) && s@ == name@),
        trim(name@).len() > 0 && usable(cleaned(name@)) ==> (r matches Ok(app) && app.folder@
            == spec_unique_in(views(taken@), shortened(cleaned(name@)), now as int) && app.page@
            == spec_starter(app.folder@)),
{
    let wanted = match folder_name(name) {
        Ok(w) => w,
        Err(e) => return Err(e),
    };
    let folder = unique_in(taken, wanted.as_str(), now);
    let page = starter(folder.as_str());
    Ok(NewApp { folder, page })
}

/// Whether canonical path `p` is `base` or inside it.
pub open spec fn within(p: Seq<char>, base: Seq<char>) -> bool {
    ||| p == base
    ||| (base.len() > 0 && base.last() == '/' && base.len() <= p.len() && p.take(
        base.len() as int,
    ) == base)
    ||| (base.len() + 1 <= p.len() && p.take(base.len() as int) == base && p[base.len() as int]
        == '/')
}

/// The last component of a canonical path, if it has one.
pub open spec fn file_name(p: Seq<char>) -> Option<Seq<char>> {
    let last = match last_index(p, '/') {
        Some(i) => p.skip(i + 1),
        None => p,
    };
    if last.len() == 0 || last == ".."@ {
        None
    } else {
        Some(last)
    }
}

/// `root` with `name` under it.
pub open spec fn joined(root: Seq<char>, name: Seq<char>) -> Seq<char> {
    if root.len() == 0 {
        name
    } else if root.last() == '/' {
        root + name
    } else {
        root + seq!['/'] + name
    }
}

fn path_within(p: &Vec<char>, base: &Vec<char>) -> (b: bool)
    ensures
        b == within(p@, base@),
{
    if crate::text::same(p, base) {
        return true;
    }
    if base.len() <= p.len() {
        let head = slice(p, 0, base.len());
        if crate::text::same(&head, base) {
            assert(head@ == p@.take(base.len() as int));
            if base.len() > 0 && base[base.len() - 1] == '/' {
                return true;
            }
            if base.len() < p.len() && p[base.len()] == '/' {
                return true;
            }
            return false;
        }
        assert(head@ == p@.take(base.len() as int));
    }
    false
}

fn last_component(p: &Vec<char>) -> (r: Option<Vec<char>>)
    ensures
        (match r {
            Some(v) => file_name(p@) == Some(v@),
            None => file_name(p@) is None,
        }),
{
    let last = match find_last(p, '/') {
        Some(i) => {
            let s = slice(p, i + 1, p.len());
            assert(s@ =~= p@.skip(i + 1));
            s
        },
        None => p.clone(),
    };
    let dots = vec!['.', '.'];
    assert(dots@ =~= ".."@) by {
        reveal_strlit("..");
    }
    if last.len() == 0 || crate::text::same(&last, &dots) {
        None
    } else {
        Some(last)
    }
}

fn join(root: &Vec<char>, name: &Vec<char>) -> (r: Vec<char>)
    ensures
        r@ == joined(root@, name@),
{
    if root.len() == 0 {
        return name.clone();
    }
    let mut out = root.clone();
    if root[root.len() - 1] != '/' {
        out.push('/');
    }
    append(&mut out, name);
    out
}

/// The last component of a canonical path, if it has one.
pub fn file_name_of(p: &str) -> (r: Option<Vec<char>>)
    ensures
        (match r {
            Some(v) => file_name(p@) == Some(v@),
            None => file_name(p@) is None,
        }),
{
    last_component(&chars_of(p))
}

/// `root` with `name` under it.
pub fn join_str(root: &str, name: &str) -> (r: String)
    ensures
        r@ == joined(root@, name@),
{
    string_from(&join(&chars_of(root), &chars_of(name)))
}

/// Whether canonical path `p` is `base` or inside it.
pub fn inside(p: &str, base: &str) -> (b: bool)
    ensures
        b == within(p@, base@),
{
    path_within(&chars_of(p), &chars_of(base))
}

/// Where an imported folder goes, or why it cannot be imported.
///
/// `requested` is the path as given; `source` is its canonical form, or `None`
/// when it does not resolve. `root` is the workspace, canonical where it can
/// be, and `taken` its entries. The copy itself is the caller's.
pub fn import(
    root: &str,
    requested: &str,
    source: Option<&str>,
    source_is_dir: bool,
    taken: &[String],
    now: i64,
) -> (r: Result<String, AuthorError>)
    ensures
        source is None ==> (r matches Err(AuthorError::Missing(s)) && s@ == requested@),
        source matches Some(src) ==> {
            &&& !source_is_dir ==> (r matches Err(AuthorError::NotAFolder(s)) && s@ == src@)
            &&& source_is_dir && within(src@, root@) ==> (r matches Err(
                AuthorError::AlreadyInWorkspace(s),
            ) && s@ == src@)
            &&& source_is_dir && !within(src@, root@) && within(root@, src@) ==> (r matches Err(
                AuthorError::ContainsWorkspace(s),
            ) && s@ == src@)
            &&& source_is_dir && !within(src@, root@) && !within(root@, src@) && file_name(src@)
                is None ==> (r matches Err(AuthorError::NameUnusable(s)) && s@ == src@)
            &&& source_is_dir && !within(src@, root@) && !within(root@, src@) && file_name(src@)
                is Some ==> {
                let name = file_name(src@)->Some_0;
                &&& trim(name).len() == 0 ==> (r matches Err(AuthorError::NameEmpty))
                &&& trim(name).len() > 0 && !usable(cleaned(name)) ==> (r matches Err(
                    AuthorError::NameUnusable(s),
                ) && s@ == name)
                &&& trim(name).len() > 0 && usable(cleaned(name)) ==> (r matches Ok(dest) && dest@
                    == joined(root@, spec_unique_in(views(taken@), shortened(cleaned(name)), now as int)))
            }
        },
{
    let src = match source {
        None => return Err(AuthorError::Missing(requested.to_owned())),
        Some(s) => s,
    };
    if !source_is_dir {
        return Err(AuthorError::NotAFolder(src.to_owned()));
    }
    let s = chars_of(src);
    let base = chars_of(root);
    if path_within(&s, &base) {
        return Err(AuthorError::AlreadyInWorkspace(src.to_owned()));
    }
    if path_within(&base, &s) {
        return Err(AuthorError::ContainsWorkspace(src.to_owned()));
    }
    let name = match last_component(&s) {
        None => return Err(AuthorError::NameUnusable(src.to_owned())),
        Some(n) => string_from(&n),
    };
    let wanted = match folder_name(name.as_str()) {
        Ok(w) => w,
        Err(e) => return Err(e),
    };
    let unique = unique_in(taken, wanted.as_str(), now);
    let dest = join(&base, &chars_of(unique.as_str()));
    Ok(string_from(&dest))
}

/// Names never worth copying: version control and dependency trees, which
/// are never served and routinely dwarf the app.
pub open spec fn is_skipped(name: Seq<char>) -> bool {
    name == ".git"@ || name == "node_modules"@ || name == ".DS_Store"@
}

/// Whether an entry of this name is left behind when a folder is copied in.
pub fn skipped(name: &str) -> (b: bool)
    ensures
        b == is_skipped(name@),
{
    let n = chars_of(name);
    let a = chars_of(".git");
    let b = chars_of("node_modules");
    let c = chars_of(".DS_Store");
    crate::text::same(&n, &a) || crate::text::same(&n, &b) || crate::text::same(&n, &c)
}


/// A folder name made from what someone typed stays where it is put and is
/// not born hidden: it is not empty, has no path separator or character
/// Windows reserves, no control character, and does not start with a dot.
pub proof fn lemma_folder_name_stays_put(raw: Seq<char>)
    requires
        trim(raw).len() > 0,
        usable(cleaned(raw)),
    ensures
        shortened(cleaned(raw)).len() > 0,
        shortened(cleaned(raw))[0] != '.',
        forall|i: int|
            0 <= i < shortened(cleaned(raw)).len() ==> !is_reserved(#[trigger] shortened(cleaned(raw))[i])
                && !is_control(shortened(cleaned(raw))[i]),
{
    let m = trim(raw).map_values(|c: char| folder_char(c));
    assert forall|i: int| 0 <= i < m.len() implies !is_reserved(#[trigger] m[i]) && !is_control(m[i]) by {}
    let dots = CharClass::DotOrWhitespace;
    crate::text::lemma_strip_start_suffix(m, dots);
    let s = crate::text::strip_start(m, dots);
    crate::text::lemma_strip_end_is_prefix(s, dots);
    let c = cleaned(raw);
    assert(c == crate::text::strip_end(s, dots));
    assert(c.len() > 0);
    assert(s.len() > 0);
    assert(c[0] == s[0]);
    assert forall|i: int| 0 <= i < c.len() implies !is_reserved(#[trigger] c[i]) && !is_control(c[i]) by {
        assert(c[i] == s[i]);
        assert(s[i] == m[m.len() - s.len() + i]);
    }
    let k: int = if c.len() < 64 { c.len() as int } else { 64 };
    let t = c.take(k);
    assert(t[0] == c[0]);
    assert(!crate::text::in_class(CharClass::Whitespace, t[0]));
    assert(crate::text::strip_start(t, CharClass::Whitespace) == t);
    crate::text::lemma_strip_end_keeps_first(t, CharClass::Whitespace);
    crate::text::lemma_strip_end_is_prefix(t, CharClass::Whitespace);
    let n = shortened(c);
    assert(n == crate::text::strip_end(t, CharClass::Whitespace));
    assert forall|i: int| 0 <= i < n.len() implies !is_reserved(#[trigger] n[i]) && !is_control(n[i]) by {
        assert(n[i] == t[i]);
        assert(t[i] == c[i]);
    }
}
} // verus!
