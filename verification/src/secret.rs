//! Somewhere to keep bytes that must outlive a restart and must not be read by
//! anything else on the machine.
//!
//! The session-signing key is the first tenant. It is small, catastrophic to
//! leak and merely inconvenient to lose, which is why the store deals in
//! opaque byte strings and has no opinion about what is in them.

use vstd::prelude::*;

use crate::text::{append, append_str, chars_of, debug_quoted, quoted, same, string_from};

verus! {

#[derive(Debug, Clone, PartialEq, Eq)]
pub enum SecretError {
    /// The OS keystore refused, with its reason.
    Keystore(String),
    /// Reading or writing the secret failed, with the reason.
    File(String),
    /// The name could escape the directory a file store owns.
    BadName(String),
}

impl SecretError {
    /// What the log is told.
    pub open spec fn spec_message(&self) -> Seq<char> {
        match *self {
            SecretError::Keystore(why) => "the OS keystore refused: "@ + why@,
            SecretError::File(why) => "could not read or write the secret: "@ + why@,
            SecretError::BadName(n) => debug_quoted(n@) + " is not a usable secret name"@,
        }
    }

    pub fn message(&self) -> (m: String)
        ensures
            m@ == self.spec_message(),
    {
        match self {
            SecretError::Keystore(why) => {
                let mut out = chars_of("the OS keystore refused: ");
                append_str(&mut out, why.as_str());
                string_from(&out)
            },
            SecretError::File(why) => {
                let mut out = chars_of("could not read or write the secret: ");
                append_str(&mut out, why.as_str());
                string_from(&out)
            },
            SecretError::BadName(n) => {
                let q = quoted(n.as_str());
                let mut out = chars_of(q.as_str());
                append_str(&mut out, " is not a usable secret name");
                string_from(&out)
            },
        }
    }
}

/// A read or a write made of a secret store.
pub enum StoreCall {
    /// A read of the name, and what it gave: the secret or nothing, or
    /// `None` when the read failed.
    Read(Seq<char>, Option<Option<Seq<u8>>>),
    /// A write of the secret under the name, and whether it succeeded.
    Write(Seq<char>, Seq<u8>, bool),
}

/// What a read came to: the secret or nothing, or `None` for a failure.
pub open spec fn read_view(r: Result<Option<Vec<u8>>, SecretError>) -> Option<Option<Seq<u8>>> {
    match r {
        Ok(Some(v)) => Some(Some(v@)),
        Ok(None) => Some(None),
        Err(_) => None,
    }
}

/// Persists small secrets across restarts.
///
/// One implementation per platform, plus [`MemoryStore`] for tests. A missing
/// secret is `Ok(None)`, not an error: first run is the normal case.
pub trait SecretStore {
    /// Whether this store keeps the record that `calls` gives. A store that
    /// does not promises nothing about it.
    open spec fn keeps_record(&self) -> bool {
        false
    }

    /// Every read and write made of this store so far, in order, with what
    /// each came to, for a store that keeps the record.
    open spec fn calls(&self) -> Seq<StoreCall> {
        Seq::empty()
    }

    /// The secret stored under `name`, or `None` if there is not one yet.
    fn get(&mut self, name: &str) -> (r: Result<Option<Vec<u8>>, SecretError>)
        ensures
            final(self).keeps_record() == old(self).keeps_record(),
            old(self).keeps_record() ==> final(self).calls() == old(self).calls().push(
                StoreCall::Read(name@, read_view(r)),
            ),
    ;

    /// Store `secret` under `name`, replacing whatever was there.
    fn set(&mut self, name: &str, secret: &[u8]) -> (r: Result<(), SecretError>)
        ensures
            final(self).keeps_record() == old(self).keeps_record(),
            old(self).keeps_record() ==> final(self).calls() == old(self).calls().push(
                StoreCall::Write(name@, secret@, r is Ok),
            ),
    ;

    /// Where this implementation keeps things, for the startup log.
    fn describe(&self) -> &'static str;
}

/// A character a secret's name may hold: lower-case ASCII letters, digits and
/// hyphens - nothing that could make a path.
pub open spec fn is_name_char(c: char) -> bool {
    ('a' <= c && c <= 'z') || ('0' <= c && c <= '9') || c == '-'
}

/// A usable secret name: 1 to 64 of those characters.
pub open spec fn is_good_name(name: Seq<char>) -> bool {
    &&& 1 <= name.len() <= 64
    &&& forall|i: int| 0 <= i < name.len() ==> is_name_char(#[trigger] name[i])
}

/// Rejects anything that could escape the directory a file store owns.
pub fn check_name(name: &str) -> (r: Result<(), SecretError>)
    ensures
        r is Ok <==> is_good_name(name@),
        r matches Err(e) ==> e matches SecretError::BadName(n) && n@ == name@,
{
    let cs = chars_of(name);
    let mut ok = cs.len() >= 1 && cs.len() <= 64;
    let mut i: usize = 0;
    while i < cs.len()
        invariant
            i <= cs.len(),
            cs@ == name@,
            ok == (1 <= cs@.len() <= 64 && forall|k: int| 0 <= k < i ==> is_name_char(#[trigger] cs@[k])),
        decreases cs.len() - i,
    {
        let c = cs[i];
        let good = ('a' <= c && c <= 'z') || ('0' <= c && c <= '9') || c == '-';
        proof {
            if !good {
                assert(!is_name_char(cs@[i as int]));
            }
        }
        ok = ok && good;
        i = i + 1;
    }
    if ok {
        Ok(())
    } else {
        Err(SecretError::BadName(name.to_owned()))
    }
}

/// `a` joined with a relative `b`, as `Path::join` does it: a separator is
/// added only where `a` does not already end in one.
pub open spec fn join(a: Seq<char>, b: Seq<char>) -> Seq<char> {
    if a.len() == 0 {
        b
    } else if a.last() == '/' {
        a + b
    } else {
        a + seq!['/'] + b
    }
}

pub fn join_path(a: &str, b: &str) -> (r: String)
    ensures
        r@ == join(a@, b@),
{
    let mut out = chars_of(a);
    let tail = chars_of(b);
    if out.len() > 0 && out[out.len() - 1] != '/' {
        out.push('/');
    }
    append(&mut out, &tail);
    string_from(&out)
}

/// Secrets as files, one per secret, in a `secrets` directory under the state
/// directory. This type decides the paths; reading and writing them is done by
/// whoever holds the filesystem.
pub struct FileStore {
    dir: String,
}

impl FileStore {
    pub closed spec fn spec_dir(&self) -> Seq<char> {
        self.dir@
    }

    /// Secrets go in a subdirectory of the state directory, so a stray `ls`
    /// of it does not put key material next to the database.
    pub fn new(state_dir: &str) -> (s: Self)
        ensures
            s.spec_dir() == join(state_dir@, "secrets"@),
    {
        FileStore { dir: join_path(state_dir, "secrets") }
    }

    /// The directory the secrets live in.
    pub fn dir(&self) -> (d: String)
        ensures
            d@ == self.spec_dir(),
    {
        self.dir.clone()
    }

    /// The file a secret lives in: `<name>.key` in the directory, for a name
    /// that cannot escape it.
    pub fn path(&self, name: &str) -> (r: Result<String, SecretError>)
        ensures
            r is Ok <==> is_good_name(name@),
            r matches Ok(p) ==> p@ == join(self.spec_dir(), name@ + ".key"@),
            r matches Err(e) ==> e matches SecretError::BadName(n) && n@ == name@,
    {
        match check_name(name) {
            Ok(()) => {},
            Err(e) => return Err(e),
        }
        let mut file = chars_of(name);
        let ext = chars_of(".key");
        append(&mut file, &ext);
        let file = string_from(&file);
        Ok(join_path(self.dir.as_str(), file.as_str()))
    }
}

/// The secret filed under `name` among `entries`: the first entry with that
/// name.
pub open spec fn lookup(entries: Seq<(Seq<char>, Seq<u8>)>, name: Seq<char>) -> Option<Seq<u8>>
    decreases entries.len(),
{
    if entries.len() == 0 {
        None
    } else if entries[0].0 == name {
        Some(entries[0].1)
    } else {
        lookup(entries.drop_first(), name)
    }
}

proof fn lemma_lookup_push(entries: Seq<(Seq<char>, Seq<u8>)>, e: (Seq<char>, Seq<u8>), n: Seq<char>)
    ensures
        lookup(entries.push(e), n) == if lookup(entries, n) is Some {
            lookup(entries, n)
        } else if e.0 == n {
            Some(e.1)
        } else {
            None
        },
    decreases entries.len(),
{
    if entries.len() > 0 {
        assert(entries.push(e)[0] == entries[0]);
        assert(entries.push(e).drop_first() =~= entries.drop_first().push(e));
        lemma_lookup_push(entries.drop_first(), e, n);
    } else {
        assert(entries.push(e).drop_first() =~= Seq::<(Seq<char>, Seq<u8>)>::empty());
        assert(lookup(Seq::<(Seq<char>, Seq<u8>)>::empty(), n) is None);
        assert(lookup(entries, n) is None);
    }
}

proof fn lemma_lookup_update(
    entries: Seq<(Seq<char>, Seq<u8>)>,
    i: int,
    name: Seq<char>,
    v: Seq<u8>,
    n: Seq<char>,
)
    requires
        0 <= i < entries.len(),
        entries[i].0 == name,
        forall|j: int| 0 <= j < i ==> entries[j].0 != name,
    ensures
        lookup(entries.update(i, (name, v)), n) == if n == name {
            Some(v)
        } else {
            lookup(entries, n)
        },
    decreases i,
{
    if i > 0 {
        assert(entries.update(i, (name, v))[0] == entries[0]);
        assert(entries.update(i, (name, v)).drop_first() =~= entries.drop_first().update(
            i - 1,
            (name, v),
        ));
        lemma_lookup_update(entries.drop_first(), i - 1, name, v, n);
    } else {
        assert(entries.update(0, (name, v)).drop_first() =~= entries.drop_first());
    }
}

proof fn lemma_lookup_absent(entries: Seq<(Seq<char>, Seq<u8>)>, name: Seq<char>)
    requires
        forall|j: int| 0 <= j < entries.len() ==> entries[j].0 != name,
    ensures
        lookup(entries, name) is None,
    decreases entries.len(),
{
    if entries.len() > 0 {
        lemma_lookup_absent(entries.drop_first(), name);
    }
}

proof fn lemma_lookup_first(entries: Seq<(Seq<char>, Seq<u8>)>, i: int, name: Seq<char>)
    requires
        0 <= i < entries.len(),
        entries[i].0 == name,
        forall|j: int| 0 <= j < i ==> entries[j].0 != name,
    ensures
        lookup(entries, name) == Some(entries[i].1),
    decreases i,
{
    if i > 0 {
        lemma_lookup_first(entries.drop_first(), i - 1, name);
    }
}

/// Keeps secrets for as long as the process lives, and can be told to refuse
/// everything, for testing the degraded path - a locked keystore, or a user who
/// clicked Deny.
pub struct MemoryStore {
    items: Vec<(String, Vec<u8>)>,
    fail: Option<String>,
    calls: Ghost<Seq<StoreCall>>,
}

impl MemoryStore {
    /// What is filed, in the order it was first filed.
    pub closed spec fn entries(&self) -> Seq<(Seq<char>, Seq<u8>)> {
        self.items@.map_values(|e: (String, Vec<u8>)| (e.0@, e.1@))
    }

    /// Whether every operation is refused, and why.
    pub closed spec fn refusal(&self) -> Option<Seq<char>> {
        match self.fail {
            Some(r) => Some(r@),
            None => None,
        }
    }

    pub fn new() -> (s: Self)
        ensures
            s.entries() == Seq::<(Seq<char>, Seq<u8>)>::empty(),
            s.refusal() is None,
            s.calls() == Seq::<StoreCall>::empty(),
    {
        let s = MemoryStore { items: Vec::new(), fail: None, calls: Ghost(Seq::empty()) };
        assert(s.entries() =~= Seq::<(Seq<char>, Seq<u8>)>::empty());
        s
    }

    /// Make every operation fail with `reason`.
    pub fn failing(reason: &str) -> (s: Self)
        ensures
            s.entries() == Seq::<(Seq<char>, Seq<u8>)>::empty(),
            s.refusal() == Some(reason@),
            s.calls() == Seq::<StoreCall>::empty(),
    {
        let s = MemoryStore { items: Vec::new(), fail: Some(reason.to_owned()), calls: Ghost(Seq::empty()) };
        assert(s.entries() =~= Seq::<(Seq<char>, Seq<u8>)>::empty());
        s
    }

    fn refuse(&self) -> (r: Result<(), SecretError>)
        ensures
            r is Ok <==> self.refusal() is None,
            r matches Err(e) ==> e matches SecretError::Keystore(m) && Some(m@) == self.refusal(),
    {
        match &self.fail {
            Some(reason) => Err(SecretError::Keystore(reason.clone())),
            None => Ok(()),
        }
    }

    fn read(&self, name: &str) -> (r: Result<Option<Vec<u8>>, SecretError>)
        ensures
            self.refusal() is Some ==> (r matches Err(SecretError::Keystore(m)) && Some(m@)
                == self.refusal()),
            self.refusal() is None && !is_good_name(name@) ==> (r matches Err(
                SecretError::BadName(n),
            ) && n@ == name@),
            self.refusal() is None && is_good_name(name@) ==> (r matches Ok(found) && match found {
                Some(v) => lookup(self.entries(), name@) == Some(v@),
                None => lookup(self.entries(), name@) is None,
            }),
    {
        match self.refuse() {
            Ok(()) => {},
            Err(e) => return Err(e),
        }
        match check_name(name) {
            Ok(()) => {},
            Err(e) => return Err(e),
        }
        let key = chars_of(name);
        match self.position(&key) {
            Some(i) => {
                proof {
                    lemma_lookup_first(self.entries(), i as int, name@);
                }
                Ok(Some(self.items[i].1.clone()))
            },
            None => {
                proof {
                    lemma_lookup_absent(self.entries(), name@);
                }
                Ok(None)
            },
        }
    }

    fn write(&mut self, name: &str, secret: &[u8]) -> (r: Result<(), SecretError>)
        ensures
            old(self).refusal() is Some ==> (r matches Err(SecretError::Keystore(m)) && Some(m@)
                == old(self).refusal() && final(self).entries() == old(self).entries()),
            old(self).refusal() is None && !is_good_name(name@) ==> (r matches Err(
                SecretError::BadName(n),
            ) && n@ == name@ && final(self).entries() == old(self).entries()),
            old(self).refusal() is None && is_good_name(name@) ==> r is Ok && forall|n: Seq<char>|
                #[trigger] lookup(final(self).entries(), n) == if n == name@ {
                    Some(secret@)
                } else {
                    lookup(old(self).entries(), n)
                },
            final(self).refusal() == old(self).refusal(),
            final(self).calls == old(self).calls,
    {
        match self.refuse() {
            Ok(()) => {},
            Err(e) => return Err(e),
        }
        match check_name(name) {
            Ok(()) => {},
            Err(e) => return Err(e),
        }
        let key = chars_of(name);
        let value = vstd::slice::slice_to_vec(secret);
        let ghost before = self.entries();
        match self.position(&key) {
            Some(i) => {
                self.items.set(i, (name.to_owned(), value));
                proof {
                    assert(self.entries() =~= before.update(i as int, (name@, secret@)));
                    assert forall|n: Seq<char>| #[trigger]
                        lookup(self.entries(), n) == if n == name@ {
                            Some(secret@)
                        } else {
                            lookup(before, n)
                        } by {
                        lemma_lookup_update(before, i as int, name@, secret@, n);
                    }
                }
            },
            None => {
                self.items.push((name.to_owned(), value));
                proof {
                    assert(self.entries() =~= before.push((name@, secret@)));
                    lemma_lookup_absent(before, name@);
                    assert forall|n: Seq<char>| #[trigger]
                        lookup(self.entries(), n) == if n == name@ {
                            Some(secret@)
                        } else {
                            lookup(before, n)
                        } by {
                        lemma_lookup_push(before, (name@, secret@), n);
                    }
                }
            },
        }
        Ok(())
    }

    /// The position of `name` among the items, if it is there.
    fn position(&self, name: &Vec<char>) -> (r: Option<usize>)
        ensures
            r matches Some(i) ==> i < self.entries().len() && self.entries()[i as int].0 == name@
                && forall|j: int| 0 <= j < i ==> self.entries()[j].0 != name@,
            r is None ==> forall|j: int|
                0 <= j < self.entries().len() ==> self.entries()[j].0 != name@,
    {
        let mut i: usize = 0;
        while i < self.items.len()
            invariant
                i <= self.items.len(),
                self.entries().len() == self.items.len(),
                forall|j: int| 0 <= j < i ==> self.entries()[j].0 != name@,
            decreases self.items.len() - i,
        {
            let key = chars_of(self.items[i].0.as_str());
            assert(self.entries()[i as int].0 == self.items@[i as int].0@);
            if same(&key, name) {
                return Some(i);
            }
            i = i + 1;
        }
        None
    }
}

impl SecretStore for MemoryStore {
    open spec fn keeps_record(&self) -> bool {
        true
    }

    closed spec fn calls(&self) -> Seq<StoreCall> {
        self.calls@
    }

    fn get(&mut self, name: &str) -> (r: Result<Option<Vec<u8>>, SecretError>)
        ensures
            old(self).refusal() is Some ==> (r matches Err(SecretError::Keystore(m)) && Some(m@)
                == old(self).refusal()),
            old(self).refusal() is None && !is_good_name(name@) ==> (r matches Err(
                SecretError::BadName(n),
            ) && n@ == name@),
            old(self).refusal() is None && is_good_name(name@) ==> (r matches Ok(found) && match found {
                Some(v) => lookup(old(self).entries(), name@) == Some(v@),
                None => lookup(old(self).entries(), name@) is None,
            }),
            final(self).entries() == old(self).entries(),
            final(self).refusal() == old(self).refusal(),
    {
        let r = self.read(name);
        proof {
            self.calls@ = self.calls@.push(StoreCall::Read(name@, read_view(r)));
        }
        r
    }

    fn set(&mut self, name: &str, secret: &[u8]) -> (r: Result<(), SecretError>)
        ensures
            old(self).refusal() is Some ==> (r matches Err(SecretError::Keystore(m)) && Some(m@)
                == old(self).refusal() && final(self).entries() == old(self).entries()),
            old(self).refusal() is None && !is_good_name(name@) ==> (r matches Err(
                SecretError::BadName(n),
            ) && n@ == name@ && final(self).entries() == old(self).entries()),
            old(self).refusal() is None && is_good_name(name@) ==> r is Ok && forall|n: Seq<char>|
                #[trigger] lookup(final(self).entries(), n) == if n == name@ {
                    Some(secret@)
                } else {
                    lookup(old(self).entries(), n)
                },
            final(self).refusal() == old(self).refusal(),
    {
        let r = self.write(name, secret);
        proof {
            self.calls@ = self.calls@.push(StoreCall::Write(name@, secret@, r is Ok));
        }
        r
    }

    fn describe(&self) -> (d: &'static str)
        ensures
            d@ == "memory"@,
    {
        "memory"
    }
}

/// A store gives back what was last filed under a name, and filing under one
/// name leaves every other name as it was.
pub proof fn lemma_store_reads_back_writes(
    before: Seq<(Seq<char>, Seq<u8>)>,
    after: Seq<(Seq<char>, Seq<u8>)>,
    name: Seq<char>,
    secret: Seq<u8>,
    other: Seq<char>,
)
    requires
        forall|n: Seq<char>| #[trigger]
            lookup(after, n) == if n == name {
                Some(secret)
            } else {
                lookup(before, n)
            },
        other != name,
    ensures
        lookup(after, name) == Some(secret),
        lookup(after, other) == lookup(before, other),
{
    assert(lookup(after, name) == Some(secret));
    assert(lookup(after, other) == lookup(before, other));
}

} // verus!
