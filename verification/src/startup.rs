//! What the daemon decides as it starts: which session key to serve with,
//! whether to seed the sample app, and whether a folder can be the
//! workspace.

use vstd::prelude::*;

use crate::secret::{read_view, SecretError, SecretStore, StoreCall};
use crate::session::SessionKeys;
use crate::text::{append_str, chars_of, debug_quoted, quoted, string_from};

verus! {

/// Where the session key is kept.
pub const SESSION_KEY: &'static str = "session-key";

/// How long a session key is.
pub const KEY_LEN: usize = 32;

/// What to do about the session key, given what the keystore said.
#[derive(Debug)]
pub enum KeyPlan {
    /// Serve with the stored key; existing sessions still work.
    Use([u8; 32]),
    /// Make a new key, and (when `save`) try to store it. A keystore that
    /// could not be read is not written: the key lasts this run.
    Generate { save: bool },
}

/// What the stored session key, or its absence, amounts to.
pub fn key_plan(stored: &Result<Option<Vec<u8>>, SecretError>) -> (p: KeyPlan)
    ensures
        stored is Err ==> (p matches KeyPlan::Generate { save } && !save),
        stored is Ok && stored->Ok_0 is Some && stored->Ok_0->Some_0.len() == KEY_LEN ==> (p matches KeyPlan::Use(seed) && seed@
            == stored->Ok_0->Some_0@),
        stored is Ok && stored->Ok_0 is Some && stored->Ok_0->Some_0.len() != KEY_LEN ==> (p matches KeyPlan::Generate { save }
            && save),
        stored is Ok && stored->Ok_0 is None ==> (p matches KeyPlan::Generate { save } && save),
{
    match stored {
        Err(_) => KeyPlan::Generate { save: false },
        Ok(None) => KeyPlan::Generate { save: true },
        Ok(Some(bytes)) => {
            if bytes.len() == KEY_LEN {
                let mut seed = [0u8; 32];
                let mut i: usize = 0;
                while i < 32
                    invariant
                        i <= 32,
                        bytes.len() == 32,
                        forall|k: int| 0 <= k < i ==> seed@[k] == bytes@[k],
                    decreases 32 - i,
                {
                    seed.set(i, bytes[i]);
                    i = i + 1;
                }
                assert(seed@ =~= bytes@);
                KeyPlan::Use(seed)
            } else {
                KeyPlan::Generate { save: true }
            }
        },
    }
}

/// The session keys a stored value makes, when it makes any: a stored value
/// of exactly the key's length is the key itself; anything else, or a
/// keystore that could not be read, makes none.
pub fn stored_keys(stored: &Result<Option<Vec<u8>>, SecretError>) -> (k: Option<SessionKeys>)
    ensures
        (match stored {
            Ok(Some(bytes)) => if bytes@.len() == KEY_LEN {
                k matches Some(keys) && keys.spec_seed() == bytes@
            } else {
                k is None
            },
            _ => k is None,
        }),
{
    match key_plan(stored) {
        KeyPlan::Use(seed) => Some(SessionKeys::from_bytes(&seed)),
        KeyPlan::Generate { .. } => None,
    }
}

/// What resolving the session key did to a store whose record of reads and
/// writes went from `before` to `after`, and returned `k`: one read of the
/// key; a stored key of the right length is used as it is and nothing is
/// written; after nothing or a key of another length, a new key is written
/// once, and it is the one returned; after a failed read nothing is written.
pub open spec fn keys_resolved(before: Seq<StoreCall>, after: Seq<StoreCall>, k: Option<SessionKeys>) -> bool {
    let n = before.len();
    &&& after.len() > n
    &&& after.take(n as int) == before
    &&& after[n as int] matches StoreCall::Read(name, got)
    &&& name == SESSION_KEY@
    &&& (k matches Some(keys) ==> keys.spec_seed().len() == KEY_LEN)
    &&& match got {
        Some(Some(b)) => if b.len() == KEY_LEN {
            after.len() == n + 1 && (k matches Some(keys) && keys.spec_seed() == b)
        } else {
            match k {
                Some(keys) => after.len() == n + 2 && (after[n + 1int] matches StoreCall::Write(w, bytes, _) && w
                    == SESSION_KEY@ && bytes == keys.spec_seed()),
                None => after.len() == n + 1,
            }
        },
        Some(None) => match k {
            Some(keys) => after.len() == n + 2 && (after[n + 1int] matches StoreCall::Write(w, bytes, _) && w
                == SESSION_KEY@ && bytes == keys.spec_seed()),
            None => after.len() == n + 1,
        },
        None => after.len() == n + 1,
    }
}

/// The session key to serve with: the stored one if there is a good one,
/// otherwise a new one, saved when the keystore can take it. `None` only when
/// the machine has no randomness to make a key from.
pub fn resolve_keys<S: SecretStore>(secrets: &mut S) -> (k: Option<SessionKeys>)
    ensures
        final(secrets).keeps_record() == old(secrets).keeps_record(),
        old(secrets).keeps_record() ==> keys_resolved(old(secrets).calls(), final(secrets).calls(), k),
        k matches Some(keys) ==> keys.spec_seed().len() == KEY_LEN,
{
    let ghost before = secrets.calls();
    let stored = secrets.get(SESSION_KEY);
    let ghost after_read = secrets.calls();
    proof {
        if old(secrets).keeps_record() {
            assert(after_read.take(before.len() as int) =~= before);
        }
    }
    if let Some(keys) = stored_keys(&stored) {
        return Some(keys);
    }
    // A keystore that could not be read is not written: the key lasts this run.
    let save = match stored {
        Ok(_) => true,
        Err(_) => false,
    };
    let keys = match SessionKeys::generate() {
        Some(k) => k,
        None => return None,
    };
    if save {
        let bytes = keys.to_bytes();
        let _ = secrets.set(SESSION_KEY, &bytes);
        proof {
            if old(secrets).keeps_record() {
                assert(secrets.calls().take(before.len() as int) =~= before);
            }
        }
    }
    Some(keys)
}

/// What seeding the sample app comes to.
#[derive(Debug, Clone, Copy, PartialEq, Eq, Structural)]
pub enum SeedPlan {
    /// Nothing to do: turned off, done before, or the answer is unknown.
    Skip,
    /// A `Welcome` folder is there already: leave it, and remember.
    Remember,
    /// Write the sample app, and remember.
    Write,
}

/// Whether to seed the sample app on this run. Once seeded it is never
/// seeded again, so deleting it sticks; a store that cannot say is not
/// guessed at.
pub fn seed_plan(turned_off: bool, seeded: Result<bool, ()>, folder_exists: bool) -> (p: SeedPlan)
    ensures
        turned_off ==> p == SeedPlan::Skip,
        !turned_off && seeded != Ok::<bool, ()>(false) ==> p == SeedPlan::Skip,
        !turned_off && seeded == Ok::<bool, ()>(false) && folder_exists ==> p == SeedPlan::Remember,
        !turned_off && seeded == Ok::<bool, ()>(false) && !folder_exists ==> p == SeedPlan::Write,
{
    if turned_off {
        return SeedPlan::Skip;
    }
    match seeded {
        Ok(false) => if folder_exists {
            SeedPlan::Remember
        } else {
            SeedPlan::Write
        },
        _ => SeedPlan::Skip,
    }
}

/// Why a folder cannot be the workspace.
#[derive(Debug, Clone, PartialEq, Eq)]
pub enum WorkspaceError {
    NotAbsolute(String),
    Missing(String),
    NotAFolder(String),
    /// A git repository: every folder in a workspace gets an `app.json`
    /// written into it, and that is somebody's source tree.
    IsRepository(String),
    InsideStateDir(String),
    Unreadable(String, String),
}

impl WorkspaceError {
    /// What the owner is told: the folder, and what is wrong with it.
    pub open spec fn spec_message(&self) -> Seq<char> {
        match *self {
            WorkspaceError::NotAbsolute(s) => "a workspace has to be a full path, and "@ + debug_quoted(s@)
                + " is not"@,
            WorkspaceError::Missing(s) => debug_quoted(s@) + " does not exist"@,
            WorkspaceError::NotAFolder(s) => debug_quoted(s@) + " is a file, not a folder"@,
            WorkspaceError::IsRepository(s) => debug_quoted(s@)
                + " is a git repository, and every folder inside a workspace gets an app.json written into it"@,
            WorkspaceError::InsideStateDir(s) => debug_quoted(s@) + " is inside Kitchen Table's own data folder"@,
            WorkspaceError::Unreadable(s, why) => debug_quoted(s@) + " cannot be read: "@ + why@,
        }
    }

    pub fn message(&self) -> (m: String)
        ensures
            m@ == self.spec_message(),
    {
        match self {
            WorkspaceError::NotAbsolute(s) => {
                let mut out = chars_of("a workspace has to be a full path, and ");
                let q = quoted(s.as_str());
                append_str(&mut out, q.as_str());
                append_str(&mut out, " is not");
                string_from(&out)
            },
            WorkspaceError::Unreadable(s, why) => {
                let q = quoted(s.as_str());
                let mut out = chars_of(q.as_str());
                append_str(&mut out, " cannot be read: ");
                append_str(&mut out, why.as_str());
                string_from(&out)
            },
            WorkspaceError::Missing(s) => {
                let q = quoted(s.as_str());
                let mut out = chars_of(q.as_str());
                append_str(&mut out, " does not exist");
                string_from(&out)
            },
            WorkspaceError::NotAFolder(s) => {
                let q = quoted(s.as_str());
                let mut out = chars_of(q.as_str());
                append_str(&mut out, " is a file, not a folder");
                string_from(&out)
            },
            WorkspaceError::IsRepository(s) => {
                let q = quoted(s.as_str());
                let mut out = chars_of(q.as_str());
                append_str(
                    &mut out,
                    " is a git repository, and every folder inside a workspace gets an app.json written into it",
                );
                string_from(&out)
            },
            WorkspaceError::InsideStateDir(s) => {
                let q = quoted(s.as_str());
                let mut out = chars_of(q.as_str());
                append_str(&mut out, " is inside Kitchen Table's own data folder");
                string_from(&out)
            },
        }
    }
}

/// What is known about a folder the owner picked.
#[derive(Debug)]
pub struct PickedFolder {
    pub absolute: bool,
    pub exists: bool,
    pub is_dir: bool,
    /// Its canonical path, or why it has none.
    pub canonical: Result<String, String>,
    /// Whether listing it failed, and why.
    pub listing: Result<(), String>,
    pub has_git: bool,
    /// Kitchen Table's own directory, canonical, if it exists yet.
    pub state_dir: Option<String>,
}

/// Check a folder the owner picked (shown as `shown`), and return the path to
/// store: checked in order, each refusal naming the folder.
pub fn validate(shown: &str, f: PickedFolder) -> (r: Result<String, WorkspaceError>)
    ensures
        !f.absolute ==> (r matches Err(WorkspaceError::NotAbsolute(s)) && s@ == shown@),
        f.absolute && !f.exists ==> (r matches Err(WorkspaceError::Missing(s)) && s@ == shown@),
        f.absolute && f.exists && !f.is_dir ==> (r matches Err(WorkspaceError::NotAFolder(s)) && s@
            == shown@),
        f.absolute && f.exists && f.is_dir && f.canonical is Err ==> (r matches Err(
            WorkspaceError::Unreadable(s, why),
        ) && s@ == shown@ && why == f.canonical->Err_0),
        f.absolute && f.exists && f.is_dir && f.canonical is Ok && f.listing is Err ==> (r matches Err(
            WorkspaceError::Unreadable(s, why),
        ) && s@ == shown@ && why == f.listing->Err_0),
        f.absolute && f.exists && f.is_dir && f.canonical is Ok && f.listing is Ok && f.has_git ==> (r matches Err(
            WorkspaceError::IsRepository(s),
        ) && s@ == shown@),
        f.absolute && f.exists && f.is_dir && f.canonical is Ok && f.listing is Ok && !f.has_git ==> {
            let path = f.canonical->Ok_0@;
            &&& (f.state_dir matches Some(st) && crate::authoring::within(path, st@)) ==> (r matches Err(
                WorkspaceError::InsideStateDir(s),
            ) && s@ == shown@)
            &&& !(f.state_dir matches Some(st) && crate::authoring::within(path, st@)) ==> (r matches Ok(
                p,
            ) && p@ == path)
        },
{
    if !f.absolute {
        return Err(WorkspaceError::NotAbsolute(shown.to_owned()));
    }
    if !f.exists {
        return Err(WorkspaceError::Missing(shown.to_owned()));
    }
    if !f.is_dir {
        return Err(WorkspaceError::NotAFolder(shown.to_owned()));
    }
    let path = match f.canonical {
        Err(why) => return Err(WorkspaceError::Unreadable(shown.to_owned(), why)),
        Ok(p) => p,
    };
    match f.listing {
        Err(why) => return Err(WorkspaceError::Unreadable(shown.to_owned(), why)),
        Ok(()) => {},
    }
    if f.has_git {
        return Err(WorkspaceError::IsRepository(shown.to_owned()));
    }
    if let Some(state) = &f.state_dir {
        if crate::authoring::inside(path.as_str(), state.as_str()) {
            return Err(WorkspaceError::InsideStateDir(shown.to_owned()));
        }
    }
    Ok(path)
}

} // verus!
