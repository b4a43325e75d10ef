//! Turning workspace folders into apps.
//!
//! One folder in the workspace is one app. A folder with no `app.json` gets one
//! generated, named after the folder and Private, so nothing becomes reachable
//! merely by appearing on disk.
//!
//! The folder listing, the reads and the writes are the caller's; what is
//! decided here is which folders count, which file an app opens on, what a
//! generated manifest says, and what a scan makes of each folder.

use vstd::prelude::*;

use crate::authoring::file_name;
use crate::order::{insert_by_key, key_views, sorted_keys};
use crate::access::{RelayMode, Visibility};
use crate::slug::{deduplicate, slugify, spec_deduplicate, spec_slugify, views};
use crate::text::{append_str, chars_of, lower_seq, lowercase, string_from};

verus! {

/// Where an app's data lives.
#[derive(Debug, Clone, Copy, PartialEq, Eq, Structural)]
pub enum StorageMode {
    /// One copy, shared by everyone who opens the app.
    Synced,
    /// A copy per device.
    PerDevice,
}

impl Default for StorageMode {
    /// An app whose manifest does not say shares one copy.
    fn default() -> (m: Self)
        ensures
            m == StorageMode::Synced,
    {
        StorageMode::Synced
    }
}

/// What an app says about itself in its `app.json`.
#[derive(Debug, Clone, PartialEq)]
pub struct AppManifest {
    pub name: String,
    pub slug: String,
    pub icon: Option<String>,
    /// The file the app opens on.
    pub entry: String,
    pub visibility: Visibility,
    pub version: u32,
    pub paused: bool,
    /// Whether the app is published through the relay.
    pub relay: RelayMode,
    /// The label of its public address, when the owner chose one.
    pub public_label: Option<String>,
    /// Where the app's data lives.
    pub storage: StorageMode,
    /// Whether this machine keeps a backup copy of the app's data.
    pub storage_backup: bool,
}

/// The label an app's public address uses: the one chosen, or the slug.
pub open spec fn spec_effective_label(m: AppManifest) -> Seq<char> {
    match m.public_label {
        Some(l) => l@,
        None => m.slug@,
    }
}

/// A copy of an optional string.
pub fn copy_text(o: &Option<String>) -> (r: Option<String>)
    ensures
        r == *o,
{
    match o {
        Some(s) => Some(s.clone()),
        None => None,
    }
}

impl AppManifest {
    /// A copy of this manifest.
    pub fn copy(&self) -> (m: Self)
        ensures
            m == *self,
    {
        AppManifest {
            name: self.name.clone(),
            slug: self.slug.clone(),
            icon: copy_text(&self.icon),
            entry: self.entry.clone(),
            visibility: self.visibility,
            version: self.version,
            paused: self.paused,
            relay: self.relay,
            public_label: copy_text(&self.public_label),
            storage: self.storage,
            storage_backup: self.storage_backup,
        }
    }

    /// The label this app answers to on the internet.
    pub fn effective_public_label(&self) -> (l: &str)
        ensures
            l@ == spec_effective_label(*self),
    {
        match &self.public_label {
            Some(l) => l.as_str(),
            None => self.slug.as_str(),
        }
    }
}

/// One app in the library: its manifest, where it lives, and what the folder
/// holds.
#[derive(Debug, Clone, PartialEq)]
pub struct AppRecord {
    pub manifest: AppManifest,
    pub path: String,
    pub size_bytes: u64,
    /// When anything in the folder last changed, in seconds since the epoch.
    pub deployed_at: Option<u64>,
    /// Whether the entry file is really there. An app whose root URL would
    /// 404 is flagged rather than silently broken.
    pub entry_exists: bool,
}

impl AppRecord {
    /// A copy of this record.
    pub fn copy(&self) -> (r: Self)
        ensures
            r == *self,
    {
        AppRecord {
            manifest: self.manifest.copy(),
            path: self.path.clone(),
            size_bytes: self.size_bytes,
            deployed_at: self.deployed_at,
            entry_exists: self.entry_exists,
        }
    }
}

#[derive(Debug)]
pub enum RegistryError {
    ReadWorkspace { path: String, source: String },
    Write { path: String, source: String },
    Watch(String),
}

impl RegistryError {
    /// What the log is told.
    pub open spec fn spec_message(&self) -> Seq<char> {
        match *self {
            RegistryError::ReadWorkspace { path, source } => "could not read the workspace at "@ + path@ + ": "@
                + source@,
            RegistryError::Write { path, source } => "could not write "@ + path@ + ": "@ + source@,
            RegistryError::Watch(why) => "could not watch the workspace: "@ + why@,
        }
    }

    pub fn message(&self) -> (m: String)
        ensures
            m@ == self.spec_message(),
    {
        match self {
            RegistryError::ReadWorkspace { path, source } => {
                let mut out = chars_of("could not read the workspace at ");
                append_str(&mut out, path.as_str());
                append_str(&mut out, ": ");
                append_str(&mut out, source.as_str());
                string_from(&out)
            },
            RegistryError::Write { path, source } => {
                let mut out = chars_of("could not write ");
                append_str(&mut out, path.as_str());
                append_str(&mut out, ": ");
                append_str(&mut out, source.as_str());
                string_from(&out)
            },
            RegistryError::Watch(why) => {
                let mut out = chars_of("could not watch the workspace: ");
                append_str(&mut out, why.as_str());
                string_from(&out)
            },
        }
    }
}

/// Whether a path names something hidden: its last component starts with a
/// dot.
pub open spec fn spec_hidden(path: Seq<char>) -> bool {
    match file_name(path) {
        Some(n) => n.len() > 0 && n[0] == '.',
        None => false,
    }
}

/// Whether the thing at `path` is hidden, and so is not an app or a page.
pub fn is_hidden(path: &str) -> (b: bool)
    ensures
        b == spec_hidden(path@),
{
    match crate::authoring::file_name_of(path) {
        Some(n) => n.len() > 0 && n[0] == '.',
        None => false,
    }
}

/// Whether a change to `path` is worth a rescan: not editor noise such as
/// dotfiles and backup files.
pub open spec fn spec_interesting_path(path: Seq<char>) -> bool {
    match file_name(path) {
        Some(n) => !(n.len() > 0 && n[0] == '.') && !(n.len() > 0 && n.last() == '~'),
        None => false,
    }
}

/// Whether any of the paths a filesystem event names is worth a rescan.
pub fn is_interesting(paths: &[String]) -> (b: bool)
    ensures
        b == exists|i: int| 0 <= i < paths@.len() && spec_interesting_path(#[trigger] paths@[i]@),
{
    let mut i: usize = 0;
    while i < paths.len()
        invariant
            i <= paths.len(),
            forall|k: int| 0 <= k < i ==> !spec_interesting_path(#[trigger] paths@[k]@),
        decreases paths.len() - i,
    {
        let hit = match crate::authoring::file_name_of(paths[i].as_str()) {
            Some(n) => !(n.len() > 0 && n[0] == '.') && !(n.len() > 0 && n[n.len() - 1] == '~'),
            None => false,
        };
        if hit {
            return true;
        }
        i = i + 1;
    }
    false
}

/// Whether a file name ends in `.html` or `.htm`, in any case.
pub open spec fn is_page(name: Seq<char>) -> bool {
    let l = lower_seq(name);
    (l.len() >= 5 && l.skip(l.len() - 5) == ".html"@) || (l.len() >= 4 && l.skip(l.len() - 4)
        == ".htm"@)
}

fn page(name: &String) -> (b: bool)
    ensures
        b == is_page(name@),
{
    let l = lowercase(&chars_of(name.as_str()));
    let html = chars_of(".html");
    let htm = chars_of(".htm");
    let a = l.len() >= 5 && crate::text::same(&crate::text::slice(&l, l.len() - 5, l.len()), &html);
    let b = l.len() >= 4 && crate::text::same(&crate::text::slice(&l, l.len() - 4, l.len()), &htm);
    proof {
        if l.len() >= 5 {
            assert(l@.subrange(l.len() - 5, l.len() as int) =~= l@.skip(l.len() - 5));
        }
        if l.len() >= 4 {
            assert(l@.subrange(l.len() - 4, l.len() as int) =~= l@.skip(l.len() - 4));
        }
    }
    a || b
}

/// The pages among some file names, in order.
pub open spec fn pages_of(files: Seq<Seq<char>>) -> Seq<Seq<char>>
    decreases files.len(),
{
    if files.len() == 0 {
        files
    } else if is_page(files.last()) {
        pages_of(files.drop_last()).push(files.last())
    } else {
        pages_of(files.drop_last())
    }
}

/// Which file a folder opens on. `index.html` whenever it is there, then
/// `index.htm`; otherwise the one page among the folder's (visible) files, or
/// the one file when there are no pages and only one file; otherwise the
/// default stands and the app is flagged. `files` is `None` when the folder
/// could not be listed.
pub open spec fn spec_choose_entry(
    has_index_html: bool,
    has_index_htm: bool,
    files: Option<Seq<Seq<char>>>,
) -> Seq<char> {
    if has_index_html {
        "index.html"@
    } else if has_index_htm {
        "index.htm"@
    } else {
        match files {
            None => "index.html"@,
            Some(f) => if pages_of(f).len() == 1 {
                pages_of(f)[0]
            } else if pages_of(f).len() == 0 && f.len() == 1 {
                f[0]
            } else {
                "index.html"@
            },
        }
    }
}

/// Which file a folder should open on.
pub fn choose_entry(has_index_html: bool, has_index_htm: bool, files: Option<&[String]>) -> (entry: String)
    ensures
        entry@ == spec_choose_entry(has_index_html, has_index_htm, match files {
            Some(f) => Some(views(f@)),
            None => None,
        }),
{
    if has_index_html {
        return "index.html".to_owned();
    }
    if has_index_htm {
        return "index.htm".to_owned();
    }
    let f = match files {
        None => return "index.html".to_owned(),
        Some(f) => f,
    };
    let mut pages: Vec<String> = Vec::new();
    let mut i: usize = 0;
    while i < f.len()
        invariant
            i <= f.len(),
            views(pages@) == pages_of(views(f@.take(i as int))),
        decreases f.len() - i,
    {
        let ghost before = views(f@.take(i as int));
        proof {
            assert(views(f@.take(i as int + 1)).drop_last() =~= before);
        }
        if page(&f[i]) {
            pages.push(f[i].clone());
            assert(views(pages@) =~= pages_of(before).push(f@[i as int]@));
        }
        i = i + 1;
    }
    assert(f@.take(i as int) =~= f@);
    if pages.len() == 1 {
        pages[0].clone()
    } else if pages.len() == 0 && f.len() == 1 {
        f[0].clone()
    } else {
        "index.html".to_owned()
    }
}

/// The manifest generated for a folder that has none: named after the folder,
/// slugged uniquely, Private, not published, version 1, not paused, and with
/// no public label, so the public address follows the folder until someone
/// chooses one; its data is one shared copy, backed up on this machine.
pub open spec fn is_generated_for(
    m: AppManifest,
    folder_name: Seq<char>,
    taken: Seq<Seq<char>>,
    entry: Seq<char>,
) -> bool {
    &&& m.name@ == folder_name
    &&& m.slug@ == spec_deduplicate(spec_slugify(folder_name), taken)
    &&& m.icon is None
    &&& m.entry@ == entry
    &&& m.visibility == Visibility::Private
    &&& m.version == 1
    &&& !m.paused
    &&& m.relay == RelayMode::Off
    &&& m.public_label is None
    &&& m.storage == StorageMode::Synced
    &&& m.storage_backup
}

/// The manifest for a folder called `folder_name` with no `app.json`.
pub fn generate(folder_name: &str, taken: &[String], entry: &str) -> (m: AppManifest)
    requires
        taken.len() < usize::MAX,
    ensures
        is_generated_for(m, folder_name@, views(taken@), entry@),
{
    let base = slugify(folder_name);
    let slug = deduplicate(base.as_str(), taken);
    AppManifest {
        name: folder_name.to_owned(),
        slug,
        icon: None,
        entry: entry.to_owned(),
        visibility: Visibility::Private,
        version: 1,
        paused: false,
        relay: RelayMode::Off,
        public_label: None,
        storage: StorageMode::Synced,
        storage_backup: true,
    }
}

/// What reading a folder's `app.json` found.
#[derive(Debug)]
pub enum ManifestFound {
    /// A manifest that parsed.
    Parsed(AppManifest),
    /// A file that is not a manifest: a typo must not lose the app.
    Unreadable,
    /// No file at all.
    Absent,
    /// The file could not be read, for this reason.
    Failed(String),
}

/// The manifest a folder is served with, and whether it was just generated
/// (and so has to be written next to the content).
#[derive(Debug)]
pub struct Loaded {
    pub manifest: AppManifest,
    pub generated: bool,
    /// Where the manifest lives: `app.json` in the folder.
    pub manifest_path: String,
}

/// The name a folder gives its app: its last path component, or `app`.
pub open spec fn folder_label(folder: Seq<char>) -> Seq<char> {
    match file_name(folder) {
        Some(n) => n,
        None => "app"@,
    }
}

impl Registry {
    /// What a scan makes of one folder, given what reading its manifest found,
    /// the slugs already handed out in this scan, and the file it would open
    /// on if a manifest has to be generated.
    pub fn load_or_create(&self, folder: &str, found: ManifestFound, taken: &[String], entry: &str) -> (r:
        Result<Loaded, RegistryError>)
        requires
            taken.len() < usize::MAX,
        ensures
            (match found {
                ManifestFound::Parsed(m) => r matches Ok(l) && l.manifest == m && !l.generated,
                ManifestFound::Unreadable | ManifestFound::Absent => r matches Ok(l)
                    && l.generated && is_generated_for(
                    l.manifest,
                    folder_label(folder@),
                    views(taken@),
                    entry@,
                ),
                ManifestFound::Failed(why) => r matches Err(RegistryError::Write { path, source })
                    && path@ == crate::authoring::joined(folder@, "app.json"@) && source == why,
            }),
            r matches Ok(l) ==> l.manifest_path@ == crate::authoring::joined(folder@, "app.json"@),
    {
        let manifest_path = crate::authoring::join_str(folder, "app.json");
        match found {
            ManifestFound::Parsed(m) => Ok(Loaded { manifest: m, generated: false, manifest_path }),
            ManifestFound::Unreadable | ManifestFound::Absent => {
                let name = match crate::authoring::file_name_of(folder) {
                    Some(n) => string_from(&n),
                    None => "app".to_owned(),
                };
                let manifest = generate(name.as_str(), taken, entry);
                Ok(Loaded { manifest, generated: true, manifest_path })
            },
            ManifestFound::Failed(why) => Err(
                RegistryError::Write { path: manifest_path, source: why },
            ),
        }
    }
}

/// What a walk of an app folder has found so far: the bytes in its files, and
/// the newest modification time seen, in seconds since the epoch.
pub struct Measure {
    pub bytes: u64,
    pub newest: Option<u64>,
}

impl Measure {
    pub fn new() -> (m: Self)
        ensures
            m.bytes == 0,
            m.newest is None,
    {
        Measure { bytes: 0, newest: None }
    }

    /// Counts a file's length; a total too large for `u64` stays at the top.
    pub fn count_file(&mut self, len: u64)
        ensures
            final(self).bytes == if old(self).bytes + len > u64::MAX { u64::MAX as int } else {
                old(self).bytes + len
            },
            final(self).newest == old(self).newest,
    {
        self.bytes = self.bytes.saturating_add(len);
    }

    /// Notes an entry's modification time; the newest one seen is kept.
    pub fn saw_modified(&mut self, seconds: u64)
        ensures
            final(self).bytes == old(self).bytes,
            final(self).newest == Some(
                match old(self).newest {
                    Some(n) => if seconds > n { seconds } else { n },
                    None => seconds,
                },
            ),
    {
        match self.newest {
            Some(n) => {
                if seconds > n {
                    self.newest = Some(seconds);
                }
            },
            None => {
                self.newest = Some(seconds);
            },
        }
    }
}

/// A scan's records in slug order, so that two scans of an unchanged
/// workspace agree.
pub fn sort_by_slug(records: Vec<AppRecord>) -> (r: Vec<AppRecord>)
    ensures
        r@.to_multiset() == records@.to_multiset(),
        sorted_keys(r@.map_values(|x: AppRecord| x.manifest.slug@)),
{
    let mut out: Vec<AppRecord> = Vec::new();
    let mut keys: Vec<Vec<char>> = Vec::new();
    let mut i: usize = 0;
    let ghost all = records@;
    assert(all.take(0) =~= out@);
    while i < records.len()
        invariant
            i <= records.len(),
            all == records@,
            out.len() == keys.len(),
            out@.to_multiset() == all.take(i as int).to_multiset(),
            key_views(keys@) == out@.map_values(|x: AppRecord| x.manifest.slug@),
            sorted_keys(key_views(keys@)),
        decreases records.len() - i,
    {
        let rec = records[i].copy();
        let key = chars_of(rec.manifest.slug.as_str());
        let ghost before = out@;
        let ghost kb = key_views(keys@);
        insert_by_key(&mut out, &mut keys, rec, key);
        proof {
            let p = choose|p: int|
                0 <= p <= before.len() && out@ == before.insert(p, rec) && key_views(keys@) == kb.insert(
                    p,
                    key@,
                );
            vstd::seq_lib::to_multiset_insert(before, p, rec);
            assert(all.take(i as int + 1) =~= all.take(i as int).push(rec));
            vstd::seq_lib::to_multiset_build(all.take(i as int), rec);
            assert(out@.map_values(|x: AppRecord| x.manifest.slug@) =~= before.map_values(
                |x: AppRecord| x.manifest.slug@,
            ).insert(p, rec.manifest.slug@));
        }
        i = i + 1;
    }
    assert(all.take(i as int) =~= all);
    out
}

/// The workspace being watched.
pub struct Registry {
    workspace: String,
}

impl Registry {
    pub closed spec fn root(&self) -> Seq<char> {
        self.workspace@
    }

    pub fn new(workspace: &str) -> (r: Self)
        ensures
            r.root() == workspace@,
    {
        Registry { workspace: workspace.to_owned() }
    }

    pub fn workspace(&self) -> (w: &str)
        ensures
            w@ == self.root(),
    {
        self.workspace.as_str()
    }
}

/// Nothing becomes reachable merely by appearing on disk: a generated manifest
/// is Private and unpublished, whatever the folder is called.
pub proof fn lemma_nothing_is_shared_by_existing(
    m: AppManifest,
    folder_name: Seq<char>,
    taken: Seq<Seq<char>>,
    entry: Seq<char>,
)
    requires
        is_generated_for(m, folder_name, taken, entry),
    ensures
        m.visibility == Visibility::Private,
        m.relay == RelayMode::Off,
        !m.paused,
{
}


/// Whether two manifests say the same thing.
pub open spec fn same_manifest(a: AppManifest, b: AppManifest) -> bool {
    &&& a.name@ == b.name@
    &&& a.slug@ == b.slug@
    &&& (match (a.icon, b.icon) {
        (Some(x), Some(y)) => x@ == y@,
        (None, None) => true,
        _ => false,
    })
    &&& a.entry@ == b.entry@
    &&& a.visibility == b.visibility
    &&& a.version == b.version
    &&& a.paused == b.paused
    &&& a.relay == b.relay
    &&& (match (a.public_label, b.public_label) {
        (Some(x), Some(y)) => x@ == y@,
        (None, None) => true,
        _ => false,
    })
    &&& a.storage == b.storage
    &&& a.storage_backup == b.storage_backup
}

/// Whether two records say the same thing.
pub open spec fn same_record(a: AppRecord, b: AppRecord) -> bool {
    &&& same_manifest(a.manifest, b.manifest)
    &&& a.path@ == b.path@
    &&& a.size_bytes == b.size_bytes
    &&& a.deployed_at == b.deployed_at
    &&& a.entry_exists == b.entry_exists
}

fn same_text_opt(a: &Option<String>, b: &Option<String>) -> (r: bool)
    ensures
        r == (match (*a, *b) {
            (Some(x), Some(y)) => x@ == y@,
            (None, None) => true,
            _ => false,
        }),
{
    match (a, b) {
        (Some(x), Some(y)) => x.eq(y),
        (None, None) => true,
        _ => false,
    }
}

/// Whether two records say the same thing.
pub fn records_match(a: &AppRecord, b: &AppRecord) -> (r: bool)
    ensures
        r == same_record(*a, *b),
{
    let m = &a.manifest;
    let n = &b.manifest;
    m.name.eq(&n.name) && m.slug.eq(&n.slug) && same_text_opt(&m.icon, &n.icon) && m.entry.eq(&n.entry)
        && m.visibility == n.visibility && m.version == n.version && m.paused == n.paused && m.relay
        == n.relay && same_text_opt(&m.public_label, &n.public_label) && m.storage == n.storage
        && m.storage_backup == n.storage_backup && a.path.eq(&b.path)
        && a.size_bytes == b.size_bytes && a.deployed_at == b.deployed_at && a.entry_exists
        == b.entry_exists
}

/// What changed between two scans.
#[derive(Debug)]
pub struct Diff {
    /// The records that are new or differ from the previous scan.
    pub changed: Vec<AppRecord>,
    /// The slugs of the previous scan that are gone.
    pub removed: Vec<String>,
}

impl Diff {
    pub fn is_empty(&self) -> (b: bool)
        ensures
            b == (self.changed@.len() == 0 && self.removed@.len() == 0),
    {
        self.changed.len() == 0 && self.removed.len() == 0
    }
}

/// Whether `r` is unchanged since `previous`: some record there says the same.
pub open spec fn unchanged_since(previous: Seq<AppRecord>, r: AppRecord) -> bool {
    exists|j: int| 0 <= j < previous.len() && same_record(#[trigger] previous[j], r)
}

/// Whether some record in `records` has `slug`.
pub open spec fn listed(records: Seq<AppRecord>, slug: Seq<char>) -> bool {
    exists|j: int| 0 <= j < records.len() && (#[trigger] records[j]).manifest.slug@ == slug
}

/// The records of `current` not found unchanged in `previous`, in order.
pub open spec fn spec_changed(previous: Seq<AppRecord>, current: Seq<AppRecord>) -> Seq<AppRecord>
    decreases current.len(),
{
    if current.len() == 0 {
        current
    } else if unchanged_since(previous, current.last()) {
        spec_changed(previous, current.drop_last())
    } else {
        spec_changed(previous, current.drop_last()).push(current.last())
    }
}

/// The slugs of `previous` that `current` no longer has, in order.
pub open spec fn spec_removed(previous: Seq<AppRecord>, current: Seq<AppRecord>) -> Seq<Seq<char>>
    decreases previous.len(),
{
    if previous.len() == 0 {
        Seq::empty()
    } else if listed(current, previous.last().manifest.slug@) {
        spec_removed(previous.drop_last(), current)
    } else {
        spec_removed(previous.drop_last(), current).push(previous.last().manifest.slug@)
    }
}

fn found_unchanged(previous: &[AppRecord], r: &AppRecord) -> (b: bool)
    ensures
        b == unchanged_since(previous@, *r),
{
    let mut j: usize = 0;
    while j < previous.len()
        invariant
            j <= previous.len(),
            forall|k: int| 0 <= k < j ==> !same_record(#[trigger] previous@[k], *r),
        decreases previous.len() - j,
    {
        if records_match(&previous[j], r) {
            return true;
        }
        j = j + 1;
    }
    false
}

fn is_listed(records: &[AppRecord], slug: &String) -> (b: bool)
    ensures
        b == listed(records@, slug@),
{
    let mut j: usize = 0;
    while j < records.len()
        invariant
            j <= records.len(),
            forall|k: int| 0 <= k < j ==> (#[trigger] records@[k]).manifest.slug@ != slug@,
        decreases records.len() - j,
    {
        if records[j].manifest.slug.eq(slug) {
            return true;
        }
        j = j + 1;
    }
    false
}

/// Compare a previous scan with a new one.
pub fn diff(previous: &[AppRecord], current: &[AppRecord]) -> (d: Diff)
    ensures
        d.changed@ == spec_changed(previous@, current@),
        views(d.removed@) == spec_removed(previous@, current@),
{
    let mut changed: Vec<AppRecord> = Vec::new();
    let mut i: usize = 0;
    while i < current.len()
        invariant
            i <= current.len(),
            changed@ == spec_changed(previous@, current@.take(i as int)),
        decreases current.len() - i,
    {
        proof {
            assert(current@.take(i as int + 1).drop_last() =~= current@.take(i as int));
        }
        if !found_unchanged(previous, &current[i]) {
            changed.push(current[i].copy());
        }
        i = i + 1;
    }
    assert(current@.take(i as int) =~= current@);
    let mut removed: Vec<String> = Vec::new();
    let mut j: usize = 0;
    while j < previous.len()
        invariant
            j <= previous.len(),
            views(removed@) == spec_removed(previous@.take(j as int), current@),
        decreases previous.len() - j,
    {
        proof {
            assert(previous@.take(j as int + 1).drop_last() =~= previous@.take(j as int));
        }
        let ghost before = removed@;
        if !is_listed(current, &previous[j].manifest.slug) {
            removed.push(previous[j].manifest.slug.clone());
            assert(views(removed@) =~= views(before).push(previous@[j as int].manifest.slug@));
        }
        j = j + 1;
    }
    assert(previous@.take(j as int) =~= previous@);
    Diff { changed, removed }
}

/// Whether two records agree on every field, text compared character by
/// character.
pub open spec fn agree_everywhere(a: AppRecord, b: AppRecord) -> bool {
    let m = a.manifest;
    let n = b.manifest;
    &&& m.name@ == n.name@
    &&& m.slug@ == n.slug@
    &&& (m.icon is Some <==> n.icon is Some)
    &&& (m.icon is Some ==> m.icon->Some_0@ == n.icon->Some_0@)
    &&& m.entry@ == n.entry@
    &&& m.visibility == n.visibility
    &&& m.version == n.version
    &&& m.paused == n.paused
    &&& m.relay == n.relay
    &&& (m.public_label is Some <==> n.public_label is Some)
    &&& (m.public_label is Some ==> m.public_label->Some_0@ == n.public_label->Some_0@)
    &&& m.storage == n.storage
    &&& m.storage_backup == n.storage_backup
    &&& a.path@ == b.path@
    &&& a.size_bytes == b.size_bytes
    &&& a.deployed_at == b.deployed_at
    &&& a.entry_exists == b.entry_exists
}

proof fn lemma_push_contains(s: Seq<AppRecord>, v: AppRecord, x: AppRecord)
    ensures
        s.push(v).contains(x) <==> (s.contains(x) || v == x),
{
    if s.push(v).contains(x) && v != x {
        let k = choose|k: int| 0 <= k < s.push(v).len() && s.push(v)[k] == x;
        assert(k < s.len());
        assert(s[k] == x);
    }
    if s.contains(x) {
        let k = choose|k: int| 0 <= k < s.len() && s[k] == x;
        assert(s.push(v)[k] == x);
    }
    if v == x {
        assert(s.push(v)[s.len() as int] == x);
    }
}

proof fn lemma_changed_members(previous: Seq<AppRecord>, current: Seq<AppRecord>, x: AppRecord)
    ensures
        spec_changed(previous, current).contains(x) <==> (current.contains(x) && !unchanged_since(previous, x)),
    decreases current.len(),
{
    if current.len() > 0 {
        let rest = current.drop_last();
        lemma_changed_members(previous, rest, x);
        assert(current =~= rest.push(current.last()));
        lemma_push_contains(rest, current.last(), x);
        lemma_push_contains(spec_changed(previous, rest), current.last(), x);
    } else {
        assert(!current.contains(x));
        assert(!spec_changed(previous, current).contains(x));
    }
}

/// A rescan reports a record of the new scan as changed exactly when no
/// record of the old scan agrees with it on every field: an edit to any one
/// field, the visibility say, is always a change, and a record found again
/// as it was never is.
pub proof fn lemma_diff_sees_every_edit(previous: Seq<AppRecord>, current: Seq<AppRecord>, i: int)
    requires
        0 <= i < current.len(),
    ensures
        spec_changed(previous, current).contains(current[i]) <==> !exists|j: int|
            0 <= j < previous.len() && #[trigger] agree_everywhere(previous[j], current[i]),
{
    let x = current[i];
    lemma_changed_members(previous, current, x);
    assert(current.contains(x));
    if unchanged_since(previous, x) {
        let j = choose|j: int| 0 <= j < previous.len() && same_record(#[trigger] previous[j], x);
        assert(agree_everywhere(previous[j], x));
    }
    if exists|j: int| 0 <= j < previous.len() && #[trigger] agree_everywhere(previous[j], x) {
        let j = choose|j: int| 0 <= j < previous.len() && #[trigger] agree_everywhere(previous[j], x);
        assert(same_record(previous[j], x));
    }
}

proof fn lemma_same_record_reflexive(r: AppRecord)
    ensures
        same_record(r, r),
{
}

proof fn lemma_nothing_changed(records: Seq<AppRecord>, prefix: Seq<AppRecord>)
    requires
        forall|i: int| 0 <= i < prefix.len() ==> #[trigger] unchanged_since(records, prefix[i]),
    ensures
        spec_changed(records, prefix).len() == 0,
    decreases prefix.len(),
{
    if prefix.len() > 0 {
        assert(unchanged_since(records, prefix[prefix.len() - 1]));
        assert forall|i: int| 0 <= i < prefix.drop_last().len() implies #[trigger] unchanged_since(records, prefix.drop_last()[i]) by {
            assert(prefix.drop_last()[i] == prefix[i]);
        }
        lemma_nothing_changed(records, prefix.drop_last());
    }
}

proof fn lemma_nothing_removed(prefix: Seq<AppRecord>, records: Seq<AppRecord>)
    requires
        forall|i: int| 0 <= i < prefix.len() ==> #[trigger] listed(records, prefix[i].manifest.slug@),
    ensures
        spec_removed(prefix, records).len() == 0,
    decreases prefix.len(),
{
    if prefix.len() > 0 {
        assert(listed(records, prefix[prefix.len() - 1].manifest.slug@));
        assert forall|i: int| 0 <= i < prefix.drop_last().len() implies #[trigger] listed(records, prefix.drop_last()[i].manifest.slug@) by {
            assert(prefix.drop_last()[i] == prefix[i]);
        }
        lemma_nothing_removed(prefix.drop_last(), records);
    }
}

/// Two scans of an unchanged workspace agree: comparing a listing with itself
/// reports nothing changed and nothing removed.
pub proof fn lemma_unchanged_workspace_diffs_to_nothing(records: Seq<AppRecord>)
    ensures
        spec_changed(records, records).len() == 0,
        spec_removed(records, records).len() == 0,
{
    assert forall|i: int| 0 <= i < records.len() implies #[trigger] unchanged_since(records, records[i]) by {
        lemma_same_record_reflexive(records[i]);
    }
    lemma_nothing_changed(records, records);
    assert forall|i: int| 0 <= i < records.len() implies #[trigger] listed(records, records[i].manifest.slug@) by {
    }
    lemma_nothing_removed(records, records);
}
} // verus!
