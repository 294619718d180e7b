//! The registry of managed files and its configuration: the repository-level
//! config (the ordered list of entries), the machine-local config
//! (where the repository and home directory live), the merged runtime view,
//! and the registry operations with their uniqueness invariant.
//!
//! Reading and writing the config files is I/O and stays with the caller;
//! a manager is constructed from whatever the caller found on disk and all
//! decisions here are pure.

use vstd::prelude::*;
use vstd::string::StringExecFns;

use crate::text;

verus! {

/// One registry entry: where it came from (a stub name, or added directly),
/// its home-side path, and whether its repository member is encrypted.
#[derive(Debug)]
pub struct TrackedFile {
    /// The stub this entry came from; absent for a directly added path.
    pub stub: Option<String>,
    /// The home-side path, normally in `~/` form.
    pub path: String,
    /// Whether the repository-side member is encrypted.
    pub encrypted: bool,
}

impl Clone for TrackedFile {
    /// An exact copy.
    fn clone(&self) -> (r: Self)
        ensures
            r == *self,
    {
        TrackedFile {
            stub: match &self.stub {
                Some(s) => Some(s.clone()),
                None => None,
            },
            path: self.path.clone(),
            encrypted: self.encrypted,
        }
    }
}

/// The repository-level config: the ordered entry list, absent until
/// something is managed.
#[derive(Debug)]
pub struct DotfilesConfig {
    /// The managed entries, in the order they were added.
    pub tracked_files: Option<Vec<TrackedFile>>,
}

/// The machine-local config, kept in the home directory and never synced.
#[derive(Debug)]
pub struct LocalConfig {
    /// Whether XDG-style locations are preferred.
    pub use_xdg: bool,
    /// Where the repository working copy lives.
    pub repo_path: String,
    /// Where the home directory lives.
    pub home_path: String,
    /// An optional tag that namespaces custom stubs.
    pub tag: Option<String>,
}

impl Clone for LocalConfig {
    /// An exact copy.
    fn clone(&self) -> (r: Self)
        ensures
            r == *self,
    {
        LocalConfig {
            use_xdg: self.use_xdg,
            repo_path: self.repo_path.clone(),
            home_path: self.home_path.clone(),
            tag: match &self.tag {
                Some(t) => Some(t.clone()),
                None => None,
            },
        }
    }
}

/// The mathematical value of a local config.
pub struct LocalConfigV {
    /// Whether XDG-style locations are preferred.
    pub use_xdg: bool,
    /// Where the repository working copy lives.
    pub repo_path: Seq<char>,
    /// Where the home directory lives.
    pub home_path: Seq<char>,
    /// An optional tag that namespaces custom stubs.
    pub tag: Option<Seq<char>>,
}

/// The characters of an optional text.
pub open spec fn opt_view(o: Option<String>) -> Option<Seq<char>> {
    match o {
        Some(s) => Some(s@),
        None => None,
    }
}

impl View for LocalConfig {
    type V = LocalConfigV;

    open spec fn view(&self) -> LocalConfigV {
        LocalConfigV {
            use_xdg: self.use_xdg,
            repo_path: self.repo_path@,
            home_path: self.home_path@,
            tag: opt_view(self.tag),
        }
    }
}

/// The merged runtime view: local settings plus the entry list.
#[derive(Debug)]
pub struct RuntimeConfig {
    /// Whether XDG-style locations are preferred.
    pub use_xdg: bool,
    /// Where the repository working copy lives.
    pub repo_path: String,
    /// Where the home directory lives.
    pub home_path: String,
    /// An optional tag that namespaces custom stubs.
    pub tag: Option<String>,
    /// The managed entries.
    pub tracked_files: Vec<TrackedFile>,
}

/// Errors of the local-config update operation.
#[derive(Clone, Copy, Debug, PartialEq, Eq, Structural)]
pub enum ConfigError {
    /// The field name is not one the local config has.
    UnknownField,
    /// The value is not `true` or `false` where a boolean is expected.
    InvalidBool,
}

/// Errors of the registry operations.
#[derive(Clone, Copy, Debug, PartialEq, Eq, Structural)]
pub enum RegistryError {
    /// An entry with this path is already in the registry.
    DuplicatePath,
}

/// Whether some entry of the registry tracks this path.
pub open spec fn contains_path(s: Seq<TrackedFile>, p: Seq<char>) -> bool {
    exists|i: int| 0 <= i < s.len() && s[i].path@ == p
}

/// The registry invariant: no two entries track the same path.
pub open spec fn paths_unique(s: Seq<TrackedFile>) -> bool {
    forall|i: int, j: int| 0 <= i < j < s.len() ==> s[i].path@ != s[j].path@
}

/// Whether any registry entry is marked encrypted.
pub open spec fn any_encrypted(s: Seq<TrackedFile>) -> bool {
    exists|i: int| 0 <= i < s.len() && s[i].encrypted
}

/// Add an entry to the registry. A path that is already managed is
/// rejected, so the uniqueness invariant is kept; otherwise the entry is
/// appended at the end.
pub fn add_entry(entries: &mut Vec<TrackedFile>, entry: TrackedFile) -> (r: Result<(), RegistryError>)
    ensures
        contains_path(old(entries)@, entry.path@) ==> r == Err::<(), RegistryError>(
            RegistryError::DuplicatePath,
        ) && final(entries)@ == old(entries)@,
        !contains_path(old(entries)@, entry.path@) ==> r == Ok::<(), RegistryError>(())
            && final(entries)@ == old(entries)@.push(entry),
        paths_unique(old(entries)@) ==> paths_unique(final(entries)@),
{
    let mut i: usize = 0;
    let n = entries.len();
    while i < n
        invariant
            i <= n,
            n == entries@.len(),
            entries@ == old(entries)@,
            forall|j: int| 0 <= j < i ==> entries@[j].path@ != entry.path@,
        decreases n - i,
    {
        if text::str_eq(entries[i].path.as_str(), entry.path.as_str()) {
            return Err(RegistryError::DuplicatePath);
        }
        i += 1;
    }
    entries.push(entry);
    proof {
        let s = entries@;
        assert(forall|i: int| 0 <= i < s.len() - 1 ==> s[i] == old(entries)@[i]);
        if paths_unique(old(entries)@) {
            assert forall|i: int, j: int| 0 <= i < j < s.len() implies s[i].path@ != s[j].path@ by {
                if j < s.len() - 1 {
                    assert(old(entries)@[i].path@ != old(entries)@[j].path@);
                } else {
                    assert(!contains_path(old(entries)@, entry.path@));
                    assert(old(entries)@[i].path@ != entry.path@);
                }
            }
        }
    }
    Ok(())
}

/// Whether a path is already managed.
pub fn is_tracked(entries: &Vec<TrackedFile>, path: &str) -> (r: bool)
    ensures
        r == contains_path(entries@, path@),
{
    let mut i: usize = 0;
    let n = entries.len();
    while i < n
        invariant
            i <= n,
            n == entries@.len(),
            forall|j: int| 0 <= j < i ==> entries@[j].path@ != path@,
        decreases n - i,
    {
        if text::str_eq(entries[i].path.as_str(), path) {
            return true;
        }
        i += 1;
    }
    false
}

/// Whether any registry entry is marked encrypted.
pub fn has_encrypted(entries: &Vec<TrackedFile>) -> (r: bool)
    ensures
        r == any_encrypted(entries@),
{
    let mut i: usize = 0;
    let n = entries.len();
    while i < n
        invariant
            i <= n,
            n == entries@.len(),
            forall|j: int| 0 <= j < i ==> !entries@[j].encrypted,
        decreases n - i,
    {
        if entries[i].encrypted {
            return true;
        }
        i += 1;
    }
    false
}

/// The registry without the entries that track a path; the rest keep
/// their order.
pub open spec fn remove_path_spec(s: Seq<TrackedFile>, p: Seq<char>) -> Seq<TrackedFile>
    decreases s.len(),
{
    if s.len() == 0 {
        s
    } else {
        let rest = remove_path_spec(s.drop_last(), p);
        if s.last().path@ == p {
            rest
        } else {
            rest.push(s.last())
        }
    }
}

/// The registry without the entries that came from a stub; the rest keep
/// their order.
pub open spec fn remove_stub_spec(s: Seq<TrackedFile>, stub: Seq<char>) -> Seq<TrackedFile>
    decreases s.len(),
{
    if s.len() == 0 {
        s
    } else {
        let rest = remove_stub_spec(s.drop_last(), stub);
        if s.last().stub is Some && s.last().stub->0@ == stub {
            rest
        } else {
            rest.push(s.last())
        }
    }
}

proof fn lemma_remove_path_len(s: Seq<TrackedFile>, p: Seq<char>)
    ensures
        remove_path_spec(s, p).len() <= s.len(),
    decreases s.len(),
{
    if s.len() > 0 {
        lemma_remove_path_len(s.drop_last(), p);
    }
}

proof fn lemma_remove_stub_len(s: Seq<TrackedFile>, stub: Seq<char>)
    ensures
        remove_stub_spec(s, stub).len() <= s.len(),
    decreases s.len(),
{
    if s.len() > 0 {
        lemma_remove_stub_len(s.drop_last(), stub);
    }
}

/// Remove every entry whose path is the given one; the rest keep their
/// order. Returns how many entries the registry lost.
pub fn remove_by_path(entries: &mut Vec<TrackedFile>, path: &str) -> (removed: usize)
    ensures
        final(entries)@ == remove_path_spec(old(entries)@, path@),
        removed == old(entries)@.len() - final(entries)@.len(),
{
    let n = entries.len();
    let mut out: Vec<TrackedFile> = Vec::new();
    let mut i: usize = 0;
    proof {
        assert(old(entries)@.take(0) =~= Seq::<TrackedFile>::empty());
    }
    while i < n
        invariant
            i <= n,
            n == entries@.len(),
            entries@ == old(entries)@,
            out@ == remove_path_spec(entries@.take(i as int), path@),
            out@.len() <= i,
        decreases n - i,
    {
        let ghost prev = out@;
        let keep = !text::str_eq(entries[i].path.as_str(), path);
        if keep {
            out.push(entries[i].clone());
        }
        proof {
            let t = entries@.take(i + 1);
            assert(t.drop_last() =~= entries@.take(i as int));
            assert(t.last() == entries@[i as int]);
            assert(out@ == remove_path_spec(t, path@));
            lemma_remove_path_len(t, path@);
        }
        i += 1;
    }
    proof {
        assert(entries@.take(n as int) =~= entries@);
    }
    let removed = n - out.len();
    *entries = out;
    removed
}

/// Remove every entry that came from the given stub; the rest keep their
/// order. Returns how many entries the registry lost.
pub fn remove_by_stub(entries: &mut Vec<TrackedFile>, stub: &str) -> (removed: usize)
    ensures
        final(entries)@ == remove_stub_spec(old(entries)@, stub@),
        removed == old(entries)@.len() - final(entries)@.len(),
{
    let n = entries.len();
    let mut out: Vec<TrackedFile> = Vec::new();
    let mut i: usize = 0;
    proof {
        assert(old(entries)@.take(0) =~= Seq::<TrackedFile>::empty());
    }
    while i < n
        invariant
            i <= n,
            n == entries@.len(),
            entries@ == old(entries)@,
            out@ == remove_stub_spec(entries@.take(i as int), stub@),
            out@.len() <= i,
        decreases n - i,
    {
        let keep = match &entries[i].stub {
            Some(s) => !text::str_eq(s.as_str(), stub),
            None => true,
        };
        if keep {
            out.push(entries[i].clone());
        }
        proof {
            let t = entries@.take(i + 1);
            assert(t.drop_last() =~= entries@.take(i as int));
            assert(t.last() == entries@[i as int]);
            assert(out@ == remove_stub_spec(t, stub@));
            lemma_remove_stub_len(t, stub@);
        }
        i += 1;
    }
    proof {
        assert(entries@.take(n as int) =~= entries@);
    }
    let removed = n - out.len();
    *entries = out;
    removed
}

/// Add a directly named path to the registry: the path is normalized to
/// its `~/` form against the home directory, and a path that is already
/// tracked is rejected without change. On success the new entry stands at
/// the end, stub-less, with the given encryption flag.
pub fn add_direct_path(
    entries: &mut Vec<TrackedFile>,
    path: &str,
    home: &str,
    encrypt: bool,
) -> (r: Result<String, RegistryError>)
    ensures
        contains_path(old(entries)@, crate::paths::normalize_spec(path@, home@)) ==> r == Err::<
            String,
            RegistryError,
        >(RegistryError::DuplicatePath) && final(entries)@ == old(entries)@,
        !contains_path(old(entries)@, crate::paths::normalize_spec(path@, home@)) ==> ({
            &&& r matches Ok(p) && p@ == crate::paths::normalize_spec(path@, home@)
            &&& final(entries)@.len() == old(entries)@.len() + 1
            &&& forall|i: int| 0 <= i < old(entries)@.len() ==> final(entries)@[i] == old(
                entries,
            )@[i]
            &&& final(entries)@.last().path@ == crate::paths::normalize_spec(path@, home@)
            &&& final(entries)@.last().stub is None
            &&& final(entries)@.last().encrypted == encrypt
        }),
        paths_unique(old(entries)@) ==> paths_unique(final(entries)@),
{
    let normalized = crate::paths::normalize_path(path, home);
    let entry = TrackedFile { stub: None, path: normalized.clone(), encrypted: encrypt };
    match add_entry(entries, entry) {
        Ok(_) => Ok(normalized),
        Err(e) => Err(e),
    }
}

/// Track each of a stub's paths that is not yet tracked, in the order the
/// stub lists them, all under the stub's name and with the given
/// encryption flag. Entries already tracked stay untouched and duplicate
/// paths within the stub are added once, so the uniqueness invariant is
/// kept.
pub fn add_stub_paths(
    entries: &mut Vec<TrackedFile>,
    stub: &str,
    stub_paths: &Vec<String>,
    encrypt: bool,
)
    ensures
        old(entries)@.len() <= final(entries)@.len() <= old(entries)@.len() + stub_paths@.len(),
        forall|i: int| 0 <= i < old(entries)@.len() ==> final(entries)@[i] == old(entries)@[i],
        forall|i: int| old(entries)@.len() <= i < final(entries)@.len() ==> {
            &&& (#[trigger] final(entries)@[i]).stub matches Some(s) && s@ == stub@
            &&& final(entries)@[i].encrypted == encrypt
            &&& exists|j: int| 0 <= j < stub_paths@.len() && final(entries)@[i].path@
                == stub_paths@[j]@
        },
        forall|j: int| 0 <= j < stub_paths@.len() ==> contains_path(
            final(entries)@,
            #[trigger] stub_paths@[j]@,
        ),
        paths_unique(old(entries)@) ==> paths_unique(final(entries)@),
{
    let n = stub_paths.len();
    let mut i: usize = 0;
    while i < n
        invariant
            i <= n,
            n == stub_paths@.len(),
            old(entries)@.len() <= entries@.len() <= old(entries)@.len() + i,
            forall|k: int| 0 <= k < old(entries)@.len() ==> entries@[k] == old(entries)@[k],
            forall|k: int| old(entries)@.len() <= k < entries@.len() ==> {
                &&& (#[trigger] entries@[k]).stub matches Some(s) && s@ == stub@
                &&& entries@[k].encrypted == encrypt
                &&& exists|j: int| 0 <= j < stub_paths@.len() && entries@[k].path@
                    == stub_paths@[j]@
            },
            forall|j: int| 0 <= j < i ==> contains_path(entries@, #[trigger] stub_paths@[j]@),
            paths_unique(old(entries)@) ==> paths_unique(entries@),
        decreases n - i,
    {
        let ghost before = entries@;
        if !is_tracked(entries, stub_paths[i].as_str()) {
            let entry = TrackedFile {
                stub: Some(stub.to_owned()),
                path: stub_paths[i].clone(),
                encrypted: encrypt,
            };
            let res = add_entry(entries, entry);
            proof {
                assert(res is Ok);
                assert(entries@ == before.push(entries@.last()));
                assert forall|j: int| 0 <= j < i implies contains_path(
                    entries@,
                    #[trigger] stub_paths@[j]@,
                ) by {
                    let w = choose|w: int| 0 <= w < before.len() && before[w].path@
                        == stub_paths@[j]@;
                    assert(entries@[w].path@ == stub_paths@[j]@);
                }
            }
        }
        proof {
            assert(contains_path(entries@, stub_paths@[i as int]@));
        }
        i += 1;
    }
}

/// An exact copy of an entry list.
pub fn clone_tracked(v: &Vec<TrackedFile>) -> (r: Vec<TrackedFile>)
    ensures
        r@ == v@,
{
    let mut out: Vec<TrackedFile> = Vec::new();
    let mut i: usize = 0;
    let n = v.len();
    while i < n
        invariant
            i <= n,
            n == v@.len(),
            out@ == v@.take(i as int),
        decreases n - i,
    {
        out.push(v[i].clone());
        proof {
            assert(out@ =~= v@.take(i + 1));
        }
        i += 1;
    }
    proof {
        assert(v@.take(n as int) =~= v@);
    }
    out
}

/// The local config a machine starts from: no XDG preference, the
/// repository in the current directory, the given home directory, no tag.
pub open spec fn default_local_view(home: Seq<char>) -> LocalConfigV {
    LocalConfigV { use_xdg: false, repo_path: seq!['.'], home_path: home, tag: None }
}

/// `true` or `false`, as a boolean; anything else is nothing.
pub open spec fn parse_bool(v: Seq<char>) -> Option<bool> {
    if v == "true"@ {
        Some(true)
    } else if v == "false"@ {
        Some(false)
    } else {
        None
    }
}

/// A local config with one named field replaced by a parsed value, or
/// nothing when the field is unknown or the value does not parse.
pub open spec fn update_local_spec(l: LocalConfigV, field: Seq<char>, value: Seq<char>) -> Option<
    LocalConfigV,
> {
    if field == "use_xdg"@ {
        match parse_bool(value) {
            Some(b) => Some(LocalConfigV { use_xdg: b, ..l }),
            None => None,
        }
    } else if field == "repo_path"@ {
        Some(LocalConfigV { repo_path: value, ..l })
    } else if field == "home_path"@ {
        Some(LocalConfigV { home_path: value, ..l })
    } else if field == "tag"@ {
        Some(LocalConfigV { tag: if value.len() == 0 { None } else { Some(value) }, ..l })
    } else {
        None
    }
}

/// Manages the registry and both config layers for one repository. The
/// caller reads the two config files (when they exist) and hands their
/// parsed contents in; everything after that is pure.
pub struct ConfigManager {
    /// Where the repository working copy lives.
    pub repo_path: String,
    /// Where the home directory lives.
    pub home_path: String,
    /// The repository-level config, if its file existed.
    pub config: Option<DotfilesConfig>,
    /// The machine-local config, if its file existed.
    pub local: Option<LocalConfig>,
}

impl ConfigManager {
    /// The local config this manager works from: the one found on disk, or
    /// the starting default.
    pub open spec fn local_view(self) -> LocalConfigV {
        match self.local {
            Some(l) => l@,
            None => default_local_view(self.home_path@),
        }
    }

    /// The managed entries this manager works from: the repository config's
    /// list, or empty where there is none.
    pub open spec fn tracked_view(self) -> Seq<TrackedFile> {
        match self.config {
            Some(c) => match c.tracked_files {
                Some(v) => v@,
                None => Seq::empty(),
            },
            None => Seq::empty(),
        }
    }

    /// A manager over the given roots and whatever configs the caller found.
    pub fn new(
        repo_path: String,
        home_path: String,
        config: Option<DotfilesConfig>,
        local: Option<LocalConfig>,
    ) -> (r: ConfigManager)
        ensures
            r.repo_path == repo_path,
            r.home_path == home_path,
            r.config == config,
            r.local == local,
    {
        ConfigManager { repo_path, home_path, config, local }
    }

    /// Where the repository-level config file lives: inside the repository.
    pub fn get_config_path(&self) -> (r: String)
        ensures
            r@ == self.repo_path@ + "/dotfiles.config.json"@,
    {
        text::str_concat(self.repo_path.as_str(), "/dotfiles.config.json")
    }

    /// Where the machine-local config file lives: inside the home
    /// directory, never inside the repository.
    pub fn get_local_config_path(&self) -> (r: String)
        ensures
            r@ == self.home_path@ + "/.dotfiles.local.config.json"@,
    {
        text::str_concat(self.home_path.as_str(), "/.dotfiles.local.config.json")
    }

    /// Whether the repository is initialized: its config file was found.
    pub fn is_initialized(&self) -> (r: bool)
        ensures
            r == (self.config is Some),
    {
        self.config.is_some()
    }

    /// Where the repository working copy lives.
    pub fn get_repo_path(&self) -> (r: &String)
        ensures
            r == self.repo_path,
    {
        &self.repo_path
    }

    /// The managed entries: the repository config's list, or empty.
    pub fn load_tracked_files(&self) -> (r: Vec<TrackedFile>)
        ensures
            r@ == self.tracked_view(),
    {
        match &self.config {
            Some(c) => match &c.tracked_files {
                Some(v) => clone_tracked(v),
                None => Vec::new(),
            },
            None => Vec::new(),
        }
    }

    /// Replace the managed-entry list; the rest of the state is untouched.
    pub fn save_tracked_files(&mut self, entries: Vec<TrackedFile>)
        ensures
            final(self).config == Some(DotfilesConfig { tracked_files: Some(entries) }),
            final(self).repo_path == old(self).repo_path,
            final(self).home_path == old(self).home_path,
            final(self).local == old(self).local,
    {
        self.config = Some(DotfilesConfig { tracked_files: Some(entries) });
    }

    /// The merged runtime view: the local settings layered over their
    /// defaults, plus the entries list.
    pub fn load_runtime_config(&self) -> (r: RuntimeConfig)
        ensures
            r.use_xdg == self.local_view().use_xdg,
            r.repo_path@ == self.local_view().repo_path,
            r.home_path@ == self.local_view().home_path,
            opt_view(r.tag) == self.local_view().tag,
            r.tracked_files@ == self.tracked_view(),
    {
        let local = match &self.local {
            Some(l) => l.clone(),
            None => {
                proof {
                    reveal_strlit(".");
                    assert("."@ =~= seq!['.']);
                }
                LocalConfig {
                    use_xdg: false,
                    repo_path: ".".to_owned(),
                    home_path: self.home_path.clone(),
                    tag: None,
                }
            },
        };
        RuntimeConfig {
            use_xdg: local.use_xdg,
            repo_path: local.repo_path,
            home_path: local.home_path,
            tag: local.tag,
            tracked_files: self.load_tracked_files(),
        }
    }

    /// Set one named field of the local config from its textual value,
    /// starting from the default local config where none was found yet.
    /// Unknown fields and unparsable booleans are rejected and change
    /// nothing.
    pub fn update_local_config_field(&mut self, field: &str, value: &str) -> (r: Result<
        (),
        ConfigError,
    >)
        ensures
            r is Ok <==> update_local_spec(old(self).local_view(), field@, value@) is Some,
            r is Ok ==> final(self).local is Some && Some(final(self).local->0@)
                == update_local_spec(old(self).local_view(), field@, value@),
            r is Err ==> *final(self) == *old(self),
            final(self).repo_path == old(self).repo_path,
            final(self).home_path == old(self).home_path,
            final(self).config == old(self).config,
    {
        let mut local = match &self.local {
            Some(l) => l.clone(),
            None => {
                proof {
                    reveal_strlit(".");
                    assert("."@ =~= seq!['.']);
                }
                LocalConfig {
                    use_xdg: false,
                    repo_path: ".".to_owned(),
                    home_path: self.home_path.clone(),
                    tag: None,
                }
            },
        };
        if text::str_eq(field, "use_xdg") {
            if text::str_eq(value, "true") {
                local.use_xdg = true;
            } else if text::str_eq(value, "false") {
                local.use_xdg = false;
            } else {
                return Err(ConfigError::InvalidBool);
            }
        } else if text::str_eq(field, "repo_path") {
            local.repo_path = value.to_owned();
        } else if text::str_eq(field, "home_path") {
            local.home_path = value.to_owned();
        } else if text::str_eq(field, "tag") {
            if value.unicode_len() == 0 {
                local.tag = None;
            } else {
                local.tag = Some(value.to_owned());
            }
        } else {
            return Err(ConfigError::UnknownField);
        }
        self.local = Some(local);
        Ok(())
    }
}

} // verus!
