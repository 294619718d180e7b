//! The stub database: named, pre-defined lists of configuration-file paths.
//! The default entries ship with the program and the custom entries live as
//! small text files under the repository; both are read once at startup and
//! handed in, so every lookup here is pure. The text formats of those files
//! — a `name = ...` header line and a path-per-line list — are parsed and
//! rendered here with exact contracts.

use vstd::prelude::*;
use vstd::string::StrSliceExecFns;
use vstd::string::StringExecFns;

use crate::text;

verus! {

/// One stub: its display name, its lookup key, the files it covers, and
/// whether it is a custom entry of this repository.
#[derive(Debug)]
pub struct StubEntry {
    /// The human-readable application name.
    pub name: String,
    /// The lookup key.
    pub stub: String,
    /// The home-side paths this stub covers.
    pub config_files: Vec<String>,
    /// Whether the entry is a custom one, not a shipped default.
    pub is_custom: bool,
}

/// Whether two stubs hold the same data, field for field.
pub open spec fn entry_like(a: StubEntry, b: StubEntry) -> bool {
    a.name == b.name && a.stub == b.stub && a.config_files@ == b.config_files@ && a.is_custom
        == b.is_custom
}

/// An exact copy of a list of texts.
pub fn clone_strings(v: &Vec<String>) -> (r: Vec<String>)
    ensures
        r@ == v@,
{
    let mut out: Vec<String> = Vec::new();
    let mut i: usize = 0;
    let n = v.len();
    while i < n
        invariant
            i <= n,
            n == v@.len(),
            out@ == v@.take(i as int),
        decreases n - i,
    {
        out.push(v[i].clone());
        proof {
            assert(out@ =~= v@.take(i + 1));
        }
        i += 1;
    }
    proof {
        assert(v@.take(n as int) =~= v@);
    }
    out
}

impl Clone for StubEntry {
    /// A copy with the same data in every field.
    fn clone(&self) -> (r: Self)
        ensures
            entry_like(r, *self),
    {
        StubEntry {
            name: self.name.clone(),
            stub: self.stub.clone(),
            config_files: clone_strings(&self.config_files),
            is_custom: self.is_custom,
        }
    }
}

/// A copy of a list of stubs, entry for entry.
pub fn clone_entries(v: &Vec<StubEntry>) -> (r: Vec<StubEntry>)
    ensures
        r@.len() == v@.len(),
        forall|i: int| 0 <= i < v@.len() ==> entry_like(#[trigger] r@[i], v@[i]),
{
    let mut out: Vec<StubEntry> = Vec::new();
    let mut i: usize = 0;
    let n = v.len();
    while i < n
        invariant
            i <= n,
            n == v@.len(),
            out@.len() == i,
            forall|j: int| 0 <= j < i ==> entry_like(#[trigger] out@[j], v@[j]),
        decreases n - i,
    {
        out.push(v[i].clone());
        i += 1;
    }
    out
}

/// The first entry whose key is the given one.
pub open spec fn find_stub(s: Seq<StubEntry>, name: Seq<char>) -> Option<StubEntry>
    decreases s.len(),
{
    if s.len() == 0 {
        None
    } else if s.first().stub@ == name {
        Some(s.first())
    } else {
        find_stub(s.drop_first(), name)
    }
}

/// What a stub lookup finds: the first custom entry under the key, else the
/// first default one.
pub open spec fn lookup_spec(
    custom: Seq<StubEntry>,
    defaults: Seq<StubEntry>,
    name: Seq<char>,
) -> Option<StubEntry> {
    match find_stub(custom, name) {
        Some(e) => Some(e),
        None => find_stub(defaults, name),
    }
}

/// The first entry of `v` whose key is `name`, as a copy.
fn find_in(v: &Vec<StubEntry>, name: &str) -> (r: Option<StubEntry>)
    ensures
        match find_stub(v@, name@) {
            Some(e) => r matches Some(x) && entry_like(x, e),
            None => r is None,
        },
{
    let n = v.len();
    let mut i: usize = 0;
    proof {
        assert(v@.skip(0) =~= v@);
    }
    while i < n
        invariant
            i <= n,
            n == v@.len(),
            find_stub(v@, name@) == find_stub(v@.skip(i as int), name@),
        decreases n - i,
    {
        proof {
            let rest = v@.skip(i as int);
            assert(rest.first() == v@[i as int]);
            assert(rest.drop_first() =~= v@.skip(i + 1));
        }
        if text::str_eq(v[i].stub.as_str(), name) {
            return Some(v[i].clone());
        }
        i += 1;
    }
    proof {
        assert(v@.skip(n as int) =~= Seq::<StubEntry>::empty());
    }
    None
}

/// The stub database: where the repository's custom entries live, and the
/// loaded default and custom entries themselves.
pub struct ConfigDatabase {
    /// Where the custom entries live inside the repository.
    pub custom_db_path: String,
    /// The shipped default entries.
    pub defaults: Vec<StubEntry>,
    /// The repository's custom entries.
    pub custom: Vec<StubEntry>,
}

impl ConfigDatabase {
    /// A database rooted at the repository's custom directory, over the
    /// entries the caller loaded.
    pub fn new(repo_path: &str, defaults: Vec<StubEntry>, custom: Vec<StubEntry>) -> (r:
        ConfigDatabase)
        ensures
            r.custom_db_path@ == repo_path@ + "/custom_db"@,
            r.defaults == defaults,
            r.custom == custom,
    {
        ConfigDatabase {
            custom_db_path: text::str_concat(repo_path, "/custom_db"),
            defaults,
            custom,
        }
    }

    /// Like `new`, with the custom directory namespaced under a tag when
    /// one is set.
    pub fn new_with_tag(
        repo_path: &str,
        tag: Option<&str>,
        defaults: Vec<StubEntry>,
        custom: Vec<StubEntry>,
    ) -> (r: ConfigDatabase)
        ensures
            tag matches Some(t) ==> r.custom_db_path@ == repo_path@ + "/custom_db/"@ + t@,
            tag is None ==> r.custom_db_path@ == repo_path@ + "/custom_db"@,
            r.defaults == defaults,
            r.custom == custom,
    {
        let path = match tag {
            Some(t) => {
                let base = text::str_concat(repo_path, "/custom_db/");
                text::str_concat(base.as_str(), t)
            },
            None => text::str_concat(repo_path, "/custom_db"),
        };
        ConfigDatabase { custom_db_path: path, defaults, custom }
    }

    /// Look a stub up by key: custom entries shadow defaults.
    pub fn load_stub(&self, stub: &str) -> (r: Option<StubEntry>)
        ensures
            match lookup_spec(self.custom@, self.defaults@, stub@) {
                Some(e) => r matches Some(x) && entry_like(x, e),
                None => r is None,
            },
    {
        match find_in(&self.custom, stub) {
            Some(e) => Some(e),
            None => find_in(&self.defaults, stub),
        }
    }

    /// A stub's display name, files and custom flag, by key.
    pub fn get_stub_info(&self, stub: &str) -> (r: Option<(String, Vec<String>, bool)>)
        ensures
            match lookup_spec(self.custom@, self.defaults@, stub@) {
                Some(e) => r matches Some(info) && info.0 == e.name && info.1@ == e.config_files@
                    && info.2 == e.is_custom,
                None => r is None,
            },
    {
        match self.load_stub(stub) {
            Some(e) => Some((e.name, e.config_files, e.is_custom)),
            None => None,
        }
    }

    /// The shipped default entries.
    pub fn get_default_stubs(&self) -> (r: Vec<StubEntry>)
        ensures
            r@.len() == self.defaults@.len(),
            forall|i: int| 0 <= i < self.defaults@.len() ==> entry_like(
                #[trigger] r@[i],
                self.defaults@[i],
            ),
    {
        clone_entries(&self.defaults)
    }

    /// The repository's custom entries.
    pub fn get_custom_stubs(&self) -> (r: Vec<StubEntry>)
        ensures
            r@.len() == self.custom@.len(),
            forall|i: int| 0 <= i < self.custom@.len() ==> entry_like(
                #[trigger] r@[i],
                self.custom@[i],
            ),
    {
        clone_entries(&self.custom)
    }
}

/// The non-empty lines of a file list, each trimmed, in order.
pub open spec fn file_list_spec(lines: Seq<Seq<char>>) -> Seq<Seq<char>>
    decreases lines.len(),
{
    if lines.len() == 0 {
        Seq::empty()
    } else {
        let rest = file_list_spec(lines.drop_last());
        let t = text::trim_spec(lines.last());
        if t.len() == 0 {
            rest
        } else {
            rest.push(t)
        }
    }
}

/// Parse a file-list text: one path per line, trimmed, empty lines
/// dropped.
pub fn read_file_list(content: &str) -> (r: Vec<String>)
    ensures
        r.deep_view() == file_list_spec(text::split_lines_spec(content@)),
{
    let lines = text::split_lines(content);
    let n = lines.len();
    let mut out: Vec<String> = Vec::new();
    let mut i: usize = 0;
    proof {
        assert(lines.deep_view().take(0) =~= Seq::<Seq<char>>::empty());
        assert(out.deep_view() =~= file_list_spec(lines.deep_view().take(0)));
    }
    while i < n
        invariant
            i <= n,
            n == lines@.len(),
            lines.deep_view().len() == n,
            lines.deep_view() == text::split_lines_spec(content@),
            out.deep_view() == file_list_spec(lines.deep_view().take(i as int)),
        decreases n - i,
    {
        let ghost prev = out.deep_view();
        let t = text::trim(lines[i].as_str());
        if t.unicode_len() > 0 {
            out.push(t);
        }
        proof {
            let tl = lines.deep_view().take(i + 1);
            assert(tl.drop_last() =~= lines.deep_view().take(i as int));
            assert(tl.last() == lines.deep_view()[i as int]);
            assert(lines.deep_view()[i as int] == lines@[i as int]@);
            if text::trim_spec(lines@[i as int]@).len() > 0 {
                assert(out.deep_view() =~= prev.push(text::trim_spec(lines@[i as int]@)));
            }
            assert(out.deep_view() == file_list_spec(tl));
        }
        i += 1;
    }
    proof {
        assert(lines.deep_view().take(n as int) =~= lines.deep_view());
    }
    out
}

/// The value of the first `name = ` line, or nothing.
pub open spec fn find_name_line(lines: Seq<Seq<char>>) -> Option<Seq<char>>
    decreases lines.len(),
{
    if lines.len() == 0 {
        None
    } else if lines.first().len() >= 7 && lines.first().take(7) == "name = "@ {
        Some(lines.first().skip(7))
    } else {
        find_name_line(lines.drop_first())
    }
}

/// The display name an application file gives: the value of its first
/// `name = ` line, or the fallback where there is none; trimmed either way.
pub open spec fn stub_name_spec(content: Seq<char>, fallback: Seq<char>) -> Seq<char> {
    match find_name_line(text::split_lines_spec(content)) {
        Some(v) => text::trim_spec(v),
        None => text::trim_spec(fallback),
    }
}

/// Parse an application file's display name, falling back to the stub key.
pub fn parse_stub_name(content: &str, fallback: &str) -> (r: String)
    ensures
        r@ == stub_name_spec(content@, fallback@),
{
    proof {
        reveal_strlit("name = ");
    }
    let lines = text::split_lines(content);
    let n = lines.len();
    let mut i: usize = 0;
    proof {
        assert(lines.deep_view().skip(0) =~= lines.deep_view());
    }
    while i < n
        invariant
            i <= n,
            n == lines@.len(),
            lines.deep_view().len() == n,
            lines.deep_view() == text::split_lines_spec(content@),
            find_name_line(lines.deep_view()) == find_name_line(lines.deep_view().skip(i as int)),
        decreases n - i,
    {
        proof {
            let rest = lines.deep_view().skip(i as int);
            assert(rest.first() == lines.deep_view()[i as int]);
            assert(lines.deep_view()[i as int] == lines@[i as int]@);
            assert(rest.drop_first() =~= lines.deep_view().skip(i + 1));
        }
        let line = lines[i].as_str();
        if text::str_starts_with(line, "name = ") {
            let m = line.unicode_len();
            proof {
                reveal_strlit("name = ");
                assert(m >= 7);
            }
            let value = line.substring_char(7, m);
            proof {
                reveal_strlit("name = ");
                assert(line@.subrange(7, m as int) =~= line@.skip(7));
            }
            return text::trim(value);
        }
        i += 1;
    }
    proof {
        assert(lines.deep_view().skip(n as int) =~= Seq::<Seq<char>>::empty());
    }
    text::trim(fallback)
}

/// Render an application file: its single header line.
pub fn render_stub_name(name: &str) -> (r: String)
    ensures
        r@ == "name = "@ + name@ + "\n"@,
{
    let a = text::str_concat("name = ", name);
    text::str_concat(a.as_str(), "\n")
}

/// A file-list text for the given paths: each on its own line; an empty
/// list renders as a single empty line.
pub open spec fn render_list_spec(paths: Seq<Seq<char>>) -> Seq<char>
    decreases paths.len(),
{
    if paths.len() == 0 {
        seq!['\n']
    } else if paths.len() == 1 {
        paths.first() + seq!['\n']
    } else {
        paths.first() + seq!['\n'] + render_list_spec(paths.drop_first())
    }
}

/// Render a file-list text: each path on its own line.
pub fn render_file_list(paths: &Vec<String>) -> (r: String)
    ensures
        r@ == render_list_spec(paths.deep_view()),
{
    proof {
        reveal_strlit("\n");
        assert("\n"@ =~= seq!['\n']);
    }
    if paths.len() == 0 {
        return "\n".to_owned();
    }
    let n = paths.len();
    let mut out = String::new();
    let mut i: usize = n;
    proof {
        assert(paths.deep_view().skip(n as int) =~= Seq::<Seq<char>>::empty());
    }
    while i > 0
        invariant
            0 <= i <= n,
            n == paths@.len(),
            paths.deep_view().len() == n,
            n > 0,
            i < n ==> out@ == render_list_spec(paths.deep_view().skip(i as int)),
            i == n ==> out@ == Seq::<char>::empty(),
        decreases i,
    {
        i -= 1;
        let line = text::str_concat(paths[i].as_str(), "\n");
        let joined = text::str_concat(line.as_str(), out.as_str());
        out = joined;
        proof {
            reveal_strlit("\n");
            assert("\n"@ =~= seq!['\n']);
            let rest = paths.deep_view().skip(i as int);
            assert(rest.first() == paths.deep_view()[i as int]);
            assert(paths.deep_view()[i as int] == paths@[i as int]@);
            assert(rest.drop_first() =~= paths.deep_view().skip(i + 1));
            if i + 1 == n {
                assert(out@ =~= rest.first() + seq!['\n']);
                assert(rest.len() == 1);
            } else {
                assert(rest.len() > 1);
                assert(out@ == rest.first() + seq!['\n'] + render_list_spec(rest.drop_first()));
            }
            assert(out@ == render_list_spec(rest));
        }
    }
    proof {
        assert(paths.deep_view().skip(0) =~= paths.deep_view());
    }
    out
}

} // verus!
