//! Path normalization: tilde expansion against a home directory, the
//! inverse tilde form, the repository-relative form of a tracked path, and
//! the invertible naming of encrypted repository members.
//!
//! Paths are plain character strings here; the home and repository roots
//! are passed in without a trailing separator.

use vstd::prelude::*;
use vstd::string::StrSliceExecFns;
use vstd::string::StringExecFns;

use crate::text;

verus! {

/// A tilde-prefixed path expanded against a home directory: `~/`-prefixed
/// paths and bare relative paths resolve under home, absolute paths pass
/// through unchanged.
pub open spec fn expand_tilde_spec(path: Seq<char>, home: Seq<char>) -> Seq<char> {
    if path.len() >= 2 && path[0] == '~' && path[1] == '/' {
        home + seq!['/'] + path.skip(2)
    } else if path.len() >= 1 && path[0] == '/' {
        path
    } else {
        home + seq!['/'] + path
    }
}

/// A path turned back into `~/` form when it lies under the home
/// directory: the home directory itself maps to `~/`.
pub open spec fn strip_tilde_spec(path: Seq<char>, home: Seq<char>) -> Option<Seq<char>> {
    if path == home {
        Some(seq!['~', '/'])
    } else if path.len() > home.len() && path.take(home.len() as int) == home
        && path[home.len() as int] == '/' {
        Some(seq!['~', '/'] + path.skip(home.len() + 1 as int))
    } else {
        None
    }
}

/// A path with every leading `~/` removed.
pub open spec fn strip_leading_tildes(s: Seq<char>) -> Seq<char>
    decreases s.len(),
{
    if s.len() >= 2 && s[0] == '~' && s[1] == '/' {
        strip_leading_tildes(s.skip(2))
    } else {
        s
    }
}

/// A path with every leading slash removed.
pub open spec fn strip_leading_slashes(s: Seq<char>) -> Seq<char>
    decreases s.len(),
{
    if s.len() >= 1 && s[0] == '/' {
        strip_leading_slashes(s.skip(1))
    } else {
        s
    }
}

/// The repository-relative form of a tracked home path: leading `~/`
/// markers and leading slashes removed.
pub open spec fn repo_relative_spec(s: Seq<char>) -> Seq<char> {
    strip_leading_slashes(strip_leading_tildes(s))
}

/// The suffix that marks an encrypted repository member.
pub open spec fn enc_suffix() -> Seq<char> {
    seq!['.', 'e', 'n', 'c']
}

/// The repository-side name of an encrypted member.
pub open spec fn encrypted_name_spec(path: Seq<char>) -> Seq<char> {
    path + enc_suffix()
}

/// The home-side name an encrypted member's name stands for, if the name
/// carries the encrypted suffix.
pub open spec fn decrypted_name_spec(path: Seq<char>) -> Option<Seq<char>> {
    if path.len() >= 4 && path.skip(path.len() - 4) == enc_suffix() {
        Some(path.take(path.len() - 4))
    } else {
        None
    }
}

/// The encrypted-member naming is invertible: stripping the suffix from an
/// encrypted name recovers the home-side name exactly.
pub proof fn lemma_encrypted_name_invertible(path: Seq<char>)
    ensures
        decrypted_name_spec(encrypted_name_spec(path)) == Some(path),
{
    let e = encrypted_name_spec(path);
    assert(e.skip(e.len() - 4) =~= enc_suffix());
    assert(e.take(e.len() - 4) =~= path);
}

/// Content-level mirroring primitives live where the files do, outside the
/// library; this type carries the path normalization they share.
pub struct FileSyncer;

impl FileSyncer {
    /// Expand a tracked path against the home directory: `~/`-prefixed and
    /// bare relative paths resolve under home, absolute paths pass through.
    pub fn expand_tilde(path: &str, home: &str) -> (r: String)
        ensures
            r@ == expand_tilde_spec(path@, home@),
    {
        let n = path.unicode_len();
        proof {
            reveal_strlit("/");
            assert("/"@ =~= seq!['/']);
        }
        if n >= 2 && path.get_char(0) == '~' && path.get_char(1) == '/' {
            let rest = path.substring_char(2, n);
            let joined = text::str_concat(home, "/");
            let out = text::str_concat(joined.as_str(), rest);
            proof {
                assert(path@.subrange(2, n as int) =~= path@.skip(2));
            }
            out
        } else if n >= 1 && path.get_char(0) == '/' {
            path.to_owned()
        } else {
            let joined = text::str_concat(home, "/");
            text::str_concat(joined.as_str(), path)
        }
    }

    /// The `~/` form of a path that lies under the home directory, or
    /// nothing for one that does not.
    pub fn strip_tilde(path: &str, home: &str) -> (r: Option<String>)
        ensures
            r matches Some(v) ==> strip_tilde_spec(path@, home@) == Some(v@),
            r is None ==> strip_tilde_spec(path@, home@) is None,
    {
        let n = path.unicode_len();
        let h = home.unicode_len();
        proof {
            reveal_strlit("~/");
            assert("~/"@ =~= seq!['~', '/']);
        }
        if text::str_eq(path, home) {
            return Some("~/".to_owned());
        }
        if n > h && text::str_starts_with(path, home) && path.get_char(h) == '/' {
            let rest = path.substring_char(h + 1, n);
            let out = text::str_concat("~/", rest);
            proof {
                assert(path@.subrange(h + 1, n as int) =~= path@.skip(h + 1));
            }
            Some(out)
        } else {
            None
        }
    }
}

/// A path brought to the form the registry stores: expanded against home,
/// then turned back into `~/` form when it lies under home, and kept as
/// given otherwise.
pub open spec fn normalize_spec(path: Seq<char>, home: Seq<char>) -> Seq<char> {
    match strip_tilde_spec(expand_tilde_spec(path, home), home) {
        Some(v) => v,
        None => path,
    }
}

/// Bring a path to the form the registry stores.
pub fn normalize_path(path: &str, home: &str) -> (r: String)
    ensures
        r@ == normalize_spec(path@, home@),
{
    let expanded = FileSyncer::expand_tilde(path, home);
    match FileSyncer::strip_tilde(expanded.as_str(), home) {
        Some(v) => v,
        None => path.to_owned(),
    }
}

/// The repository-relative path of a tracked home path: the leading `~/`
/// markers removed.
pub fn get_relative_repo_path(home_path: &str) -> (r: String)
    ensures
        r@ == strip_leading_tildes(home_path@),
{
    let n = home_path.unicode_len();
    let mut i: usize = 0;
    proof {
        assert(home_path@.skip(0) =~= home_path@);
    }
    while i < n && i + 1 < n && home_path.get_char(i) == '~' && home_path.get_char(i + 1) == '/'
        invariant
            i <= n,
            n == home_path@.len(),
            strip_leading_tildes(home_path@) == strip_leading_tildes(home_path@.skip(i as int)),
        decreases n - i,
    {
        proof {
            let rest = home_path@.skip(i as int);
            assert(rest[0] == home_path@[i as int]);
            assert(rest[1] == home_path@[i + 1]);
            assert(rest.skip(2) =~= home_path@.skip(i + 2));
        }
        i += 2;
    }
    proof {
        let rest = home_path@.skip(i as int);
        assert(strip_leading_tildes(rest) == rest);
        assert(rest =~= home_path@.subrange(i as int, n as int));
    }
    home_path.substring_char(i, n).to_owned()
}

/// The repository-relative form with leading slashes removed as well.
pub fn repo_relative(home_path: &str) -> (r: String)
    ensures
        r@ == repo_relative_spec(home_path@),
{
    let stripped = get_relative_repo_path(home_path);
    let s = stripped.as_str();
    let n = s.unicode_len();
    let mut i: usize = 0;
    proof {
        assert(s@.skip(0) =~= s@);
    }
    while i < n && s.get_char(i) == '/'
        invariant
            i <= n,
            n == s@.len(),
            strip_leading_slashes(s@) == strip_leading_slashes(s@.skip(i as int)),
        decreases n - i,
    {
        proof {
            let rest = s@.skip(i as int);
            assert(rest[0] == s@[i as int]);
            assert(rest.skip(1) =~= s@.skip(i + 1));
        }
        i += 1;
    }
    proof {
        let rest = s@.skip(i as int);
        assert(strip_leading_slashes(rest) == rest);
        assert(rest =~= s@.subrange(i as int, n as int));
    }
    s.substring_char(i, n).to_owned()
}

/// Where a tracked home path lives inside the repository tree.
pub fn repo_file_path(repo: &str, home_path: &str) -> (r: String)
    ensures
        r@ == repo@ + seq!['/'] + repo_relative_spec(home_path@),
{
    proof {
        reveal_strlit("/");
        assert("/"@ =~= seq!['/']);
    }
    let rel = repo_relative(home_path);
    let joined = text::str_concat(repo, "/");
    text::str_concat(joined.as_str(), rel.as_str())
}

/// Where a stub's file path may live: a `~/`-prefixed or absolute path
/// names its own location; a bare name is looked for under home, under
/// `~/.config/`, and at the filesystem root, in that order.
pub open spec fn candidate_paths_spec(p: Seq<char>) -> Seq<Seq<char>> {
    if (p.len() >= 2 && p[0] == '~' && p[1] == '/') || (p.len() >= 1 && p[0] == '/') {
        seq![p]
    } else {
        seq![
            seq!['~', '/'] + p,
            seq!['~', '/', '.', 'c', 'o', 'n', 'f', 'i', 'g', '/'] + p,
            seq!['/'] + p,
        ]
    }
}

/// The candidate home-side locations of a stub's file path, most likely
/// first.
pub fn candidate_paths(file_path: &str) -> (r: Vec<String>)
    ensures
        r.deep_view() == candidate_paths_spec(file_path@),
{
    let n = file_path.unicode_len();
    let mut out: Vec<String> = Vec::new();
    if (n >= 2 && file_path.get_char(0) == '~' && file_path.get_char(1) == '/') || (n >= 1
        && file_path.get_char(0) == '/') {
        out.push(file_path.to_owned());
        proof {
            assert(out.deep_view() =~= candidate_paths_spec(file_path@));
        }
        return out;
    }
    proof {
        reveal_strlit("~/");
        reveal_strlit("~/.config/");
        reveal_strlit("/");
        assert("~/"@ =~= seq!['~', '/']);
        assert("~/.config/"@ =~= seq!['~', '/', '.', 'c', 'o', 'n', 'f', 'i', 'g', '/']);
        assert("/"@ =~= seq!['/']);
    }
    out.push(text::str_concat("~/", file_path));
    out.push(text::str_concat("~/.config/", file_path));
    out.push(text::str_concat("/", file_path));
    proof {
        assert(out.deep_view() =~= candidate_paths_spec(file_path@));
    }
    out
}

/// Pick among the candidates: the first one that exists, or the first
/// candidate when none does.
pub fn resolve_file_path(candidates: &Vec<String>, exists: &Vec<bool>) -> (r: usize)
    requires
        exists@.len() == candidates@.len(),
        candidates@.len() >= 1,
    ensures
        r < candidates@.len(),
        exists@[r as int] || r == 0,
        forall|j: int| 0 <= j < r ==> !exists@[j],
        (exists|j: int| 0 <= j < exists@.len() && exists@[j]) ==> exists@[r as int],
{
    let n = candidates.len();
    let mut i: usize = 0;
    while i < n
        invariant
            i <= n,
            n == exists@.len() == candidates@.len(),
            forall|j: int| 0 <= j < i ==> !exists@[j],
        decreases n - i,
    {
        if exists[i] {
            return i;
        }
        i += 1;
    }
    0
}

/// The repository-side name of a path's encrypted member.
pub fn encrypted_name(path: &str) -> (r: String)
    ensures
        r@ == encrypted_name_spec(path@),
{
    proof {
        reveal_strlit(".enc");
        assert(".enc"@ =~= enc_suffix());
    }
    text::str_concat(path, ".enc")
}

/// The home-side name an encrypted member's name stands for, or nothing
/// when the name does not carry the encrypted suffix.
pub fn decrypted_name(path: &str) -> (r: Option<String>)
    ensures
        r matches Some(v) ==> decrypted_name_spec(path@) == Some(v@),
        r is None ==> decrypted_name_spec(path@) is None,
{
    proof {
        reveal_strlit(".enc");
        assert(".enc"@ =~= enc_suffix());
    }
    let n = path.unicode_len();
    if text::str_ends_with(path, ".enc") {
        let out = path.substring_char(0, n - 4).to_owned();
        proof {
            assert(path@.subrange(0, n - 4) =~= path@.take(n - 4));
        }
        Some(out)
    } else {
        None
    }
}

} // verus!
