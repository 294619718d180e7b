//! The content-level sync engine: for one tracked entry, what the import
//! step writes into the repository, what the export step writes into the
//! home directory, and what state the status evaluator reports — all as
//! pure decisions over the contents the caller read.
//!
//! Contents are byte vectors; an absent file is `None`. Directory entries
//! are compared at existence level by the caller and never reach these
//! functions, a known simplification of the mirror.

use vstd::prelude::*;
use vstd::string::StrSliceExecFns;

use crate::bytes_equal;
use crate::config::TrackedFile;
use crate::crypto::encrypts_to;
use crate::crypto::CryptoError;
use crate::crypto::FileEncryptor;
use crate::crypto::AEAD_MAX_PLAINTEXT;
use crate::crypto::KEY_SIZE;
use crate::crypto::NONCE_SIZE;
use crate::crypto::TAG_SIZE;
use crate::text;

verus! {

/// The sync state of one tracked entry.
#[derive(Clone, Copy, Debug, PartialEq, Eq, Structural)]
pub enum FileStatus {
    /// Home and repository contents agree (decrypting the repository side
    /// first for an encrypted entry).
    InSync,
    /// Both sides exist and differ.
    OutOfSync,
    /// The home side exists, the repository side does not.
    MissingInRepo,
    /// The home side does not exist. This library reports such an entry as
    /// missing rather than unmanaged.
    MissingInHome,
    /// The entry is encrypted and no key is available to compare with.
    CannotVerify,
}

/// The bytes of an optional content.
pub open spec fn opt_bytes(o: Option<&Vec<u8>>) -> Option<Seq<u8>> {
    match o {
        Some(v) => Some(v@),
        None => None,
    }
}

/// The bytes of an optional owned content.
pub open spec fn opt_owned_bytes(o: Option<Vec<u8>>) -> Option<Seq<u8>> {
    match o {
        Some(v) => Some(v@),
        None => None,
    }
}

/// The sync state of one entry, over the home-side content and the
/// repository-side stored content (the encrypted member's blob for an
/// encrypted entry).
pub open spec fn status_spec(
    encrypted: bool,
    key: Option<Seq<u8>>,
    home: Option<Seq<u8>>,
    repo: Option<Seq<u8>>,
) -> FileStatus {
    match home {
        None => FileStatus::MissingInHome,
        Some(h) => match repo {
            None => FileStatus::MissingInRepo,
            Some(b) => if encrypted {
                match key {
                    None => FileStatus::CannotVerify,
                    Some(k) => if encrypts_to(b, k, h) {
                        FileStatus::InSync
                    } else {
                        FileStatus::OutOfSync
                    },
                }
            } else {
                if b == h {
                    FileStatus::InSync
                } else {
                    FileStatus::OutOfSync
                }
            },
        },
    }
}

/// Whether the import step leaves the repository side of an entry alone:
/// the home side is absent, an encrypted entry has no key, or the stored
/// content already represents the home content exactly.
pub open spec fn import_skips(
    encrypted: bool,
    key: Option<Seq<u8>>,
    home: Option<Seq<u8>>,
    repo: Option<Seq<u8>>,
) -> bool {
    match home {
        None => true,
        Some(h) => if encrypted {
            match key {
                None => true,
                Some(k) => match repo {
                    Some(b) => encrypts_to(b, k, h),
                    None => false,
                },
            }
        } else {
            repo == Some(h)
        },
    }
}

/// Whether the import step fails on an entry: its stored encrypted member
/// does not decrypt under the key, so the comparison cannot be made.
pub open spec fn import_fails(
    encrypted: bool,
    key: Option<Seq<u8>>,
    home: Option<Seq<u8>>,
    repo: Option<Seq<u8>>,
) -> bool {
    encrypted && key is Some && home is Some && match repo {
        Some(b) => !(exists|p: Seq<u8>| encrypts_to(b, key->0, p)),
        None => false,
    }
}

/// What a successful import writes for an entry: nothing when it skips,
/// the home content for a plain entry, an authentic encryption of the home
/// content for an encrypted one.
pub open spec fn import_ok(
    encrypted: bool,
    key: Option<Seq<u8>>,
    home: Option<Seq<u8>>,
    repo: Option<Seq<u8>>,
    out: Option<Seq<u8>>,
) -> bool {
    if import_skips(encrypted, key, home, repo) {
        out is None
    } else if encrypted {
        out matches Some(b) && encrypts_to(b, key->0, home->0)
            && b.len() == home->0.len() + NONCE_SIZE + TAG_SIZE
    } else {
        out == home
    }
}

/// Whether the export step leaves the home side of an entry alone: the
/// repository side is absent, an encrypted entry has no key, or the home
/// content already agrees with the stored content.
pub open spec fn export_skips(
    encrypted: bool,
    key: Option<Seq<u8>>,
    home: Option<Seq<u8>>,
    repo: Option<Seq<u8>>,
) -> bool {
    match repo {
        None => true,
        Some(b) => if encrypted {
            match key {
                None => true,
                Some(k) => match home {
                    Some(h) => encrypts_to(b, k, h),
                    None => false,
                },
            }
        } else {
            home == Some(b)
        },
    }
}

/// Whether the export step fails on an entry: its stored encrypted member
/// does not decrypt under the key.
pub open spec fn export_fails(
    encrypted: bool,
    key: Option<Seq<u8>>,
    home: Option<Seq<u8>>,
    repo: Option<Seq<u8>>,
) -> bool {
    encrypted && key is Some && match repo {
        Some(b) => !(exists|p: Seq<u8>| encrypts_to(b, key->0, p)),
        None => false,
    }
}

/// What a successful export writes for an entry: nothing when it skips,
/// the stored content for a plain entry, the decryption of the stored
/// member for an encrypted one.
pub open spec fn export_ok(
    encrypted: bool,
    key: Option<Seq<u8>>,
    home: Option<Seq<u8>>,
    repo: Option<Seq<u8>>,
    out: Option<Seq<u8>>,
) -> bool {
    if export_skips(encrypted, key, home, repo) {
        out is None
    } else if encrypted {
        out matches Some(p) && encrypts_to(repo->0, key->0, p)
    } else {
        out == repo
    }
}

/// The sync state of one entry. For an encrypted entry the stored blob is
/// compared by decrypting it; a blob that does not decrypt, or decrypts to
/// something else, is out of sync.
pub fn check_file_status(
    encrypted: bool,
    key: Option<&Vec<u8>>,
    home: Option<&Vec<u8>>,
    repo: Option<&Vec<u8>>,
) -> (r: FileStatus)
    requires
        key matches Some(k) ==> k@.len() == KEY_SIZE,
    ensures
        r == status_spec(encrypted, opt_bytes(key), opt_bytes(home), opt_bytes(repo)),
{
    let h = match home {
        Some(h) => h,
        None => {
            return FileStatus::MissingInHome;
        },
    };
    let b = match repo {
        Some(b) => b,
        None => {
            return FileStatus::MissingInRepo;
        },
    };
    if encrypted {
        let k = match key {
            Some(k) => k,
            None => {
                return FileStatus::CannotVerify;
            },
        };
        match FileEncryptor::decrypt_data(b, k) {
            Ok(p) => {
                if bytes_equal(&p, h) {
                    FileStatus::InSync
                } else {
                    FileStatus::OutOfSync
                }
            },
            Err(_) => FileStatus::OutOfSync,
        }
    } else {
        if bytes_equal(b, h) {
            FileStatus::InSync
        } else {
            FileStatus::OutOfSync
        }
    }
}

/// The import decision for one entry (home to repository): `None` to leave
/// the stored member alone, or the bytes to store. Fails only when an
/// existing encrypted member does not decrypt under the key.
pub fn import_entry(
    encrypted: bool,
    key: Option<&Vec<u8>>,
    home: Option<&Vec<u8>>,
    repo: Option<&Vec<u8>>,
) -> (r: Result<Option<Vec<u8>>, CryptoError>)
    requires
        key matches Some(k) ==> k@.len() == KEY_SIZE,
        home matches Some(h) ==> h@.len() <= AEAD_MAX_PLAINTEXT,
    ensures
        r matches Ok(out) ==> import_ok(
            encrypted,
            opt_bytes(key),
            opt_bytes(home),
            opt_bytes(repo),
            opt_owned_bytes(out),
        ),
        r is Err ==> import_fails(encrypted, opt_bytes(key), opt_bytes(home), opt_bytes(repo)),
        import_fails(encrypted, opt_bytes(key), opt_bytes(home), opt_bytes(repo)) ==> r is Err,
{
    let h = match home {
        Some(h) => h,
        None => {
            return Ok(None);
        },
    };
    if encrypted {
        let k = match key {
            Some(k) => k,
            None => {
                return Ok(None);
            },
        };
        match repo {
            Some(b) => {
                match FileEncryptor::decrypt_data(b, k) {
                    Ok(p) => {
                        proof {
                            assert(encrypts_to(b@, k@, p@));
                            assert(opt_bytes(repo) == Some(b@));
                            assert(opt_bytes(key) == Some(k@));
                            assert(exists|q: Seq<u8>|
                                encrypts_to(opt_bytes(repo)->0, opt_bytes(key)->0, q)) by {
                                assert(encrypts_to(opt_bytes(repo)->0, opt_bytes(key)->0, p@));
                            }
                            assert(!import_fails(
                                encrypted,
                                opt_bytes(key),
                                opt_bytes(home),
                                opt_bytes(repo),
                            ));
                        }
                        if bytes_equal(&p, h) {
                            Ok(None)
                        } else {
                            Ok(Some(FileEncryptor::encrypt_data(h, k)))
                        }
                    },
                    Err(e) => {
                        proof {
                            assert forall|p: Seq<u8>| !encrypts_to(b@, k@, p) by {
                                if encrypts_to(b@, k@, p) {
                                    assert(false);
                                }
                            }
                        }
                        Err(e)
                    },
                }
            },
            None => Ok(Some(FileEncryptor::encrypt_data(h, k))),
        }
    } else {
        match repo {
            Some(b) => {
                if bytes_equal(b, h) {
                    Ok(None)
                } else {
                    Ok(Some(h.clone()))
                }
            },
            None => Ok(Some(h.clone())),
        }
    }
}

/// The export decision for one entry (repository to home): `None` to leave
/// the home side alone, or the bytes the home file takes. Fails only when
/// the stored encrypted member does not decrypt under the key.
pub fn export_entry(
    encrypted: bool,
    key: Option<&Vec<u8>>,
    home: Option<&Vec<u8>>,
    repo: Option<&Vec<u8>>,
) -> (r: Result<Option<Vec<u8>>, CryptoError>)
    requires
        key matches Some(k) ==> k@.len() == KEY_SIZE,
    ensures
        r matches Ok(out) ==> export_ok(
            encrypted,
            opt_bytes(key),
            opt_bytes(home),
            opt_bytes(repo),
            opt_owned_bytes(out),
        ),
        r is Err ==> export_fails(encrypted, opt_bytes(key), opt_bytes(home), opt_bytes(repo)),
        export_fails(encrypted, opt_bytes(key), opt_bytes(home), opt_bytes(repo)) ==> r is Err,
{
    let b = match repo {
        Some(b) => b,
        None => {
            return Ok(None);
        },
    };
    if encrypted {
        let k = match key {
            Some(k) => k,
            None => {
                return Ok(None);
            },
        };
        match FileEncryptor::decrypt_data(b, k) {
            Ok(p) => {
                proof {
                    assert(encrypts_to(b@, k@, p@));
                    assert(opt_bytes(repo) == Some(b@));
                    assert(opt_bytes(key) == Some(k@));
                    assert(exists|q: Seq<u8>|
                        encrypts_to(opt_bytes(repo)->0, opt_bytes(key)->0, q)) by {
                        assert(encrypts_to(opt_bytes(repo)->0, opt_bytes(key)->0, p@));
                    }
                    assert(!export_fails(
                        encrypted,
                        opt_bytes(key),
                        opt_bytes(home),
                        opt_bytes(repo),
                    ));
                }
                match home {
                    Some(h) => {
                        if bytes_equal(&p, h) {
                            Ok(None)
                        } else {
                            Ok(Some(p))
                        }
                    },
                    None => Ok(Some(p)),
                }
            },
            Err(e) => {
                proof {
                    assert forall|p: Seq<u8>| !encrypts_to(b@, k@, p) by {
                        if encrypts_to(b@, k@, p) {
                            assert(false);
                        }
                    }
                }
                Err(e)
            },
        }
    } else {
        match home {
            Some(h) => {
                if bytes_equal(b, h) {
                    Ok(None)
                } else {
                    Ok(Some(b.clone()))
                }
            },
            None => Ok(Some(b.clone())),
        }
    }
}

/// The content of a file after a step that either wrote it or left it
/// alone.
pub open spec fn written(write: Option<Seq<u8>>, prev: Option<Seq<u8>>) -> Option<Seq<u8>> {
    match write {
        Some(w) => Some(w),
        None => prev,
    }
}

/// Idempotent sync: after one successful pass over an entry — an import
/// decision applied to its repository member, then an export decision
/// applied to its home file — a second pass makes no content-changing
/// write: both its import and its export skip, whatever the entry's
/// starting state was.
pub proof fn lemma_sync_idempotent(
    encrypted: bool,
    key: Option<Seq<u8>>,
    home0: Option<Seq<u8>>,
    repo0: Option<Seq<u8>>,
    w_import: Option<Seq<u8>>,
    w_export: Option<Seq<u8>>,
)
    requires
        import_ok(encrypted, key, home0, repo0, w_import),
        export_ok(encrypted, key, home0, written(w_import, repo0), w_export),
    ensures
        import_skips(encrypted, key, written(w_export, home0), written(w_import, repo0)),
        export_skips(encrypted, key, written(w_export, home0), written(w_import, repo0)),
{
    let repo1 = written(w_import, repo0);
    let home1 = written(w_export, home0);
    if encrypted {
        if key is Some {
            match home0 {
                Some(h) => {
                    // The import left, or wrote, a member that encrypts the
                    // home content; the export then skipped.
                    assert(repo1 matches Some(b) && encrypts_to(b, key->0, h));
                    assert(w_export is None);
                },
                None => {
                    // Nothing to import; the export either skipped or wrote
                    // the member's own plaintext out.
                    assert(w_import is None);
                    match repo0 {
                        Some(b) => {
                            assert(w_export matches Some(p) && encrypts_to(b, key->0, p));
                        },
                        None => {
                            assert(w_export is None);
                        },
                    }
                },
            }
        }
    } else {
        match home0 {
            Some(h) => {
                assert(repo1 == Some(h));
                assert(w_export is None);
            },
            None => {
                assert(w_import is None);
                match repo0 {
                    Some(b) => {
                        assert(w_export == Some(b));
                    },
                    None => {
                        assert(w_export is None);
                    },
                }
            },
        }
    }
}

/// The import step over the whole registry: for each entry, the bytes its
/// repository member takes, or `None` to leave it alone. The contents are
/// passed in registry order; the step fails exactly when some entry's
/// stored member does not decrypt under the key.
pub fn sync_home_to_repo(
    entries: &Vec<TrackedFile>,
    key: Option<&Vec<u8>>,
    homes: &Vec<Option<Vec<u8>>>,
    repos: &Vec<Option<Vec<u8>>>,
) -> (r: Result<Vec<Option<Vec<u8>>>, CryptoError>)
    requires
        homes@.len() == entries@.len(),
        repos@.len() == entries@.len(),
        key matches Some(k) ==> k@.len() == KEY_SIZE,
        forall|i: int| 0 <= i < homes@.len() && homes@[i] is Some ==> homes@[i]->0@.len()
            <= AEAD_MAX_PLAINTEXT,
    ensures
        r matches Ok(out) ==> out@.len() == entries@.len() && forall|i: int|
            0 <= i < entries@.len() ==> import_ok(
                entries@[i].encrypted,
                opt_bytes(key),
                opt_owned_bytes(homes@[i]),
                opt_owned_bytes(repos@[i]),
                opt_owned_bytes(out@[i]),
            ),
        r is Err ==> exists|i: int| 0 <= i < entries@.len() && import_fails(
            entries@[i].encrypted,
            opt_bytes(key),
            opt_owned_bytes(homes@[i]),
            opt_owned_bytes(repos@[i]),
        ),
{
    let n = entries.len();
    let mut out: Vec<Option<Vec<u8>>> = Vec::new();
    let mut i: usize = 0;
    while i < n
        invariant
            i <= n,
            n == entries@.len() == homes@.len() == repos@.len(),
            key matches Some(k) ==> k@.len() == KEY_SIZE,
            forall|j: int| 0 <= j < homes@.len() && homes@[j] is Some ==> homes@[j]->0@.len()
                <= AEAD_MAX_PLAINTEXT,
            out@.len() == i,
            forall|j: int| 0 <= j < i ==> import_ok(
                entries@[j].encrypted,
                opt_bytes(key),
                opt_owned_bytes(homes@[j]),
                opt_owned_bytes(repos@[j]),
                opt_owned_bytes(out@[j]),
            ),
        decreases n - i,
    {
        let home = match &homes[i] {
            Some(h) => Some(h),
            None => None,
        };
        let repo = match &repos[i] {
            Some(b) => Some(b),
            None => None,
        };
        match import_entry(entries[i].encrypted, key, home, repo) {
            Ok(w) => {
                out.push(w);
            },
            Err(e) => {
                return Err(e);
            },
        }
        i += 1;
    }
    Ok(out)
}

/// The export step over the whole registry: for each entry, the bytes its
/// home file takes, or `None` to leave it alone. The step fails exactly
/// when some entry's stored member does not decrypt under the key.
pub fn sync_repo_to_home(
    entries: &Vec<TrackedFile>,
    key: Option<&Vec<u8>>,
    homes: &Vec<Option<Vec<u8>>>,
    repos: &Vec<Option<Vec<u8>>>,
) -> (r: Result<Vec<Option<Vec<u8>>>, CryptoError>)
    requires
        homes@.len() == entries@.len(),
        repos@.len() == entries@.len(),
        key matches Some(k) ==> k@.len() == KEY_SIZE,
    ensures
        r matches Ok(out) ==> out@.len() == entries@.len() && forall|i: int|
            0 <= i < entries@.len() ==> export_ok(
                entries@[i].encrypted,
                opt_bytes(key),
                opt_owned_bytes(homes@[i]),
                opt_owned_bytes(repos@[i]),
                opt_owned_bytes(out@[i]),
            ),
        r is Err ==> exists|i: int| 0 <= i < entries@.len() && export_fails(
            entries@[i].encrypted,
            opt_bytes(key),
            opt_owned_bytes(homes@[i]),
            opt_owned_bytes(repos@[i]),
        ),
{
    let n = entries.len();
    let mut out: Vec<Option<Vec<u8>>> = Vec::new();
    let mut i: usize = 0;
    while i < n
        invariant
            i <= n,
            n == entries@.len() == homes@.len() == repos@.len(),
            key matches Some(k) ==> k@.len() == KEY_SIZE,
            out@.len() == i,
            forall|j: int| 0 <= j < i ==> export_ok(
                entries@[j].encrypted,
                opt_bytes(key),
                opt_owned_bytes(homes@[j]),
                opt_owned_bytes(repos@[j]),
                opt_owned_bytes(out@[j]),
            ),
        decreases n - i,
    {
        let home = match &homes[i] {
            Some(h) => Some(h),
            None => None,
        };
        let repo = match &repos[i] {
            Some(b) => Some(b),
            None => None,
        };
        match export_entry(entries[i].encrypted, key, home, repo) {
            Ok(w) => {
                out.push(w);
            },
            Err(e) => {
                return Err(e);
            },
        }
        i += 1;
    }
    Ok(out)
}

/// The sync states of the whole registry, in registry order.
pub fn statuses_of(
    entries: &Vec<TrackedFile>,
    key: Option<&Vec<u8>>,
    homes: &Vec<Option<Vec<u8>>>,
    repos: &Vec<Option<Vec<u8>>>,
) -> (r: Vec<FileStatus>)
    requires
        homes@.len() == entries@.len(),
        repos@.len() == entries@.len(),
        key matches Some(k) ==> k@.len() == KEY_SIZE,
    ensures
        r@.len() == entries@.len(),
        forall|i: int| 0 <= i < entries@.len() ==> r@[i] == status_spec(
            entries@[i].encrypted,
            opt_bytes(key),
            opt_owned_bytes(homes@[i]),
            opt_owned_bytes(repos@[i]),
        ),
{
    let n = entries.len();
    let mut out: Vec<FileStatus> = Vec::new();
    let mut i: usize = 0;
    while i < n
        invariant
            i <= n,
            n == entries@.len() == homes@.len() == repos@.len(),
            key matches Some(k) ==> k@.len() == KEY_SIZE,
            out@.len() == i,
            forall|j: int| 0 <= j < i ==> out@[j] == status_spec(
                entries@[j].encrypted,
                opt_bytes(key),
                opt_owned_bytes(homes@[j]),
                opt_owned_bytes(repos@[j]),
            ),
        decreases n - i,
    {
        let home = match &homes[i] {
            Some(h) => Some(h),
            None => None,
        };
        let repo = match &repos[i] {
            Some(b) => Some(b),
            None => None,
        };
        let s = check_file_status(entries[i].encrypted, key, home, repo);
        out.push(s);
        i += 1;
    }
    out
}

/// Whether a text holds a conflict marker: any of the three marker runs,
/// anywhere in it.
pub open spec fn has_markers_spec(s: Seq<char>) -> bool {
    text_contains_spec(s, "<<<<<<<"@) || text_contains_spec(s, "======="@)
        || text_contains_spec(s, ">>>>>>>"@)
}

/// Whether `pat` occurs contiguously inside `s`.
pub open spec fn text_contains_spec(s: Seq<char>, pat: Seq<char>) -> bool {
    exists|i: int| 0 <= i && i + pat.len() <= s.len() && #[trigger] s.subrange(i, i + pat.len())
        == pat
}

/// Whether `pat` occurs contiguously inside `s`.
pub fn text_contains(s: &str, pat: &str) -> (r: bool)
    ensures
        r == text_contains_spec(s@, pat@),
{
    let n = s.unicode_len();
    let m = pat.unicode_len();
    if m > n {
        proof {
            if text_contains_spec(s@, pat@) {
                let i = choose|i: int|
                    0 <= i && i + pat@.len() <= s@.len() && #[trigger] s@.subrange(
                        i,
                        i + pat@.len(),
                    ) == pat@;
                assert(false);
            }
        }
        return false;
    }
    let mut i: usize = 0;
    while i <= n - m
        invariant_except_break
            0 <= i <= n - m + 1,
            n == s@.len(),
            m == pat@.len(),
            m <= n,
            forall|q: int| 0 <= q < i ==> #[trigger] s@.subrange(q, q + pat@.len()) != pat@,
        ensures
            (i <= n - m && s@.subrange(i as int, i + pat@.len()) == pat@) || (i == n - m + 1
                && forall|q: int| 0 <= q < i ==> #[trigger] s@.subrange(q, q + pat@.len()) != pat@),
        decreases n - i,
    {
        let mut j: usize = 0;
        let mut hit = true;
        while j < m
            invariant_except_break
                0 <= j <= m,
                i + m <= n,
                n == s@.len(),
                m == pat@.len(),
                hit,
                forall|q: int| 0 <= q < j ==> s@[i + q] == pat@[q],
            ensures
                (hit && j == m && forall|q: int| 0 <= q < j ==> s@[i + q] == pat@[q]) || (!hit
                    && j < m && s@[i + j] != pat@[j as int]),
            decreases m - j,
        {
            if s.get_char(i + j) != pat.get_char(j) {
                hit = false;
                break;
            }
            j += 1;
        }
        if hit {
            proof {
                assert(s@.subrange(i as int, i + pat@.len()) =~= pat@);
            }
            break;
        }
        proof {
            assert(s@.subrange(i as int, i + pat@.len())[j as int] != pat@[j as int]);
        }
        i += 1;
    }
    if i <= n - m {
        proof {
            assert(text_contains_spec(s@, pat@));
        }
        true
    } else {
        false
    }
}

/// Whether a text holds any conflict marker.
pub fn has_conflict_markers(content: &str) -> (r: bool)
    ensures
        r == has_markers_spec(content@),
{
    text_contains(content, "<<<<<<<") || text_contains(content, "=======")
        || text_contains(content, ">>>>>>>")
}

/// Which paths to check for an entry's conflict markers are resolved: the
/// caller hands, per entry, the text of the file that stands for it (the
/// temporary plaintext copy for an encrypted entry, the repository file
/// otherwise), or `None` where that file is absent. Returns the paths of
/// the entries whose text still holds a marker, in registry order.
pub open spec fn marked_paths_spec(
    entries: Seq<TrackedFile>,
    contents: Seq<Option<Seq<char>>>,
) -> Seq<Seq<char>>
    decreases entries.len(),
{
    if entries.len() == 0 {
        Seq::empty()
    } else {
        let rest = marked_paths_spec(entries.drop_last(), contents.drop_last());
        if contents.last() matches Some(c) && has_markers_spec(c) {
            rest.push(entries.last().path@)
        } else {
            rest
        }
    }
}

/// The paths of the entries whose checked file still holds a conflict
/// marker.
pub fn check_for_conflict_markers(
    entries: &Vec<TrackedFile>,
    contents: &Vec<Option<String>>,
) -> (r: Vec<String>)
    requires
        contents@.len() == entries@.len(),
    ensures
        r.deep_view() == marked_paths_spec(entries@, contents.deep_view()),
{
    let n = entries.len();
    let mut out: Vec<String> = Vec::new();
    let mut i: usize = 0;
    proof {
        assert(entries@.take(0) =~= Seq::<TrackedFile>::empty());
        assert(out.deep_view() =~= marked_paths_spec(
            entries@.take(0),
            contents.deep_view().take(0),
        ));
    }
    while i < n
        invariant
            i <= n,
            n == entries@.len() == contents@.len(),
            contents.deep_view().len() == n,
            out.deep_view() == marked_paths_spec(
                entries@.take(i as int),
                contents.deep_view().take(i as int),
            ),
        decreases n - i,
    {
        let ghost prev = out.deep_view();
        let marked = match &contents[i] {
            Some(c) => has_conflict_markers(c.as_str()),
            None => false,
        };
        if marked {
            out.push(entries[i].path.clone());
        }
        proof {
            let te = entries@.take(i + 1);
            let tc = contents.deep_view().take(i + 1);
            assert(te.drop_last() =~= entries@.take(i as int));
            assert(tc.drop_last() =~= contents.deep_view().take(i as int));
            assert(te.last() == entries@[i as int]);
            assert(tc.last() == contents.deep_view()[i as int]);
            assert(contents.deep_view()[i as int] == crate::config::opt_view(contents@[i as int]));
            if marked {
                assert(out.deep_view() =~= prev.push(entries@[i as int].path@));
            } else {
                assert(out.deep_view() =~= prev);
            }
            assert(out.deep_view() == marked_paths_spec(te, tc));
        }
        i += 1;
    }
    proof {
        assert(entries@.take(n as int) =~= entries@);
        assert(contents.deep_view().take(n as int) =~= contents.deep_view());
    }
    out
}

/// A human-resolvable merge view of an encrypted conflict: both decrypted
/// versions framed by conventional conflict markers.
pub fn merged_conflict_content(ours: &str, theirs: &str) -> (r: String)
    ensures
        r@ == "<<<<<<< HEAD (ours - current)\n"@ + ours@ + "=======\n"@ + theirs@
            + ">>>>>>> theirs (incoming)\n"@,
{
    let a = text::str_concat("<<<<<<< HEAD (ours - current)\n", ours);
    let b = text::str_concat(a.as_str(), "=======\n");
    let c = text::str_concat(b.as_str(), theirs);
    text::str_concat(c.as_str(), ">>>>>>> theirs (incoming)\n")
}

/// Re-encrypt the resolved temporary plaintexts: for each encrypted entry
/// whose temporary copy exists, the fresh blob its repository member
/// takes; `None` everywhere else.
pub fn process_temp_conflicts(
    entries: &Vec<TrackedFile>,
    temps: &Vec<Option<Vec<u8>>>,
    key: &Vec<u8>,
) -> (r: Vec<Option<Vec<u8>>>)
    requires
        temps@.len() == entries@.len(),
        key@.len() == KEY_SIZE,
        forall|i: int| 0 <= i < temps@.len() && temps@[i] is Some ==> temps@[i]->0@.len()
            <= AEAD_MAX_PLAINTEXT,
    ensures
        r@.len() == entries@.len(),
        forall|i: int| 0 <= i < entries@.len() ==> (r@[i] is Some <==> (entries@[i].encrypted
            && temps@[i] is Some)),
        forall|i: int| 0 <= i < entries@.len() && r@[i] is Some ==> encrypts_to(
            r@[i]->0@,
            key@,
            temps@[i]->0@,
        ),
{
    let n = entries.len();
    let mut out: Vec<Option<Vec<u8>>> = Vec::new();
    let mut i: usize = 0;
    while i < n
        invariant
            i <= n,
            n == entries@.len() == temps@.len(),
            key@.len() == KEY_SIZE,
            forall|j: int| 0 <= j < temps@.len() && temps@[j] is Some ==> temps@[j]->0@.len()
                <= AEAD_MAX_PLAINTEXT,
            out@.len() == i,
            forall|j: int| 0 <= j < i ==> (out@[j] is Some <==> (entries@[j].encrypted
                && temps@[j] is Some)),
            forall|j: int| 0 <= j < i && out@[j] is Some ==> encrypts_to(
                out@[j]->0@,
                key@,
                temps@[j]->0@,
            ),
        decreases n - i,
    {
        let w = if entries[i].encrypted {
            match &temps[i] {
                Some(t) => Some(FileEncryptor::encrypt_data(t, key)),
                None => None,
            }
        } else {
            None
        };
        out.push(w);
        i += 1;
    }
    out
}

} // verus!
