//! The six-step sync protocol as a state machine: import, commit,
//! pull-rebase, backup, export, push. The runner performs one step at a
//! time and reports its outcome; the machine decides what comes next. Every
//! step is gated on the previous one succeeding, and a failure — in
//! particular a rebase conflict while pulling — aborts the run for good.
//!
//! The runner writes the home directory only while the machine stands in
//! the exporting phase; the conflict-safety law below shows that phase is
//! never reached once the pull-rebase step has failed, so a conflicted run
//! leaves every home-side file exactly as it was.

use vstd::prelude::*;

use crate::config::TrackedFile;
use crate::paths;
use crate::text;

verus! {

/// Where a sync run stands.
#[derive(Clone, Copy, Debug, PartialEq, Eq, Structural)]
pub enum SyncPhase {
    /// Step 1: copying changed home content into the repository.
    Importing,
    /// Step 2: staging and committing what the import changed.
    Committing,
    /// Step 3: rebasing onto the remote.
    Pulling,
    /// Step 4: snapshotting home content into a local backup.
    BackingUp,
    /// Step 5: writing repository content out to the home directory.
    Exporting,
    /// Step 6: pushing to the remote.
    Pushing,
    /// The run finished.
    Done,
    /// The run aborted; no later step runs.
    Aborted,
}

/// How one step went, as the runner reports it. For the pulling phase a
/// failure is a rebase conflict.
#[derive(Clone, Copy, Debug, PartialEq, Eq, Structural)]
pub enum StepResult {
    /// The step completed.
    Success,
    /// The step failed; the run must stop.
    Failure,
}

/// Errors of the preflight checks.
#[derive(Clone, Copy, Debug, PartialEq, Eq, Structural)]
pub enum SyncError {
    /// The directory holds no repository config.
    NotInitialized,
    /// The directory is not a version-control working copy.
    NotARepo,
    /// A rebase from an earlier conflicted run is still in progress.
    RebaseInProgress,
}

/// The sync state machine: the phase a run stands in, and what it learned
/// about the remote before starting.
pub struct SyncMachine {
    /// Where the run stands.
    pub phase: SyncPhase,
    /// Whether a remote is configured.
    pub has_remote: bool,
    /// Whether the remote already has commits on the current branch.
    pub remote_has_commits: bool,
}

/// Whether the runner may write the home directory in a phase: only while
/// exporting.
pub open spec fn writes_home(p: SyncPhase) -> bool {
    p is Exporting
}

/// The phase after one step: a finished or aborted run stays put, a failed
/// step aborts, and a successful step moves on — skipping the pull when
/// there is no remote or the remote has no commits yet, and skipping the
/// push when there is no remote.
pub open spec fn next_phase(m: SyncMachine, outcome: StepResult) -> SyncPhase {
    match m.phase {
        SyncPhase::Done => SyncPhase::Done,
        SyncPhase::Aborted => SyncPhase::Aborted,
        _ => {
            if outcome is Failure {
                SyncPhase::Aborted
            } else {
                match m.phase {
                    SyncPhase::Importing => SyncPhase::Committing,
                    SyncPhase::Committing => if m.has_remote && m.remote_has_commits {
                        SyncPhase::Pulling
                    } else {
                        SyncPhase::BackingUp
                    },
                    SyncPhase::Pulling => SyncPhase::BackingUp,
                    SyncPhase::BackingUp => SyncPhase::Exporting,
                    SyncPhase::Exporting => if m.has_remote {
                        SyncPhase::Pushing
                    } else {
                        SyncPhase::Done
                    },
                    SyncPhase::Pushing => SyncPhase::Done,
                    SyncPhase::Done => SyncPhase::Done,
                    SyncPhase::Aborted => SyncPhase::Aborted,
                }
            }
        },
    }
}

/// The machine after the first `i` of the reported outcomes.
pub open spec fn machine_at(m: SyncMachine, outcomes: Seq<StepResult>, i: int) -> SyncMachine
    decreases i,
{
    if i <= 0 {
        m
    } else {
        let prev = machine_at(m, outcomes, i - 1);
        SyncMachine { phase: next_phase(prev, outcomes[i - 1]), ..prev }
    }
}

impl SyncMachine {
    /// The preflight checks, then a machine ready to run: the registry must
    /// be initialized, the directory must be a working copy, and no rebase
    /// may be in progress. With nothing tracked there is nothing to do and
    /// the run is already finished.
    pub fn start(
        initialized: bool,
        is_repo: bool,
        in_rebase: bool,
        have_entries: bool,
        has_remote: bool,
        remote_has_commits: bool,
    ) -> (r: Result<SyncMachine, SyncError>)
        ensures
            !initialized ==> r == Err::<SyncMachine, SyncError>(SyncError::NotInitialized),
            initialized && !is_repo ==> r == Err::<SyncMachine, SyncError>(SyncError::NotARepo),
            initialized && is_repo && in_rebase ==> r == Err::<SyncMachine, SyncError>(
                SyncError::RebaseInProgress,
            ),
            initialized && is_repo && !in_rebase ==> (r matches Ok(m) && m.has_remote == has_remote
                && m.remote_has_commits == remote_has_commits && m.phase == (if have_entries {
                SyncPhase::Importing
            } else {
                SyncPhase::Done
            })),
    {
        if !initialized {
            return Err(SyncError::NotInitialized);
        }
        if !is_repo {
            return Err(SyncError::NotARepo);
        }
        if in_rebase {
            return Err(SyncError::RebaseInProgress);
        }
        let phase = if have_entries {
            SyncPhase::Importing
        } else {
            SyncPhase::Done
        };
        Ok(SyncMachine { phase, has_remote, remote_has_commits })
    }

    /// Advance by one reported step outcome.
    pub fn step(&mut self, outcome: StepResult)
        ensures
            final(self).phase == next_phase(*old(self), outcome),
            final(self).has_remote == old(self).has_remote,
            final(self).remote_has_commits == old(self).remote_has_commits,
    {
        let next = match self.phase {
            SyncPhase::Done => SyncPhase::Done,
            SyncPhase::Aborted => SyncPhase::Aborted,
            _ => {
                if matches!(outcome, StepResult::Failure) {
                    SyncPhase::Aborted
                } else {
                    match self.phase {
                        SyncPhase::Importing => SyncPhase::Committing,
                        SyncPhase::Committing => if self.has_remote && self.remote_has_commits {
                            SyncPhase::Pulling
                        } else {
                            SyncPhase::BackingUp
                        },
                        SyncPhase::Pulling => SyncPhase::BackingUp,
                        SyncPhase::BackingUp => SyncPhase::Exporting,
                        SyncPhase::Exporting => if self.has_remote {
                            SyncPhase::Pushing
                        } else {
                            SyncPhase::Done
                        },
                        SyncPhase::Pushing => SyncPhase::Done,
                        SyncPhase::Done => SyncPhase::Done,
                        SyncPhase::Aborted => SyncPhase::Aborted,
                    }
                }
            },
        };
        self.phase = next;
    }
}

/// An aborted run stays aborted, whatever outcomes are still reported.
pub proof fn lemma_aborted_absorbs(m: SyncMachine, outcomes: Seq<StepResult>, i: int, j: int)
    requires
        0 <= i <= j,
        machine_at(m, outcomes, i).phase is Aborted,
    ensures
        machine_at(m, outcomes, j).phase is Aborted,
    decreases j - i,
{
    if j > i {
        lemma_aborted_absorbs(m, outcomes, i, j - 1);
    }
}

/// Conflict safety: once the pull-rebase step fails, the run is aborted for
/// good and in particular never reaches the exporting phase — the only
/// phase in which the runner writes the home directory. The home-side
/// copies of all tracked files therefore stay exactly as they were before
/// the sync began.
pub proof fn lemma_conflict_safety(m: SyncMachine, outcomes: Seq<StepResult>, i: int, j: int)
    requires
        0 <= i < j,
        machine_at(m, outcomes, i).phase is Pulling,
        outcomes[i] is Failure,
    ensures
        machine_at(m, outcomes, j).phase is Aborted,
        !writes_home(machine_at(m, outcomes, j).phase),
    decreases j,
{
    assert(machine_at(m, outcomes, i + 1).phase is Aborted);
    lemma_aborted_absorbs(m, outcomes, i + 1, j);
}

/// The phases a run can only hold once its pull step is behind it.
pub open spec fn past_pull(p: SyncPhase) -> bool {
    p is Exporting || p is Pushing || p is Done || p is Aborted
}

proof fn lemma_past_pull_closed(m: SyncMachine, outcomes: Seq<StepResult>, t0: int, t: int)
    requires
        0 <= t0 <= t,
        past_pull(machine_at(m, outcomes, t0).phase),
    ensures
        past_pull(machine_at(m, outcomes, t).phase),
    decreases t - t0,
{
    if t > t0 {
        lemma_past_pull_closed(m, outcomes, t0, t - 1);
    }
}

/// Conflict safety for a whole run: when the pull-rebase step of a run
/// reports a conflict, no point of that run — earlier or later — stands in
/// the exporting phase. The runner writes the home directory only in that
/// phase, so every home-side file is byte-identical to its pre-sync state.
pub proof fn lemma_conflicted_run_never_exports(
    m: SyncMachine,
    outcomes: Seq<StepResult>,
    i: int,
    t: int,
)
    requires
        0 <= i,
        0 <= t,
        machine_at(m, outcomes, i).phase is Pulling,
        outcomes[i] is Failure,
    ensures
        !writes_home(machine_at(m, outcomes, t).phase),
{
    if t > i {
        lemma_conflict_safety(m, outcomes, i, t);
    } else {
        if writes_home(machine_at(m, outcomes, t).phase) {
            lemma_past_pull_closed(m, outcomes, t, i);
            assert(false);
        }
    }
}

/// The contrapositive reading: a run that stands in the exporting phase had
/// no conflict at its pull-rebase step.
pub proof fn lemma_export_implies_clean_pull(
    m: SyncMachine,
    outcomes: Seq<StepResult>,
    i: int,
    j: int,
)
    requires
        0 <= i < j,
        machine_at(m, outcomes, i).phase is Pulling,
        machine_at(m, outcomes, j).phase is Exporting,
    ensures
        outcomes[i] is Success,
{
    if outcomes[i] is Failure {
        lemma_conflict_safety(m, outcomes, i, j);
        assert(false);
    }
}

/// How the runner resolves the encryption key before a sync that needs
/// one.
#[derive(Clone, Copy, Debug, PartialEq, Eq, Structural)]
pub enum KeyResolution {
    /// Marker and key are both present: read the key file from home.
    LoadFromHome,
    /// The key is absent: prompt for the mnemonic phrase, derive the key
    /// and persist it to home; write the marker too when it was missing.
    Recover {
        /// Whether the repository still needs its marker written.
        create_marker: bool,
    },
    /// Nothing indicates this repository uses encryption.
    NoEncryptionConfigured,
}

/// Decide how to obtain the encryption key, from the custody snapshot and
/// whether the repository holds encrypted members without a marker (an old
/// layout).
pub fn resolve_encryption_key(
    marker_present: bool,
    key_present: bool,
    repo_has_encrypted_members: bool,
) -> (r: KeyResolution)
    ensures
        marker_present && key_present ==> r == KeyResolution::LoadFromHome,
        marker_present && !key_present ==> r == (KeyResolution::Recover { create_marker: false }),
        !marker_present && repo_has_encrypted_members ==> r == (KeyResolution::Recover {
            create_marker: true,
        }),
        !marker_present && !repo_has_encrypted_members ==> r
            == KeyResolution::NoEncryptionConfigured,
{
    if marker_present && key_present {
        KeyResolution::LoadFromHome
    } else if marker_present {
        KeyResolution::Recover { create_marker: false }
    } else if repo_has_encrypted_members {
        KeyResolution::Recover { create_marker: true }
    } else {
        KeyResolution::NoEncryptionConfigured
    }
}

/// Decide whether continuing after a conflict needs the key at all, and
/// how to obtain it: no encrypted entry means no key is needed, and a
/// repository without marker or key is left alone.
pub fn get_encryption_key_if_needed(
    entries: &Vec<TrackedFile>,
    marker_present: bool,
    key_present: bool,
) -> (r: KeyResolution)
    ensures
        !crate::config::any_encrypted(entries@) ==> r == KeyResolution::NoEncryptionConfigured,
        crate::config::any_encrypted(entries@) && marker_present && key_present ==> r
            == KeyResolution::LoadFromHome,
        crate::config::any_encrypted(entries@) && marker_present && !key_present ==> r
            == (KeyResolution::Recover { create_marker: false }),
        crate::config::any_encrypted(entries@) && !marker_present ==> r
            == KeyResolution::NoEncryptionConfigured,
{
    if !crate::config::has_encrypted(entries) {
        return KeyResolution::NoEncryptionConfigured;
    }
    if marker_present && key_present {
        KeyResolution::LoadFromHome
    } else if marker_present {
        KeyResolution::Recover { create_marker: false }
    } else {
        KeyResolution::NoEncryptionConfigured
    }
}

/// Relies on chrono::Local::now and chrono's formatter: the wall clock
/// rendered as `year-month-day hour:minute:second` text. The result depends
/// on the clock, so nothing is promised of it.
#[verifier::external_body]
fn clock_stamp_human() -> String {
    chrono::Local::now().format("%Y-%m-%d %H:%M:%S").to_string()
}

/// Relies on chrono::Local::now and chrono's formatter: the wall clock
/// rendered as compact `yearmonthday_hourminutesecond` text fit for a
/// directory name. The result depends on the clock, so nothing is promised
/// of it.
#[verifier::external_body]
fn clock_stamp_compact() -> String {
    chrono::Local::now().format("%Y%m%d_%H%M%S").to_string()
}

/// The message of the commit step: a fixed prefix, then the wall clock.
pub fn fresh_commit_message() -> (r: String)
    ensures
        r@.len() >= 15,
        r@.take(15) == "dotfiles sync: "@,
{
    let stamp = clock_stamp_human();
    let msg = text::str_concat("dotfiles sync: ", stamp.as_str());
    proof {
        reveal_strlit("dotfiles sync: ");
        assert(msg@.take(15) =~= "dotfiles sync: "@);
    }
    msg
}

/// Where the backup step puts this run's snapshot: a clock-named directory
/// under the repository's local backup root, which version control ignores.
pub fn fresh_backup_dir(repo: &str) -> (r: String)
    ensures
        r@.len() >= repo@.len() + 9,
        r@.take(repo@.len() + 9 as int) == repo@ + "/.backup/"@,
{
    let stamp = clock_stamp_compact();
    let root = text::str_concat(repo, "/.backup/");
    let dir = text::str_concat(root.as_str(), stamp.as_str());
    proof {
        reveal_strlit("/.backup/");
        assert(dir@.take(repo@.len() + 9 as int) =~= repo@ + "/.backup/"@);
    }
    dir
}

/// The repository-relative paths the backup step snapshots: one per
/// eligible entry — those whose home side exists as a regular file — in
/// registry order, always stored as plaintext.
pub open spec fn backup_paths_spec(entries: Seq<TrackedFile>, eligible: Seq<bool>) -> Seq<
    Seq<char>,
>
    decreases entries.len(),
{
    if entries.len() == 0 {
        Seq::empty()
    } else {
        let rest = backup_paths_spec(entries.drop_last(), eligible.drop_last());
        if eligible.last() {
            rest.push(paths::repo_relative_spec(entries.last().path@))
        } else {
            rest
        }
    }
}

/// The repository-relative paths to snapshot, for the entries the caller
/// found eligible (home side exists and is a regular file).
pub fn backup_paths(entries: &Vec<TrackedFile>, eligible: &Vec<bool>) -> (r: Vec<String>)
    requires
        eligible@.len() == entries@.len(),
    ensures
        r.deep_view() == backup_paths_spec(entries@, eligible@),
{
    let n = entries.len();
    let mut out: Vec<String> = Vec::new();
    let mut i: usize = 0;
    proof {
        assert(entries@.take(0) =~= Seq::<TrackedFile>::empty());
        assert(out.deep_view() =~= backup_paths_spec(entries@.take(0), eligible@.take(0)));
    }
    while i < n
        invariant
            i <= n,
            n == entries@.len() == eligible@.len(),
            out.deep_view() == backup_paths_spec(entries@.take(i as int), eligible@.take(i as int)),
        decreases n - i,
    {
        let ghost prev = out.deep_view();
        if eligible[i] {
            out.push(paths::repo_relative(entries[i].path.as_str()));
        }
        proof {
            let te = entries@.take(i + 1);
            let tb = eligible@.take(i + 1);
            assert(te.drop_last() =~= entries@.take(i as int));
            assert(tb.drop_last() =~= eligible@.take(i as int));
            assert(te.last() == entries@[i as int]);
            assert(tb.last() == eligible@[i as int]);
            if eligible@[i as int] {
                assert(out.deep_view() =~= prev.push(
                    paths::repo_relative_spec(entries@[i as int].path@),
                ));
            }
            assert(out.deep_view() == backup_paths_spec(te, tb));
        }
        i += 1;
    }
    proof {
        assert(entries@.take(n as int) =~= entries@);
        assert(eligible@.take(n as int) =~= eligible@);
    }
    out
}

} // verus!
