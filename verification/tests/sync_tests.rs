use dotfiles::config::TrackedFile;
use dotfiles::crypto::FileEncryptor;
use dotfiles::paths::{decrypted_name, encrypted_name};
use dotfiles::protocol::{
    resolve_encryption_key, get_encryption_key_if_needed, KeyResolution, StepResult, SyncError,
    SyncMachine, SyncPhase,
};
use dotfiles::sync::{
    check_file_status, check_for_conflict_markers, export_entry, has_conflict_markers,
    import_entry, merged_conflict_content, process_temp_conflicts, statuses_of,
    sync_home_to_repo, sync_repo_to_home, FileStatus,
};

fn entry(path: &str, encrypted: bool) -> TrackedFile {
    TrackedFile {
        stub: None,
        path: path.to_string(),
        encrypted,
    }
}

fn test_key() -> Vec<u8> {
    (100u8..132u8).collect()
}

#[test]
fn import_writes_new_plain_file_to_repo() {
    // Tracked ~/.vimrc, home content "set nu\n", repository side absent:
    // the import step writes "set nu\n" repository-side.
    let home: Vec<u8> = b"set nu\n".to_vec();
    let out = import_entry(false, None, Some(&home), None).unwrap();
    assert_eq!(out, Some(home.clone()));

    // The commit step follows the import in the protocol.
    let mut m = SyncMachine::start(true, true, false, true, false, false).unwrap();
    assert_eq!(m.phase, SyncPhase::Importing);
    m.step(StepResult::Success);
    assert_eq!(m.phase, SyncPhase::Committing);
}

#[test]
fn import_encrypted_member_decrypts_back() {
    // The same entry with encrypted=true and key K: the repository member
    // carries the encrypted extension and decrypts under K to the content.
    let key = test_key();
    let home: Vec<u8> = b"set nu\n".to_vec();
    let repo_name = encrypted_name("/repo/.vimrc");
    assert_eq!(repo_name, "/repo/.vimrc.enc");
    assert_eq!(decrypted_name(&repo_name).as_deref(), Some("/repo/.vimrc"));

    let blob = import_entry(true, Some(&key), Some(&home), None)
        .unwrap()
        .unwrap();
    assert_eq!(FileEncryptor::decrypt_data(&blob, &key).unwrap(), home);
}

#[test]
fn import_skips_unchanged_content() {
    let home: Vec<u8> = b"same\n".to_vec();
    let repo = home.clone();
    assert_eq!(import_entry(false, None, Some(&home), Some(&repo)).unwrap(), None);

    let key = test_key();
    let blob = FileEncryptor::encrypt_data(&home, &key);
    assert_eq!(
        import_entry(true, Some(&key), Some(&home), Some(&blob)).unwrap(),
        None
    );
}

#[test]
fn import_fails_on_undecryptable_member() {
    let key = test_key();
    let home: Vec<u8> = b"x".to_vec();
    let mut blob = FileEncryptor::encrypt_data(&home, &key);
    let last = blob.len() - 1;
    blob[last] ^= 1;
    assert!(import_entry(true, Some(&key), Some(&home), Some(&blob)).is_err());
}

#[test]
fn export_creates_missing_home_file() {
    // Repository file present, home file absent: the export step hands the
    // repository content out for the home file to be created with.
    let repo: Vec<u8> = b"exported\n".to_vec();
    let out = export_entry(false, None, None, Some(&repo)).unwrap();
    assert_eq!(out, Some(repo.clone()));
}

#[test]
fn export_decrypts_encrypted_member() {
    let key = test_key();
    let plain: Vec<u8> = b"secret rc\n".to_vec();
    let blob = FileEncryptor::encrypt_data(&plain, &key);
    let out = export_entry(true, Some(&key), None, Some(&blob)).unwrap();
    assert_eq!(out, Some(plain));
}

#[test]
fn second_sync_pass_writes_nothing() {
    // Idempotent sync: after one import-and-export pass, a second pass
    // makes zero content-changing writes, plain and encrypted alike.
    let key = test_key();
    let home_plain: Vec<u8> = b"plain\n".to_vec();
    let home_secret: Vec<u8> = b"secret\n".to_vec();

    let repo_plain = import_entry(false, None, Some(&home_plain), None)
        .unwrap()
        .unwrap();
    let repo_blob = import_entry(true, Some(&key), Some(&home_secret), None)
        .unwrap()
        .unwrap();
    assert_eq!(
        export_entry(false, None, Some(&home_plain), Some(&repo_plain)).unwrap(),
        None
    );
    assert_eq!(
        export_entry(true, Some(&key), Some(&home_secret), Some(&repo_blob)).unwrap(),
        None
    );
    assert_eq!(
        import_entry(false, None, Some(&home_plain), Some(&repo_plain)).unwrap(),
        None
    );
    assert_eq!(
        import_entry(true, Some(&key), Some(&home_secret), Some(&repo_blob)).unwrap(),
        None
    );
}

#[test]
fn whole_registry_import_and_export() {
    let key = test_key();
    let entries = vec![entry("~/.vimrc", false), entry("~/.netrc", true)];
    let homes = vec![Some(b"set nu\n".to_vec()), Some(b"machine x\n".to_vec())];
    let repos = vec![None, None];
    let writes = sync_home_to_repo(&entries, Some(&key), &homes, &repos).unwrap();
    assert_eq!(writes.len(), 2);
    assert_eq!(writes[0], Some(b"set nu\n".to_vec()));
    let blob = writes[1].clone().unwrap();
    assert_eq!(
        FileEncryptor::decrypt_data(&blob, &key).unwrap(),
        b"machine x\n".to_vec()
    );

    let repos2 = vec![writes[0].clone(), writes[1].clone()];
    let homes2 = vec![None, None];
    let outs = sync_repo_to_home(&entries, Some(&key), &homes2, &repos2).unwrap();
    assert_eq!(outs[0], Some(b"set nu\n".to_vec()));
    assert_eq!(outs[1], Some(b"machine x\n".to_vec()));
}

#[test]
fn status_covers_every_state() {
    let key = test_key();
    let home: Vec<u8> = b"a\n".to_vec();
    let other: Vec<u8> = b"b\n".to_vec();
    let blob = FileEncryptor::encrypt_data(&home, &key);

    assert_eq!(check_file_status(false, None, None, None), FileStatus::MissingInHome);
    assert_eq!(
        check_file_status(false, None, Some(&home), None),
        FileStatus::MissingInRepo
    );
    assert_eq!(
        check_file_status(false, None, Some(&home), Some(&home)),
        FileStatus::InSync
    );
    assert_eq!(
        check_file_status(false, None, Some(&home), Some(&other)),
        FileStatus::OutOfSync
    );
    assert_eq!(
        check_file_status(true, Some(&key), Some(&home), Some(&blob)),
        FileStatus::InSync
    );
    assert_eq!(
        check_file_status(true, Some(&key), Some(&other), Some(&blob)),
        FileStatus::OutOfSync
    );
    assert_eq!(
        check_file_status(true, None, Some(&home), Some(&blob)),
        FileStatus::CannotVerify
    );

    let entries = vec![entry("~/.a", false), entry("~/.b", true)];
    let homes = vec![Some(home.clone()), Some(home.clone())];
    let repos = vec![Some(home.clone()), Some(blob.clone())];
    let st = statuses_of(&entries, Some(&key), &homes, &repos);
    assert_eq!(st, vec![FileStatus::InSync, FileStatus::InSync]);
}

#[test]
fn preflight_checks_abort_early() {
    assert!(matches!(
        SyncMachine::start(false, true, false, true, true, true),
        Err(SyncError::NotInitialized)
    ));
    assert!(matches!(
        SyncMachine::start(true, false, false, true, true, true),
        Err(SyncError::NotARepo)
    ));
    assert!(matches!(
        SyncMachine::start(true, true, true, true, true, true),
        Err(SyncError::RebaseInProgress)
    ));
    let m = SyncMachine::start(true, true, false, false, true, true).unwrap();
    assert_eq!(m.phase, SyncPhase::Done);
}

#[test]
fn full_run_with_remote_reaches_done() {
    let mut m = SyncMachine::start(true, true, false, true, true, true).unwrap();
    let mut seen = Vec::new();
    for _ in 0..6 {
        seen.push(m.phase);
        m.step(StepResult::Success);
    }
    assert_eq!(
        seen,
        vec![
            SyncPhase::Importing,
            SyncPhase::Committing,
            SyncPhase::Pulling,
            SyncPhase::BackingUp,
            SyncPhase::Exporting,
            SyncPhase::Pushing,
        ]
    );
    assert_eq!(m.phase, SyncPhase::Done);
}

#[test]
fn run_without_remote_skips_pull_and_push() {
    let mut m = SyncMachine::start(true, true, false, true, false, false).unwrap();
    m.step(StepResult::Success); // import
    m.step(StepResult::Success); // commit
    assert_eq!(m.phase, SyncPhase::BackingUp);
    m.step(StepResult::Success);
    assert_eq!(m.phase, SyncPhase::Exporting);
    m.step(StepResult::Success);
    assert_eq!(m.phase, SyncPhase::Done);
}

#[test]
fn rebase_conflict_aborts_before_any_home_write() {
    // Conflict safety: a failed pull-rebase aborts the run; the exporting
    // phase — the only one that writes the home directory — is never
    // reached afterwards.
    let mut m = SyncMachine::start(true, true, false, true, true, true).unwrap();
    m.step(StepResult::Success); // import
    m.step(StepResult::Success); // commit
    assert_eq!(m.phase, SyncPhase::Pulling);
    m.step(StepResult::Failure); // rebase conflict
    assert_eq!(m.phase, SyncPhase::Aborted);
    for _ in 0..4 {
        m.step(StepResult::Success);
        assert_eq!(m.phase, SyncPhase::Aborted);
        assert_ne!(m.phase, SyncPhase::Exporting);
    }
}

#[test]
fn conflict_marker_detection() {
    assert!(has_conflict_markers("a\n<<<<<<< HEAD\nb\n"));
    assert!(has_conflict_markers("=======\n"));
    assert!(has_conflict_markers("tail >>>>>>> theirs"));
    assert!(!has_conflict_markers("set nu\nset ai\n"));
    assert!(!has_conflict_markers("===== not enough ====="));
}

#[test]
fn conflict_marker_scan_names_the_paths() {
    let entries = vec![entry("~/.a", false), entry("~/.b", true), entry("~/.c", false)];
    let contents = vec![
        Some("clean\n".to_string()),
        Some("<<<<<<< HEAD\nx\n=======\ny\n>>>>>>> theirs\n".to_string()),
        None,
    ];
    let marked = check_for_conflict_markers(&entries, &contents);
    assert_eq!(marked, vec!["~/.b".to_string()]);
}

#[test]
fn merge_view_frames_both_versions() {
    let merged = merged_conflict_content("ours\n", "theirs\n");
    assert_eq!(
        merged,
        "<<<<<<< HEAD (ours - current)\nours\n=======\ntheirs\n>>>>>>> theirs (incoming)\n"
    );
}

#[test]
fn resolved_temp_files_are_reencrypted() {
    let key = test_key();
    let entries = vec![entry("~/.a", true), entry("~/.b", false), entry("~/.c", true)];
    let temps = vec![Some(b"resolved\n".to_vec()), Some(b"ignored\n".to_vec()), None];
    let out = process_temp_conflicts(&entries, &temps, &key);
    assert_eq!(out.len(), 3);
    let blob = out[0].clone().unwrap();
    assert_eq!(
        FileEncryptor::decrypt_data(&blob, &key).unwrap(),
        b"resolved\n".to_vec()
    );
    assert!(out[1].is_none());
    assert!(out[2].is_none());
}

#[test]
fn key_resolution_follows_custody_state() {
    assert_eq!(resolve_encryption_key(true, true, false), KeyResolution::LoadFromHome);
    assert_eq!(
        resolve_encryption_key(true, false, false),
        KeyResolution::Recover { create_marker: false }
    );
    assert_eq!(
        resolve_encryption_key(false, false, true),
        KeyResolution::Recover { create_marker: true }
    );
    assert_eq!(
        resolve_encryption_key(false, false, false),
        KeyResolution::NoEncryptionConfigured
    );
}

#[test]
fn key_needed_only_for_encrypted_entries() {
    let none = vec![entry("~/.a", false)];
    let some = vec![entry("~/.a", true)];
    assert_eq!(
        get_encryption_key_if_needed(&none, true, true),
        KeyResolution::NoEncryptionConfigured
    );
    assert_eq!(
        get_encryption_key_if_needed(&some, true, true),
        KeyResolution::LoadFromHome
    );
    assert_eq!(
        get_encryption_key_if_needed(&some, true, false),
        KeyResolution::Recover { create_marker: false }
    );
    assert_eq!(
        get_encryption_key_if_needed(&some, false, false),
        KeyResolution::NoEncryptionConfigured
    );
}
