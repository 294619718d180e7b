use dotfiles::config::{
    add_direct_path, add_entry, add_stub_paths, has_encrypted, is_tracked, remove_by_path,
    remove_by_stub, ConfigError, ConfigManager, DotfilesConfig, LocalConfig, RegistryError,
    TrackedFile,
};

fn entry(path: &str, encrypted: bool) -> TrackedFile {
    TrackedFile {
        stub: None,
        path: path.to_string(),
        encrypted,
    }
}

#[test]
fn duplicate_path_is_rejected() {
    let mut entries = Vec::new();
    assert!(add_entry(&mut entries, entry("~/.vimrc", false)).is_ok());
    assert_eq!(
        add_entry(&mut entries, entry("~/.vimrc", true)),
        Err(RegistryError::DuplicatePath)
    );
    assert_eq!(entries.len(), 1);
    assert!(!entries[0].encrypted);
}

#[test]
fn add_appends_in_order() {
    let mut entries = Vec::new();
    add_entry(&mut entries, entry("~/.vimrc", false)).unwrap();
    add_entry(&mut entries, entry("~/.zshrc", true)).unwrap();
    assert_eq!(entries.len(), 2);
    assert_eq!(entries[0].path, "~/.vimrc");
    assert_eq!(entries[1].path, "~/.zshrc");
    assert!(is_tracked(&entries, "~/.zshrc"));
    assert!(!is_tracked(&entries, "~/.bashrc"));
    assert!(has_encrypted(&entries));
}

#[test]
fn add_direct_path_normalizes_to_tilde_form() {
    let mut entries = Vec::new();
    let p = add_direct_path(&mut entries, "/home/u/.vimrc", "/home/u", false).unwrap();
    assert_eq!(p, "~/.vimrc");
    assert_eq!(entries[0].path, "~/.vimrc");
    assert!(entries[0].stub.is_none());
    assert_eq!(
        add_direct_path(&mut entries, "~/.vimrc", "/home/u", false),
        Err(RegistryError::DuplicatePath)
    );
}

#[test]
fn add_stub_paths_skips_already_tracked() {
    let mut entries = Vec::new();
    add_entry(&mut entries, entry("~/.gitconfig", false)).unwrap();
    let paths = vec!["~/.gitconfig".to_string(), "~/.gitignore_global".to_string()];
    add_stub_paths(&mut entries, "git", &paths, false);
    assert_eq!(entries.len(), 2);
    assert_eq!(entries[1].path, "~/.gitignore_global");
    assert_eq!(entries[1].stub.as_deref(), Some("git"));
}

#[test]
fn remove_by_path_keeps_order() {
    let mut entries = Vec::new();
    add_entry(&mut entries, entry("~/.a", false)).unwrap();
    add_entry(&mut entries, entry("~/.b", false)).unwrap();
    add_entry(&mut entries, entry("~/.c", false)).unwrap();
    let removed = remove_by_path(&mut entries, "~/.b");
    assert_eq!(removed, 1);
    assert_eq!(entries.len(), 2);
    assert_eq!(entries[0].path, "~/.a");
    assert_eq!(entries[1].path, "~/.c");
    assert_eq!(remove_by_path(&mut entries, "~/.missing"), 0);
}

#[test]
fn remove_by_stub_removes_all_of_the_stub() {
    let mut entries = Vec::new();
    let paths = vec!["~/.gitconfig".to_string(), "~/.gitignore_global".to_string()];
    add_stub_paths(&mut entries, "git", &paths, false);
    add_entry(&mut entries, entry("~/.vimrc", false)).unwrap();
    let removed = remove_by_stub(&mut entries, "git");
    assert_eq!(removed, 2);
    assert_eq!(entries.len(), 1);
    assert_eq!(entries[0].path, "~/.vimrc");
}

#[test]
fn manager_paths_and_initialization() {
    let m = ConfigManager::new(
        "/repo".to_string(),
        "/home/u".to_string(),
        None,
        None,
    );
    assert_eq!(m.get_config_path(), "/repo/dotfiles.config.json");
    assert_eq!(m.get_local_config_path(), "/home/u/.dotfiles.local.config.json");
    assert!(!m.is_initialized());
    assert_eq!(m.get_repo_path(), "/repo");
    assert!(m.load_tracked_files().is_empty());
}

#[test]
fn manager_holds_tracked_files() {
    let entries = vec![entry("~/.vimrc", false)];
    let config = DotfilesConfig {
        tracked_files: Some(entries),
    };
    let mut m = ConfigManager::new(
        "/repo".to_string(),
        "/home/u".to_string(),
        Some(config),
        None,
    );
    assert!(m.is_initialized());
    let loaded = m.load_tracked_files();
    assert_eq!(loaded.len(), 1);
    assert_eq!(loaded[0].path, "~/.vimrc");

    let mut more = loaded;
    add_entry(&mut more, entry("~/.zshrc", false)).unwrap();
    m.save_tracked_files(more);
    assert_eq!(m.load_tracked_files().len(), 2);
}

#[test]
fn runtime_config_merges_local_over_defaults() {
    let m = ConfigManager::new(
        "/repo".to_string(),
        "/home/u".to_string(),
        None,
        None,
    );
    let rc = m.load_runtime_config();
    assert!(!rc.use_xdg);
    assert_eq!(rc.repo_path, ".");
    assert_eq!(rc.home_path, "/home/u");
    assert!(rc.tag.is_none());
    assert!(rc.tracked_files.is_empty());

    let local = LocalConfig {
        use_xdg: true,
        repo_path: "/repo".to_string(),
        home_path: "/home/u".to_string(),
        tag: Some("work".to_string()),
    };
    let m2 = ConfigManager::new(
        "/repo".to_string(),
        "/home/u".to_string(),
        None,
        Some(local),
    );
    let rc2 = m2.load_runtime_config();
    assert!(rc2.use_xdg);
    assert_eq!(rc2.repo_path, "/repo");
    assert_eq!(rc2.tag.as_deref(), Some("work"));
}

#[test]
fn update_local_config_fields() {
    let mut m = ConfigManager::new(
        "/repo".to_string(),
        "/home/u".to_string(),
        None,
        None,
    );
    assert!(m.update_local_config_field("use_xdg", "true").is_ok());
    assert!(m.load_runtime_config().use_xdg);
    assert!(m.update_local_config_field("repo_path", "/elsewhere").is_ok());
    assert_eq!(m.load_runtime_config().repo_path, "/elsewhere");
    assert!(m.update_local_config_field("tag", "").is_ok());
    assert!(m.load_runtime_config().tag.is_none());
    assert!(m.update_local_config_field("tag", "work").is_ok());
    assert_eq!(m.load_runtime_config().tag.as_deref(), Some("work"));
    assert_eq!(
        m.update_local_config_field("use_xdg", "maybe"),
        Err(ConfigError::InvalidBool)
    );
    assert_eq!(
        m.update_local_config_field("color", "red"),
        Err(ConfigError::UnknownField)
    );
}
