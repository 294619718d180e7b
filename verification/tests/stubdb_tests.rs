use dotfiles::crypto::{CustodyState, FileEncryptor};
use dotfiles::mackup::{find_first_eq, MackupSync};
use dotfiles::protocol::{backup_paths, fresh_backup_dir, fresh_commit_message};
use dotfiles::stubdb::{
    parse_stub_name, read_file_list, render_file_list, render_stub_name, ConfigDatabase,
    StubEntry,
};

fn stub(key: &str, name: &str, files: &[&str], custom: bool) -> StubEntry {
    StubEntry {
        name: name.to_string(),
        stub: key.to_string(),
        config_files: files.iter().map(|s| s.to_string()).collect(),
        is_custom: custom,
    }
}

#[test]
fn lookup_prefers_custom_entries() {
    let defaults = vec![stub("git", "Git", &["~/.gitconfig"], false)];
    let custom = vec![stub("git", "My Git", &["~/.config/git/config"], true)];
    let db = ConfigDatabase::new("/repo", defaults, custom);
    let e = db.load_stub("git").unwrap();
    assert_eq!(e.name, "My Git");
    assert!(e.is_custom);
    assert!(db.load_stub("nope").is_none());
}

#[test]
fn stub_info_carries_name_files_and_flag() {
    let defaults = vec![stub("vim", "Vim", &["~/.vimrc", "~/.vim"], false)];
    let db = ConfigDatabase::new("/repo", defaults, Vec::new());
    let (name, files, custom) = db.get_stub_info("vim").unwrap();
    assert_eq!(name, "Vim");
    assert_eq!(files, vec!["~/.vimrc".to_string(), "~/.vim".to_string()]);
    assert!(!custom);
    assert_eq!(db.get_default_stubs().len(), 1);
    assert!(db.get_custom_stubs().is_empty());
}

#[test]
fn database_paths_respect_the_tag() {
    let db = ConfigDatabase::new("/repo", Vec::new(), Vec::new());
    assert_eq!(db.custom_db_path, "/repo/custom_db");
    let tagged = ConfigDatabase::new_with_tag("/repo", Some("work"), Vec::new(), Vec::new());
    assert_eq!(tagged.custom_db_path, "/repo/custom_db/work");
    let untagged = ConfigDatabase::new_with_tag("/repo", None, Vec::new(), Vec::new());
    assert_eq!(untagged.custom_db_path, "/repo/custom_db");
}

#[test]
fn file_lists_parse_trimmed_and_nonempty() {
    let parsed = read_file_list("  ~/.vimrc \n\n~/.vim\n   \n");
    assert_eq!(parsed, vec!["~/.vimrc".to_string(), "~/.vim".to_string()]);
    assert!(read_file_list("").is_empty());
}

#[test]
fn file_lists_render_and_parse_back() {
    let paths = vec!["~/.vimrc".to_string(), "~/.vim".to_string()];
    let rendered = render_file_list(&paths);
    assert_eq!(rendered, "~/.vimrc\n~/.vim\n");
    assert_eq!(read_file_list(&rendered), paths);
    assert_eq!(render_file_list(&Vec::new()), "\n");
}

#[test]
fn stub_names_parse_with_fallback() {
    assert_eq!(parse_stub_name("name = Git Tools \nother = x\n", "git"), "Git Tools");
    assert_eq!(parse_stub_name("no header here\n", "git"), "git");
    assert_eq!(render_stub_name("Git Tools"), "name = Git Tools\n");
    assert_eq!(parse_stub_name(&render_stub_name("Git Tools"), "git"), "Git Tools");
}

#[test]
fn cfg_files_parse_sections() {
    let content = "\
# upstream definition
[application]
name = Git

[configuration_files]
.gitconfig
.gitignore_global

[xdg_configuration_files]
git/config
";
    let (name, cfg, xdg) = MackupSync::parse_cfg_content(content);
    assert_eq!(name, "Git");
    assert_eq!(cfg, vec![".gitconfig".to_string(), ".gitignore_global".to_string()]);
    assert_eq!(xdg, vec!["git/config".to_string()]);
}

#[test]
fn cfg_parser_skips_comments_and_assignments_in_file_sections() {
    let content = "\
[configuration_files]
; comment
# comment
real.file
key = value
";
    let (name, cfg, xdg) = MackupSync::parse_cfg_content(content);
    assert_eq!(name, "");
    assert_eq!(cfg, vec!["real.file".to_string()]);
    assert!(xdg.is_empty());
}

#[test]
fn first_equals_sign_is_found() {
    assert_eq!(find_first_eq("a=b"), 1);
    assert_eq!(find_first_eq("=x"), 0);
    assert_eq!(find_first_eq("none"), 4);
}

#[test]
fn custody_states_cover_the_four_combinations() {
    assert_eq!(FileEncryptor::new(true, true).custody_state(), CustodyState::Configured);
    assert_eq!(FileEncryptor::new(true, false).custody_state(), CustodyState::NeedsRecovery);
    assert_eq!(FileEncryptor::new(false, true).custody_state(), CustodyState::LocalKeyOnly);
    assert_eq!(FileEncryptor::new(false, false).custody_state(), CustodyState::Unconfigured);
    assert!(FileEncryptor::new(true, false).is_encryption_setup());
    assert!(!FileEncryptor::new(true, false).has_local_key());
}

#[test]
fn key_and_marker_files_stay_in_their_trees() {
    let key_path = FileEncryptor::get_key_file_path("/home/u");
    let marker_path = FileEncryptor::get_marker_file_path("/repo");
    assert_eq!(key_path, "/home/u/.dotfiles.encryption.key");
    assert_eq!(marker_path, "/repo/.dotfiles.encryption.enabled");
    assert!(key_path.starts_with("/home/u/"));
    assert!(marker_path.starts_with("/repo/"));
}

#[test]
fn commit_message_and_backup_dir_are_clock_stamped() {
    let msg = fresh_commit_message();
    assert!(msg.starts_with("dotfiles sync: "));
    let dir = fresh_backup_dir("/repo");
    assert!(dir.starts_with("/repo/.backup/"));
}

#[test]
fn backup_covers_exactly_the_eligible_entries() {
    let entries = vec![
        dotfiles::config::TrackedFile {
            stub: None,
            path: "~/.vimrc".to_string(),
            encrypted: false,
        },
        dotfiles::config::TrackedFile {
            stub: None,
            path: "~/.zshrc".to_string(),
            encrypted: true,
        },
    ];
    let eligible = vec![true, false];
    let rel = backup_paths(&entries, &eligible);
    assert_eq!(rel, vec![".vimrc".to_string()]);
}
