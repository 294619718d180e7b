use dotfiles::paths::{
    decrypted_name, encrypted_name, get_relative_repo_path, normalize_path, repo_file_path,
    repo_relative, FileSyncer,
};
use dotfiles::text::{split_lines, str_concat, str_ends_with, str_eq, str_starts_with, trim};

#[test]
fn expand_tilde_resolves_under_home() {
    assert_eq!(FileSyncer::expand_tilde("~/.vimrc", "/home/u"), "/home/u/.vimrc");
}

#[test]
fn expand_tilde_keeps_absolute_paths() {
    assert_eq!(FileSyncer::expand_tilde("/etc/hosts", "/home/u"), "/etc/hosts");
}

#[test]
fn expand_tilde_treats_bare_paths_as_home_relative() {
    assert_eq!(FileSyncer::expand_tilde(".config/app", "/home/u"), "/home/u/.config/app");
}

#[test]
fn strip_tilde_inverts_expansion() {
    assert_eq!(
        FileSyncer::strip_tilde("/home/u/.vimrc", "/home/u").as_deref(),
        Some("~/.vimrc")
    );
    assert_eq!(FileSyncer::strip_tilde("/home/u", "/home/u").as_deref(), Some("~/"));
    assert_eq!(FileSyncer::strip_tilde("/etc/hosts", "/home/u"), None);
    // A sibling directory that merely shares a prefix is not under home.
    assert_eq!(FileSyncer::strip_tilde("/home/uu/.vimrc", "/home/u"), None);
}

#[test]
fn normalize_path_gives_registry_form() {
    assert_eq!(normalize_path("/home/u/.vimrc", "/home/u"), "~/.vimrc");
    assert_eq!(normalize_path("~/.vimrc", "/home/u"), "~/.vimrc");
    assert_eq!(normalize_path("/etc/hosts", "/home/u"), "/etc/hosts");
}

#[test]
fn relative_repo_path_strips_tilde_markers() {
    assert_eq!(get_relative_repo_path("~/.vimrc"), ".vimrc");
    assert_eq!(get_relative_repo_path("~/~/x"), "x");
    assert_eq!(get_relative_repo_path(".vimrc"), ".vimrc");
}

#[test]
fn repo_relative_also_strips_leading_slashes() {
    assert_eq!(repo_relative("~/.vimrc"), ".vimrc");
    assert_eq!(repo_relative("/etc/hosts"), "etc/hosts");
}

#[test]
fn repo_file_path_joins_repo_and_relative() {
    assert_eq!(repo_file_path("/repo", "~/.vimrc"), "/repo/.vimrc");
    assert_eq!(repo_file_path("/repo", "/etc/hosts"), "/repo/etc/hosts");
}

#[test]
fn encrypted_naming_is_invertible() {
    let enc = encrypted_name(".config/app.toml");
    assert_eq!(enc, ".config/app.toml.enc");
    assert_eq!(decrypted_name(&enc).as_deref(), Some(".config/app.toml"));
    assert_eq!(decrypted_name(".config/app.toml"), None);
    assert_eq!(decrypted_name("enc"), None);
}

#[test]
fn text_helpers_behave() {
    assert!(str_eq("abc", "abc"));
    assert!(!str_eq("abc", "abd"));
    assert!(str_starts_with("name = Git", "name = "));
    assert!(!str_starts_with("nam", "name = "));
    assert!(str_ends_with("file.enc", ".enc"));
    assert!(!str_ends_with("enc", ".enc"));
    assert_eq!(str_concat("a", "b"), "ab");
}

#[test]
fn trim_removes_surrounding_whitespace() {
    assert_eq!(trim("  a b \t\r\n"), "a b");
    assert_eq!(trim(""), "");
    assert_eq!(trim(" \t "), "");
    assert_eq!(trim("x"), "x");
}

#[test]
fn split_lines_keeps_every_segment() {
    let lines = split_lines("a\nb\n");
    assert_eq!(lines, vec!["a".to_string(), "b".to_string(), "".to_string()]);
    assert_eq!(split_lines(""), vec!["".to_string()]);
    assert_eq!(split_lines("one"), vec!["one".to_string()]);
}

#[test]
fn bytes_equal_compares_contents() {
    assert!(dotfiles::bytes_equal(&vec![1, 2, 3], &vec![1, 2, 3]));
    assert!(!dotfiles::bytes_equal(&vec![1, 2, 3], &vec![1, 2, 4]));
    assert!(!dotfiles::bytes_equal(&vec![1, 2], &vec![1, 2, 3]));
}

#[test]
fn candidates_for_bare_names_cover_three_roots() {
    let c = dotfiles::paths::candidate_paths("app/config");
    assert_eq!(
        c,
        vec![
            "~/app/config".to_string(),
            "~/.config/app/config".to_string(),
            "/app/config".to_string(),
        ]
    );
    assert_eq!(dotfiles::paths::candidate_paths("~/.vimrc"), vec!["~/.vimrc".to_string()]);
    assert_eq!(dotfiles::paths::candidate_paths("/etc/hosts"), vec!["/etc/hosts".to_string()]);
}

#[test]
fn resolution_picks_the_first_existing_candidate() {
    let c = vec!["a".to_string(), "b".to_string(), "c".to_string()];
    assert_eq!(dotfiles::paths::resolve_file_path(&c, &vec![false, true, true]), 1);
    assert_eq!(dotfiles::paths::resolve_file_path(&c, &vec![true, false, false]), 0);
    assert_eq!(dotfiles::paths::resolve_file_path(&c, &vec![false, false, false]), 0);
}
