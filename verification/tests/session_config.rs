use std::collections::hash_map::DefaultHasher;
use std::hash::{Hash, Hasher};

use jcode_app_core::session_config::{
    get_project_auth_enabled, make_slug, project_slug_from_path, sanitize_char,
    set_project_auth_enabled, SessionConfigs,
};

fn hash_suffix(path: &str) -> String {
    let mut hasher = DefaultHasher::new();
    path.hash(&mut hasher);
    format!("_{:x}", hasher.finish() & 0xFFFF)
}

fn check_slug(path: &str, label: &str) {
    assert_eq!(project_slug_from_path(path), format!("{}{}", label, hash_suffix(path)));
}

#[test]
fn project_auth_is_off_until_set() {
    let mut configs = SessionConfigs::new();
    assert!(!get_project_auth_enabled(&configs, "s"));
    set_project_auth_enabled(&mut configs, "s", true);
    assert!(get_project_auth_enabled(&configs, "s"));
    assert!(!get_project_auth_enabled(&configs, "t"));
    set_project_auth_enabled(&mut configs, "s", false);
    assert!(!get_project_auth_enabled(&configs, "s"));
}

#[test]
fn slug_takes_the_last_two_directories() {
    check_slug("/home/user/my project", "user_my_project");
    check_slug("/home/user/app///", "user_app");
    check_slug("a/b/c", "b_c");
}

#[test]
fn short_paths_are_taken_whole() {
    check_slug("/home", "_home");
    check_slug("app", "app");
    check_slug("a/b/", "a_b");
    check_slug("", "");
    check_slug("///", "");
}

#[test]
fn slug_keeps_letters_and_digits_of_all_scripts() {
    check_slug("/x/größe-1.0_β/日本?", "größe-1.0_β_日本_");
    check_slug("C:\\temp", "C__temp");
}

#[test]
fn trailing_slash_changes_the_hash_alone() {
    let a = project_slug_from_path("/w/x/y");
    let b = project_slug_from_path("/w/x/y/");
    assert!(a.starts_with("x_y_"));
    assert!(b.starts_with("x_y_"));
    assert_eq!(b, format!("x_y{}", hash_suffix("/w/x/y/")));
}

#[test]
fn slug_is_made_of_label_and_low_hash_bits() {
    assert_eq!(make_slug("a_b", 0x1_2345), "a_b_2345");
    assert_eq!(make_slug("", 0xABCD_0000), "_0");
    assert_eq!(make_slug("x", 0xFFFF), "x_ffff");
    assert_ne!(make_slug("x", 1), make_slug("x", 2));
    assert_ne!(make_slug("x", 1), make_slug("y", 1));
}

#[test]
fn unsafe_characters_become_underscores() {
    assert_eq!(sanitize_char('a', true), 'a');
    assert_eq!(sanitize_char('-', false), '-');
    assert_eq!(sanitize_char('.', false), '.');
    assert_eq!(sanitize_char('/', false), '_');
    for c in project_slug_from_path("/a b/<c>|*?\u{0}\n").chars() {
        assert!(c.is_ascii_alphanumeric() || c == '_');
    }
}
