//! Directories and tilde expansion.

use mdya::config::dirs::{expand_tilde_from, resolve_dir_from, Dir, Home};
use mdya::config::{expand_tilde, resolve_config_dir, resolve_model_cache_dir, ConfigError};

fn at(path: &str) -> Dir {
    Dir::At(path.to_string())
}

fn home_join(name: &str) -> String {
    let home = dirs::home_dir().expect("home in test environment");
    home.join(name).to_str().expect("utf-8 home").to_string()
}

#[test]
fn flag_with_absolute_path_is_returned_verbatim() {
    let resolved = resolve_config_dir(Some("/tmp/mdya-test")).expect("resolve");
    assert_eq!(resolved, at("/tmp/mdya-test"));
}

#[test]
fn expand_tilde_replaces_leading_tilde_slash() {
    let expanded = expand_tilde("~/foo");
    assert_eq!(expanded, home_join("foo"));
}

#[test]
fn expand_tilde_leaves_absolute_path_unchanged() {
    assert_eq!(expand_tilde("/etc/hosts"), "/etc/hosts");
}

#[test]
fn model_cache_flag_with_absolute_path_is_returned_verbatim() {
    let resolved = resolve_model_cache_dir(Some("/tmp/mdya-models-test")).expect("resolve");
    assert_eq!(resolved, at("/tmp/mdya-models-test"));
}

#[test]
fn model_cache_flag_expands_leading_tilde() {
    let resolved = resolve_model_cache_dir(Some("~/custom-models")).expect("resolve");
    assert_eq!(resolved, at(&home_join("custom-models")));
}

#[test]
fn model_cache_default_is_home_mdya_models() {
    let resolved = resolve_model_cache_dir(None).expect("resolve");
    assert_eq!(resolved, at(&home_join(".mdya-models")));
}

#[test]
fn config_default_is_home_mdya() {
    let resolved = resolve_config_dir(None).expect("resolve");
    assert_eq!(resolved, at(&home_join(".mdya")));
}

#[test]
fn other_tildes_are_left_alone() {
    assert_eq!(expand_tilde("~other/notes"), "~other/notes");
    assert_eq!(expand_tilde("notes/~"), "notes/~");
    assert_eq!(expand_tilde(""), "");
}

#[test]
fn the_home_directory_decides() {
    assert_eq!(expand_tilde_from("~", Some("/home/u")), "/home/u");
    assert_eq!(expand_tilde_from("~/n", Some("/home/u")), "/home/u/n");
    assert_eq!(expand_tilde_from("~/n", None), "~/n");
    assert_eq!(expand_tilde_from("~u/n", Some("/home/u")), "~u/n");
    assert_eq!(expand_tilde_from("a/~/n", Some("/home/u")), "a/~/n");
    let dir = |flag: Option<&str>, home: Home| resolve_dir_from(flag, &home, ".mdya");
    let home = || Home::At("/home/u".to_string());
    assert_eq!(dir(None, home()).expect("home"), at("/home/u/.mdya"));
    assert_eq!(dir(None, Home::At("/".to_string())).expect("root"), at("/.mdya"));
    assert_eq!(dir(Some("~/c"), home()).expect("flag"), at("/home/u/c"));
    assert_eq!(dir(Some("/c"), Home::Missing).expect("flag"), at("/c"));
}

#[test]
fn a_home_that_is_no_text_still_holds_the_directory() {
    let below = resolve_dir_from(None, &Home::Unspoken, ".mdya").expect("home");
    assert_eq!(below, Dir::BelowHome(".mdya".to_string()));
    let flag = resolve_dir_from(Some("~/c"), &Home::Unspoken, ".mdya").expect("flag");
    assert_eq!(flag, at("~/c"));
}

#[test]
fn a_missing_home_is_an_error() {
    let err = resolve_dir_from(None, &Home::Missing, ".mdya").expect_err("no home");
    assert!(matches!(err, ConfigError::NoHomeDir));
    assert_eq!(
        err.message(),
        "home directory could not be resolved (no $HOME / %USERPROFILE%)"
    );
}
