//! What is logged, and how.

use mdya::cli::tracing_init::{resolve_ansi, resolve_filter_from};
use mdya::cli::{color_enabled, LogFormat};

#[test]
fn ansi_disabled_by_explicit_flag() {
    assert!(!resolve_ansi(true, false, true));
}

#[test]
fn explicit_flag_wins_over_env() {
    let filter = resolve_filter_from(Some("error"), Some("info".to_string()));
    assert!(filter.contains("error"));
}

#[test]
fn env_used_when_flag_absent() {
    let filter = resolve_filter_from(None, Some("info".to_string()));
    assert!(filter.contains("info"));
}

#[test]
fn default_is_warn_without_flag_or_env() {
    let filter = resolve_filter_from(None, None);
    assert!(filter.contains("warn"));
}

#[test]
fn empty_env_falls_back_to_default() {
    let filter = resolve_filter_from(None, Some(String::new()));
    assert!(filter.contains("warn"));
}

#[test]
fn colour_needs_a_terminal_and_no_objection() {
    assert!(color_enabled(false, false, true));
    assert!(!color_enabled(false, false, false));
    assert!(!color_enabled(false, true, true));
    assert!(!color_enabled(true, false, true));
    assert!(resolve_ansi(false, false, true));
    assert!(!resolve_ansi(false, true, true));
    assert_eq!(LogFormat::default(), LogFormat::Compact);
}
