//! The Ollama backend's names and error texts.

use mdya::embedding::ollama::{parse_ollama_model, sanitize_error_body, ERROR_BODY_MAX_BYTES};

#[test]
fn parse_ollama_model_strips_the_prefix() {
    assert_eq!(
        parse_ollama_model("ollama:nomic-embed-text").expect("valid"),
        "nomic-embed-text"
    );
}

#[test]
fn parse_ollama_model_rejects_missing_prefix() {
    let err = parse_ollama_model("cl-nagoya/ruri-v3-30m").expect_err("no prefix");
    assert!(err.message().contains("not an 'ollama:' model"));
}

#[test]
fn parse_ollama_model_rejects_empty_name() {
    let err = parse_ollama_model("ollama:").expect_err("empty name");
    assert!(err.message().contains("empty"));
}

#[test]
fn sanitize_error_body_passes_short_text_through() {
    assert_eq!(sanitize_error_body("model not found"), "model not found");
}

#[test]
fn sanitize_error_body_strips_ansi_color_escape() {
    let raw = "\x1b[31mboom\x1b[0m at line 1";
    assert_eq!(sanitize_error_body(raw), "boom at line 1");
}

#[test]
fn sanitize_error_body_drops_other_control_characters() {
    let raw = "abc\x07\x08\x0Cdef\nghi\tjkl";
    assert_eq!(sanitize_error_body(raw), "abcdef\nghi\tjkl");
}

#[test]
fn sanitize_error_body_truncates_overlong_input_with_ellipsis() {
    let raw = "a".repeat(ERROR_BODY_MAX_BYTES + 100);
    let sanitized = sanitize_error_body(&raw);
    let expected_prefix = "a".repeat(ERROR_BODY_MAX_BYTES);
    let expected = format!("{expected_prefix}…");
    assert_eq!(sanitized, expected);
}

#[test]
fn sanitize_error_body_truncate_does_not_split_a_multibyte_char() {
    let prefix_len = ERROR_BODY_MAX_BYTES - 2;
    let raw = format!("{}中trailing", "a".repeat(prefix_len));
    let sanitized = sanitize_error_body(&raw);
    let expected = format!("{}…", "a".repeat(prefix_len));
    assert_eq!(sanitized, expected);
}

#[test]
fn only_a_control_sequence_takes_its_payload_with_it() {
    assert_eq!(sanitize_error_body("a\x1b]0;title"), "a]0;title");
    assert_eq!(sanitize_error_body("a\x1bOPb"), "aOPb");
    assert_eq!(sanitize_error_body("a\x1b\x1b[1;31mb"), "ab");
    assert_eq!(sanitize_error_body("a[0mb"), "a[0mb");
    assert_eq!(sanitize_error_body("a\x1b[31"), "a");
    assert_eq!(sanitize_error_body("a\x1b"), "a");
}
