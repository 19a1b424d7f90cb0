//! Size limits of a lookup.

use mdya::get::{check_size_limit, configured_size_limit, GetError};

#[test]
fn configured_size_limit_treats_zero_as_disabled() {
    assert_eq!(configured_size_limit(0), None);
}

#[test]
fn configured_size_limit_passes_positive_value_through() {
    assert_eq!(configured_size_limit(1_048_576), Some(1_048_576));
}

#[test]
fn check_size_limit_allows_content_at_or_below_the_cap() {
    assert!(check_size_limit("abc", Some(3)).is_ok());
    assert!(check_size_limit("ab", Some(3)).is_ok());
}

#[test]
fn check_size_limit_rejects_content_over_the_cap_with_byte_fields() {
    let err = check_size_limit("abcd", Some(3)).expect_err("4 bytes over a 3-byte cap");
    match err {
        GetError::DocumentTooLarge {
            size_bytes,
            limit_bytes,
        } => {
            assert_eq!(size_bytes, 4);
            assert_eq!(limit_bytes, 3);
        }
        other => panic!("expected DocumentTooLarge, got {other:?}"),
    }
}

#[test]
fn check_size_limit_counts_utf8_bytes_not_chars() {
    let err = check_size_limit("あ", Some(2)).expect_err("3 bytes over a 2-byte cap");
    assert!(
        matches!(err, GetError::DocumentTooLarge { size_bytes: 3, .. }),
        "got {err:?}"
    );
}

#[test]
fn check_size_limit_skips_the_check_when_disabled() {
    let huge = "x".repeat(10_000);
    assert!(check_size_limit(&huge, None).is_ok());
}
