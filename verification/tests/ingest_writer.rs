//! What is written for a file, and how a run is counted.

use mdya::chunking::Chunk;
use mdya::ingest::rows::validate_relative_path;
use mdya::ingest::sql::sql_escape;
use mdya::ingest::time::Timestamp;
use mdya::ingest::writer::{build_rows, ensure_under_root, record_outcome};
use mdya::ingest::{FileOutcome, IngestError, UpdateSummary};

#[test]
fn record_outcome_increments_the_matching_counter() {
    let mut s = UpdateSummary::default();
    record_outcome(&mut s, FileOutcome::New);
    record_outcome(&mut s, FileOutcome::New);
    record_outcome(&mut s, FileOutcome::Updated);
    record_outcome(&mut s, FileOutcome::Skipped);
    record_outcome(&mut s, FileOutcome::Failed);
    assert_eq!(s.new, 2);
    assert_eq!(s.updated, 1);
    assert_eq!(s.skipped, 1);
    assert_eq!(s.failed, 1);
    assert_eq!(s.removed, 0);
}

#[test]
fn sql_escape_doubles_single_quotes() {
    assert_eq!(sql_escape("foo"), "foo");
    assert_eq!(sql_escape("foo'bar"), "foo''bar");
    assert_eq!(sql_escape("'leading"), "''leading");
    assert_eq!(sql_escape("trailing'"), "trailing''");
}

#[test]
fn validate_relative_path_accepts_simple_relative_paths() {
    assert!(validate_relative_path("foo.md").is_some());
    assert!(validate_relative_path("dir/sub/file.md").is_some());
}

#[test]
fn validate_relative_path_rejects_parent_dir() {
    assert!(validate_relative_path("../foo").is_none());
    assert!(validate_relative_path("foo/../bar").is_none());
    assert!(validate_relative_path("..").is_none());
}

#[test]
fn validate_relative_path_rejects_absolute_root() {
    assert!(validate_relative_path("/etc/shadow").is_none());
}

#[test]
fn ensure_under_root_accepts_relative_path() {
    let p = "foo/bar.md";
    assert!(ensure_under_root(p).is_ok());
}

#[test]
fn ensure_under_root_rejects_parent_dir() {
    let p = "../foo";
    let err = ensure_under_root(p).unwrap_err();
    assert!(matches!(err, IngestError::PathTraversal { .. }));
}

#[test]
fn ensure_under_root_rejects_absolute_root() {
    let p = "/etc/shadow";
    let err = ensure_under_root(p).unwrap_err();
    assert!(matches!(err, IngestError::PathTraversal { .. }));
}

#[test]
fn build_embedding_array_rejects_dim_exceeding_i32_max() {
    let chunks: Vec<Chunk> = vec![];
    let dim = (i32::MAX as usize) + 1;
    let mtime = Timestamp::new(0, 0).expect("epoch");
    let err = build_rows("notes", "a.md", mtime, "hash", dim, &chunks).unwrap_err();
    assert!(matches!(err, IngestError::DimTooLarge { dim: d } if d == dim));
}
