//! What is to be done for one file.

use mdya::ingest::time::Timestamp;
use mdya::ingest::{Action, DbRow};

fn ts(unix: i64) -> Timestamp {
    Timestamp::new(unix, 0).expect("valid ts")
}

fn db_row(unix: i64, hash: &str) -> DbRow {
    DbRow {
        modified_at: ts(unix),
        source_hash: hash.to_string(),
    }
}

#[test]
fn no_existing_row_means_new_file() {
    let act = Action::decide(ts(100), "abc", None);
    assert_eq!(act, Action::New);
}

#[test]
fn mtime_unchanged_means_skip_regardless_of_hash() {
    let act = Action::decide(ts(100), "anything", Some(&db_row(100, "stored")));
    assert_eq!(act, Action::Skip);
}

#[test]
fn mtime_changed_but_hash_same_means_touch_mtime() {
    let act = Action::decide(ts(200), "same", Some(&db_row(100, "same")));
    assert_eq!(act, Action::TouchMtime);
}

#[test]
fn mtime_and_hash_both_changed_means_reingest() {
    let act = Action::decide(ts(200), "new-hash", Some(&db_row(100, "old-hash")));
    assert_eq!(act, Action::Reingest);
}
