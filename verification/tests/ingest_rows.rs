//! Stored rows by path, times and fingerprints.

use mdya::ingest::hash::{content_hash, hex};
use mdya::ingest::incremental::DbRow;
use mdya::ingest::pathmap::PathMap;
use mdya::ingest::rows::{extract_existing_rows, extract_source_hashes, RawRow, RawSource};
use mdya::ingest::run::{find_orphans, open_table_error, run_mode, RunMode};
use mdya::ingest::sql::{collection_filter, mtime_expression, row_predicate};
use mdya::ingest::time::{Timestamp, MAX_SECS, MIN_SECS};
use mdya::ingest::walker::{collect_ingestable_files, WalkEntry};
use mdya::ingest::IngestError;

fn row(path: &str, micros: i64, hash: &str) -> RawRow {
    RawRow {
        path: Some(path.to_string()),
        modified_at: Some(micros),
        source_hash: Some(hash.to_string()),
    }
}

fn source(path: &str, hash: &str) -> RawSource {
    RawSource { path: Some(path.to_string()), source_hash: Some(hash.to_string()) }
}

#[test]
fn usable_rows_are_kept_and_the_last_one_wins() {
    let rows = vec![
        row("b.md", 2_000_001, "old"),
        row("a.md", -1, "h"),
        row("./b.md", 3, "never"),
        row("b.md", 5, "new"),
    ];
    let found = extract_existing_rows(&rows);
    assert_eq!(found.len(), 3);
    assert_eq!(found.path_at(0), "./b.md");
    assert_eq!(found.path_at(1), "a.md");
    assert_eq!(found.path_at(2), "b.md");
    let b = found.get("b.md").expect("row");
    assert_eq!(b.source_hash, "new");
    assert_eq!(b.modified_at.timestamp_micros(), 5);
    assert_eq!(found.get("a.md").expect("row").modified_at.timestamp_micros(), -1);
    assert!(found.get("c.md").is_none());
}

#[test]
fn a_key_keeps_the_text_it_was_first_put_under() {
    let found = extract_source_hashes(&[source("x//y.md", "1"), source("x/y.md/", "2")]);
    assert_eq!(found.len(), 1);
    assert_eq!(found.path_at(0), "x//y.md");
    assert_eq!(found.get("x/y.md").map(String::as_str), Some("2"));
}

#[test]
fn rows_that_cannot_be_trusted_are_dropped() {
    let mut null_path = row("a.md", 1, "h");
    null_path.path = None;
    let mut null_time = row("a.md", 1, "h");
    null_time.modified_at = None;
    let mut null_hash = row("a.md", 1, "h");
    null_hash.source_hash = None;
    let rows = vec![
        null_path,
        null_time,
        null_hash,
        row("../a.md", 1, "h"),
        row("/a.md", 1, "h"),
        row("a.md", i64::MAX, "h"),
        row("a.md", i64::MIN, "h"),
    ];
    assert_eq!(extract_existing_rows(&rows).len(), 0);
    let sources = vec![
        RawSource { path: None, source_hash: Some("h".to_string()) },
        RawSource { path: Some("a.md".to_string()), source_hash: None },
        source("x/../../a.md", "h"),
    ];
    assert_eq!(extract_source_hashes(&sources).len(), 0);
}

#[test]
fn the_range_of_times_is_that_of_chrono() {
    type Utc = chrono::DateTime<chrono::Utc>;
    assert_eq!(Utc::MIN_UTC.timestamp(), MIN_SECS);
    assert_eq!(Utc::MAX_UTC.timestamp(), MAX_SECS);
    let first = MIN_SECS * 1_000_000;
    let last = MAX_SECS * 1_000_000 + 999_999;
    for micros in [first, first - 1, last, last + 1, 0, -1, 1, 999, -999, i64::MIN, i64::MAX] {
        let expected = Utc::from_timestamp_micros(micros);
        let found = Timestamp::from_timestamp_micros(micros);
        assert_eq!(found.is_some(), expected.is_some(), "{micros}");
        if let (Some(t), Some(e)) = (found, expected) {
            assert_eq!(t.timestamp_micros(), micros);
            assert_eq!(
                Timestamp::new(e.timestamp(), e.timestamp_subsec_nanos()),
                Some(t),
                "{micros}"
            );
        }
    }
    assert!(Timestamp::new(MAX_SECS + 1, 0).is_none());
    assert!(Timestamp::new(MIN_SECS - 1, 0).is_none());
    assert!(Timestamp::new(0, 1_000_000_000).is_none());
    assert_eq!(Timestamp::new(-1, 999_999_999).expect("time").timestamp_micros(), -1);
    assert_eq!(Timestamp::new(1, 1_999).expect("time").timestamp_micros(), 1_000_001);
}

#[test]
fn fingerprints_are_sha_256_in_hexadecimal() {
    assert_eq!(
        content_hash(b""),
        "e3b0c44298fc1c149afbf4c8996fb92427ae41e4649b934ca495991b7852b855"
    );
    assert_eq!(
        content_hash(b"abc"),
        "ba7816bf8f01cfea414140de5dae2223b00361a396177a9cb410ff61f20015ad"
    );
    assert_eq!(hex(&[0x00, 0x0f, 0xa0, 0xff]), "000fa0ff");
}

#[test]
fn predicates_and_expressions_are_quoted() {
    assert_eq!(
        row_predicate("notes", "it's.md"),
        "collection = 'notes' AND path = 'it''s.md'"
    );
    assert_eq!(collection_filter(&[]), None);
    assert_eq!(
        collection_filter(&["a".to_string(), "b'c".to_string()]).as_deref(),
        Some("collection IN ('a', 'b''c')")
    );
    let before_epoch = Timestamp::new(-2, 500_000_000).expect("time");
    assert_eq!(
        mtime_expression(&before_epoch),
        "arrow_cast(-1500000, 'Timestamp(Microsecond, Some(\"UTC\"))')"
    );
}

#[test]
fn orphans_come_from_both_tables() {
    let rows = extract_existing_rows(&[row("gone.md", 1, "h"), row("kept.md", 1, "h")]);
    let sources = extract_source_hashes(&[source("half.md", "h"), source("kept.md", "h")]);
    let on_disk = vec!["./kept.md".to_string(), "kept.md".to_string(), "new.md".to_string()];
    assert_eq!(find_orphans(&on_disk, &rows, &sources), vec!["gone.md", "half.md"]);
    let none: PathMap<DbRow> = PathMap::new();
    assert!(find_orphans(&on_disk, &none, &PathMap::new()).is_empty());
}

#[test]
fn zero_files_at_a_time_means_one_after_the_other() {
    assert_eq!(run_mode(0), RunMode::Sequential);
    assert_eq!(run_mode(8), RunMode::Parallel(8));
}

#[test]
fn a_table_that_cannot_be_opened_is_named() {
    assert!(matches!(
        open_table_error("sources", "x".to_string()),
        IngestError::OpenSourcesTable(ref t) if t == "x"
    ));
    assert!(matches!(
        open_table_error("chunks", "x".to_string()),
        IngestError::OpenChunksTable(ref t) if t == "x"
    ));
}

fn entry(path: &str, is_file: bool) -> WalkEntry {
    WalkEntry { path: path.to_string(), is_file }
}

#[test]
fn empty_root_returns_no_files() {
    assert!(collect_ingestable_files("/root", &[entry("/root", false)]).is_empty());
}

#[test]
fn ingestable_extensions_include_md_markdown_and_pdf() {
    let names = ["a.md", "b.MARKDOWN", "c.txt", "d.rs", "e.png", "f.pdf", "g.PDF"];
    let entries: Vec<WalkEntry> =
        names.iter().map(|n| entry(&format!("/root/{n}"), true)).collect();
    let mut got = collect_ingestable_files("/root", &entries);
    got.sort();
    assert_eq!(
        got,
        vec![
            "a.md".to_string(),
            "b.MARKDOWN".to_string(),
            "f.pdf".to_string(),
            "g.PDF".to_string(),
        ]
    );
}

#[test]
fn nested_directories_walked_recursively_for_all_formats() {
    let entries = vec![
        entry("/root/top.md", true),
        entry("/root/sub", false),
        entry("/root/sub/inner.md", true),
        entry("/root/sub/deep/leaf.pdf", true),
    ];
    let got = collect_ingestable_files("/root", &entries);
    assert_eq!(got.len(), 3);
    assert!(got.contains(&"top.md".to_string()));
    assert!(got.contains(&"sub/inner.md".to_string()));
    assert!(got.contains(&"sub/deep/leaf.pdf".to_string()));
}

#[test]
fn directories_with_ingestable_extension_are_not_returned() {
    let entries = vec![entry("/root/weird.md", false), entry("/root/weird.md/inner.md", true)];
    assert_eq!(collect_ingestable_files("/root/", &entries), vec!["weird.md/inner.md"]);
}
