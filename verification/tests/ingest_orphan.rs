//! Stored paths whose file is gone.

use mdya::ingest::compute_orphans;
use mdya::ingest::orphan::PathSet;

fn set<I: IntoIterator<Item = &'static str>>(items: I) -> PathSet {
    let mut paths: PathSet = PathSet::new();
    for item in items {
        paths.insert(item.to_string(), ());
    }
    paths
}

#[test]
fn empty_fs_returns_every_db_path_as_orphan() {
    let fs = set([]);
    let db = set(["a.md", "b.md"]);
    let mut got = compute_orphans(&fs, &db);
    got.sort();
    assert_eq!(got, vec![String::from("a.md"), String::from("b.md")]);
}

#[test]
fn full_overlap_returns_no_orphan() {
    let fs = set(["a.md", "b.md"]);
    let db = set(["a.md", "b.md"]);
    assert!(compute_orphans(&fs, &db).is_empty());
}

#[test]
fn db_minus_fs_is_orphan_fs_minus_db_is_not() {
    let fs = set(["kept.md", "new.md"]);
    let db = set(["kept.md", "removed.md"]);
    let got = compute_orphans(&fs, &db);
    assert_eq!(got, vec![String::from("removed.md")]);
}

#[test]
fn empty_db_returns_no_orphan_even_when_fs_has_files() {
    let fs = set(["a.md"]);
    let db = set([]);
    assert!(compute_orphans(&fs, &db).is_empty());
}
