//! A run over one collection: which stored paths go, and how its files are
//! worked on.

use crate::embedding::texts_view;
use crate::ingest::error::IngestError;
use crate::ingest::incremental::DbRow;
use crate::ingest::orphan::{
    compute_orphans, difference, listed, orphans_are_the_difference, PathSet,
};
use crate::ingest::pathmap::{
    ascending, lookup, lookup_after_put, lookup_drop_last, put, put_keeps_order, Pairs, PathMap,
};
use crate::paths::same_path_spec;
use crate::text::same_text;
use vstd::prelude::*;

verus! {

/// Name of the table of chunks.
pub const CHUNKS_TABLE_NAME: &'static str = "chunks";

/// Name of the table of sources.
pub const SOURCES_TABLE_NAME: &'static str = "sources";

/// `set` with the keys of `list`.
pub open spec fn with_keys<V>(set: Pairs<()>, list: Pairs<V>) -> Pairs<()>
    decreases list.len(),
{
    if list.len() == 0 {
        set
    } else {
        put(with_keys(set, list.drop_last()), list.last().0, ())
    }
}

/// The set of `paths`.
pub open spec fn set_of(paths: Seq<Seq<char>>) -> Pairs<()>
    decreases paths.len(),
{
    if paths.len() == 0 {
        Pairs::<()>::empty()
    } else {
        put(set_of(paths.drop_last()), paths.last(), ())
    }
}

/// Adds the keys of `map` to `set`.
pub fn add_keys<V>(set: &mut PathSet, map: &PathMap<V>)
    ensures
        final(set).list() == with_keys(old(set).list(), map.list()),
{
    let count: usize = map.len();
    let ghost keys = map.list();
    for i in 0..count
        invariant
            count == keys.len(),
            keys == map.list(),
            set.list() == with_keys(old(set).list(), keys.take(i as int)),
    {
        set.insert(map.path_at(i).clone(), ());
        proof {
            assert(keys.take(i as int + 1).drop_last() =~= keys.take(i as int));
        }
    }
    proof {
        assert(keys.take(keys.len() as int) =~= keys);
    }
}

/// The set of `paths`.
pub fn path_set(paths: &[String]) -> (set: PathSet)
    ensures
        set.list() == set_of(texts_view(paths@)),
{
    let mut set: PathSet = PathMap::new();
    let ghost views = texts_view(paths@);
    for i in 0..paths.len()
        invariant
            views == texts_view(paths@),
            set.list() == set_of(views.take(i as int)),
    {
        set.insert(paths[i].clone(), ());
        proof {
            assert(views.take(i as int + 1).drop_last() =~= views.take(i as int));
            assert(views[i as int] == paths@[i as int]@);
        }
    }
    proof {
        assert(views.take(views.len() as int) =~= views);
    }
    set
}

/// The stored paths: those of the rows and those of the sources.
pub open spec fn stored_paths(rows: Pairs<DbRow>, sources: Pairs<String>) -> Pairs<()> {
    with_keys(with_keys(Pairs::<()>::empty(), rows), sources)
}

/// The paths whose rows are removed: those that one of the tables holds and
/// that are no longer on disk.
pub fn find_orphans(
    fs_paths: &[String],
    rows: &PathMap<DbRow>,
    sources: &PathMap<String>,
) -> (orphans: Vec<String>)
    ensures
        texts_view(orphans@) == difference(
            stored_paths(rows.list(), sources.list()),
            set_of(texts_view(fs_paths@)),
        ),
{
    let mut stored: PathSet = PathMap::new();
    add_keys(&mut stored, rows);
    add_keys(&mut stored, sources);
    let on_disk: PathSet = path_set(fs_paths);
    compute_orphans(&on_disk, &stored)
}

proof fn with_keys_looks_up<V>(set: Pairs<()>, list: Pairs<V>, path: Seq<char>)
    requires
        ascending(set),
    ensures
        ascending(with_keys(set, list)),
        lookup(with_keys(set, list), path) is Some <==> lookup(set, path) is Some || lookup(
            list,
            path,
        ) is Some,
    decreases list.len(),
{
    if list.len() > 0 {
        let before = with_keys(set, list.drop_last());
        with_keys_looks_up(set, list.drop_last(), path);
        put_keeps_order(before, list.last().0, ());
        lookup_after_put(before, list.last().0, (), path);
        lookup_drop_last(list, path);
    }
}

proof fn set_looks_up(paths: Seq<Seq<char>>, path: Seq<char>)
    ensures
        ascending(set_of(paths)),
        lookup(set_of(paths), path) is Some <==> listed(paths, path),
    decreases paths.len(),
{
    if paths.len() > 0 {
        let short = paths.drop_last();
        let last = paths.last();
        set_looks_up(short, path);
        put_keeps_order(set_of(short), last, ());
        lookup_after_put(set_of(short), last, (), path);
        if listed(short, path) {
            let i = choose|i: int| 0 <= i < short.len() && same_path_spec(#[trigger] short[i], path);
            assert(paths[i] == short[i]);
        }
        if same_path_spec(last, path) {
            assert(same_path_spec(paths[paths.len() - 1], path));
        } else if listed(paths, path) {
            let i = choose|i: int| 0 <= i < paths.len() && same_path_spec(#[trigger] paths[i], path);
            assert(short[i] == paths[i]);
        }
    }
}

/// A path is removed exactly when a row or a source is stored for it and the
/// walk did not meet it; a row that a broken run left in one table alone goes
/// too.
pub proof fn removed_exactly_when_stored_and_gone(
    fs_paths: Seq<Seq<char>>,
    rows: Pairs<DbRow>,
    sources: Pairs<String>,
    path: Seq<char>,
)
    ensures
        listed(difference(stored_paths(rows, sources), set_of(fs_paths)), path) <==> (lookup(
            rows,
            path,
        ) is Some || lookup(sources, path) is Some) && !listed(fs_paths, path),
{
    let none = Pairs::<()>::empty();
    with_keys_looks_up(none, rows, path);
    with_keys_looks_up(with_keys(none, rows), sources, path);
    set_looks_up(fs_paths, path);
    orphans_are_the_difference(stored_paths(rows, sources), set_of(fs_paths), path);
}

/// How the files of a collection are worked on.
#[derive(Debug, Clone, Copy, PartialEq, Eq, Structural)]
pub enum RunMode {
    /// One after the other.
    Sequential,
    /// Up to so many at a time.
    Parallel(usize),
}

/// The mode for a number of files at a time; zero means one after the other.
pub fn run_mode(parallelism: usize) -> (mode: RunMode)
    ensures
        mode == (if parallelism == 0 {
            RunMode::Sequential
        } else {
            RunMode::Parallel(parallelism)
        }),
{
    if parallelism == 0 {
        RunMode::Sequential
    } else {
        RunMode::Parallel(parallelism)
    }
}

/// The error for a table that cannot be opened.
pub fn open_table_error(table: &str, source: String) -> (error: IngestError)
    ensures
        error == (if table@ == SOURCES_TABLE_NAME@ {
            IngestError::OpenSourcesTable(source)
        } else {
            IngestError::OpenChunksTable(source)
        }),
{
    if same_text(table, SOURCES_TABLE_NAME) {
        IngestError::OpenSourcesTable(source)
    } else {
        IngestError::OpenChunksTable(source)
    }
}

/// The vector length that the configuration declares, as the table's pin has
/// it.
pub fn declared_dim(dim: usize) -> (pinned: i32)
    requires
        dim <= i32::MAX,
    ensures
        pinned == dim,
{
    dim as i32
}

} // verus!
