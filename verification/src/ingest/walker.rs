//! Which files of a walk are taken in, and under which paths.

use crate::embedding::texts_view;
use crate::format::{format_of, FileFormat};
use crate::paths::{
    components_spec, relative_path_keeps_name, relative_to, relative_to_spec,
};
use vstd::prelude::*;

verus! {

/// One entry of a walk: its path, and whether it is a regular file.
#[derive(Debug, Clone, PartialEq, Eq)]
pub struct WalkEntry {
    pub path: String,
    pub is_file: bool,
}

/// The path under which an entry is taken in: relative to the root, for a
/// regular file with a known format below it.
pub open spec fn ingested_path(root: Seq<char>, entry: WalkEntry) -> Option<Seq<char>> {
    if entry.is_file && format_of(entry.path@) is Some {
        relative_to_spec(root, entry.path@)
    } else {
        None
    }
}

/// The paths under which the entries of a walk are taken in, in its order.
pub open spec fn ingested_paths(root: Seq<char>, entries: Seq<WalkEntry>) -> Seq<Seq<char>>
    decreases entries.len(),
{
    if entries.len() == 0 {
        Seq::empty()
    } else {
        let before = ingested_paths(root, entries.drop_last());
        match ingested_path(root, entries.last()) {
            Some(path) => before.push(path),
            None => before,
        }
    }
}

/// The files of a walk that are taken in, by their paths relative to `root`.
pub fn collect_ingestable_files(root: &str, entries: &[WalkEntry]) -> (paths: Vec<String>)
    ensures
        texts_view(paths@) == ingested_paths(root@, entries@),
{
    let mut paths: Vec<String> = Vec::new();
    proof {
        assert(texts_view(paths@) =~= Seq::empty());
    }
    for i in 0..entries.len()
        invariant
            texts_view(paths@) == ingested_paths(root@, entries@.take(i as int)),
    {
        let entry: &WalkEntry = &entries[i];
        proof {
            assert(entries@.take(i as int + 1).drop_last() =~= entries@.take(i as int));
        }
        if entry.is_file && FileFormat::from_path(entry.path.as_str()).is_some() {
            if let Some(path) = relative_to(root, entry.path.as_str()) {
                let ghost before = paths@;
                let ghost added = path@;
                paths.push(path);
                proof {
                    assert(texts_view(paths@) =~= texts_view(before).push(added));
                }
            }
        }
    }
    proof {
        assert(entries@.take(entries@.len() as int) =~= entries@);
    }
    paths
}

/// A file below the root keeps its format under the path by which it is taken
/// in, so every path that a walk gives has a format.
pub proof fn ingested_path_keeps_format(root: Seq<char>, entry: WalkEntry)
    requires
        components_spec(root).len() >= 1,
        components_spec(entry.path@).len() > components_spec(root).len(),
        ingested_path(root, entry) is Some,
    ensures
        format_of(ingested_path(root, entry)->Some_0) == format_of(entry.path@),
        format_of(ingested_path(root, entry)->Some_0) is Some,
{
    relative_path_keeps_name(root, entry.path@);
}

/// The entry is a regular file with a known format, and its path goes on where
/// the root's ends.
pub open spec fn is_ingestable(root: Seq<char>, entry: WalkEntry) -> bool {
    &&& entry.is_file
    &&& format_of(entry.path@) is Some
    &&& components_spec(root).is_prefix_of(components_spec(entry.path@))
}

/// `rel` is the path from the root to one of the files that are taken in.
pub open spec fn comes_from_a_file(
    root: Seq<char>,
    entries: Seq<WalkEntry>,
    rel: Seq<char>,
) -> bool {
    exists|i: int|
        0 <= i < entries.len() && is_ingestable(root, #[trigger] entries[i]) && relative_to_spec(
            root,
            entries[i].path@,
        ) == Some(rel)
}

/// Every file of a walk with a known format below the root is taken in, under
/// its path from the root, whatever the other entries are; nothing else is; and
/// the files keep the order of the walk.
pub proof fn every_ingestable_file_is_listed(root: Seq<char>, entries: Seq<WalkEntry>)
    ensures
        ingested_paths(root, entries).len() == entries.filter(
            |e: WalkEntry| is_ingestable(root, e),
        ).len(),
        ingested_paths(root, entries) == entries.filter(
            |e: WalkEntry| is_ingestable(root, e),
        ).map_values(|e: WalkEntry| relative_to_spec(root, e.path@)->Some_0),
        forall|i: int|
            0 <= i < entries.len() && is_ingestable(root, #[trigger] entries[i])
                ==> relative_to_spec(root, entries[i].path@) is Some && ingested_paths(
                root,
                entries,
            ).contains(relative_to_spec(root, entries[i].path@)->Some_0),
        forall|k: int|
            0 <= k < ingested_paths(root, entries).len() ==> comes_from_a_file(
                root,
                entries,
                #[trigger] ingested_paths(root, entries)[k],
            ),
    decreases entries.len(),
{
    let keep = |e: WalkEntry| is_ingestable(root, e);
    let name = |e: WalkEntry| relative_to_spec(root, e.path@)->Some_0;
    let paths = ingested_paths(root, entries);
    reveal(Seq::filter);
    if entries.len() == 0 {
        assert(entries.filter(keep).map_values(name) =~= paths);
    } else {
        let short = entries.drop_last();
        let last = entries.last();
        let before = ingested_paths(root, short);
        every_ingestable_file_is_listed(root, short);
        assert(paths =~= entries.filter(keep).map_values(name));
        assert forall|i: int| 0 <= i < entries.len() && is_ingestable(root, #[trigger] entries[i])
            implies relative_to_spec(root, entries[i].path@) is Some && paths.contains(
            relative_to_spec(root, entries[i].path@)->Some_0,
        ) by {
            let rel = relative_to_spec(root, entries[i].path@)->Some_0;
            if i < short.len() {
                assert(short[i] == entries[i]);
                let k = choose|k: int| 0 <= k < before.len() && before[k] == rel;
                assert(paths[k] == rel);
            } else {
                assert(paths[paths.len() - 1] == rel);
            }
        }
        assert forall|k: int| 0 <= k < paths.len() implies comes_from_a_file(
            root,
            entries,
            #[trigger] paths[k],
        ) by {
            if k < before.len() {
                assert(paths[k] == before[k]);
                assert(comes_from_a_file(root, short, before[k]));
                let i = choose|i: int|
                    0 <= i < short.len() && is_ingestable(root, #[trigger] short[i])
                        && relative_to_spec(root, short[i].path@) == Some(before[k]);
                assert(entries[i] == short[i]);
            } else {
                assert(is_ingestable(root, entries[entries.len() - 1]));
            }
        }
    }
}

} // verus!
