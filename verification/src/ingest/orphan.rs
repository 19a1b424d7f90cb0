//! Stored paths whose file is gone.

use crate::embedding::texts_view;
use crate::ingest::pathmap::{ascending, lookup, lookup_drop_last, lookup_same, Pairs, PathMap};
use crate::paths::{path_less, same_path_spec};
use vstd::prelude::*;

verus! {

/// A set of paths, in order.
pub type PathSet = PathMap<()>;

/// The keys of `list` that are no key of `kept`, in order.
pub open spec fn difference(list: Pairs<()>, kept: Pairs<()>) -> Seq<Seq<char>>
    decreases list.len(),
{
    if list.len() == 0 {
        Seq::empty()
    } else {
        let before = difference(list.drop_last(), kept);
        if lookup(kept, list.last().0) is None {
            before.push(list.last().0)
        } else {
            before
        }
    }
}

/// The stored paths that are no longer on disk, in the order of the paths.
pub fn compute_orphans(fs_paths: &PathSet, db_paths: &PathSet) -> (orphans: Vec<String>)
    ensures
        texts_view(orphans@) == difference(db_paths.list(), fs_paths.list()),
{
    let mut orphans: Vec<String> = Vec::new();
    let count: usize = db_paths.len();
    let ghost stored = db_paths.list();
    proof {
        assert(texts_view(orphans@) =~= Seq::empty());
    }
    for i in 0..count
        invariant
            count == stored.len(),
            stored == db_paths.list(),
            texts_view(orphans@) == difference(stored.take(i as int), fs_paths.list()),
    {
        let path: &String = db_paths.path_at(i);
        proof {
            assert(stored.take(i as int + 1).drop_last() =~= stored.take(i as int));
        }
        if !fs_paths.contains(path.as_str()) {
            let ghost before = orphans@;
            orphans.push(path.clone());
            proof {
                assert(texts_view(orphans@) =~= texts_view(before).push(path@));
            }
        }
    }
    proof {
        assert(stored.take(stored.len() as int) =~= stored);
    }
    orphans
}

/// `path` is listed among `paths`.
pub open spec fn listed(paths: Seq<Seq<char>>, path: Seq<char>) -> bool {
    exists|i: int| 0 <= i < paths.len() && same_path_spec(#[trigger] paths[i], path)
}

/// A path is an orphan exactly when it is stored and not on disk.
pub proof fn orphans_are_the_difference(stored: Pairs<()>, on_disk: Pairs<()>, path: Seq<char>)
    ensures
        listed(difference(stored, on_disk), path) <==> lookup(stored, path) is Some && lookup(
            on_disk,
            path,
        ) is None,
    decreases stored.len(),
{
    if stored.len() > 0 {
        let short = stored.drop_last();
        let before = difference(short, on_disk);
        let last = stored.last().0;
        orphans_are_the_difference(short, on_disk, path);
        lookup_drop_last(stored, path);
        if same_path_spec(last, path) {
            lookup_same(on_disk, last, path);
        }
        let all = difference(stored, on_disk);
        if listed(before, path) {
            let i = choose|i: int|
                0 <= i < before.len() && same_path_spec(#[trigger] before[i], path);
            assert(all[i] == before[i]);
        }
        if lookup(on_disk, last) is None {
            assert(all.last() == last);
            if same_path_spec(last, path) {
                assert(same_path_spec(all[all.len() - 1], path));
            } else if listed(all, path) {
                let i = choose|i: int|
                    0 <= i < all.len() && same_path_spec(#[trigger] all[i], path);
                assert(before[i] == all[i]);
            }
        }
    }
}

/// Every orphan is told once: their paths come in strictly ascending order.
pub proof fn orphans_are_told_once(stored: Pairs<()>, on_disk: Pairs<()>)
    requires
        ascending(stored),
    ensures
        forall|i: int, j: int|
            0 <= i < j < difference(stored, on_disk).len() ==> path_less(
                #[trigger] difference(stored, on_disk)[i],
                #[trigger] difference(stored, on_disk)[j],
            ),
        forall|i: int|
            0 <= i < difference(stored, on_disk).len() ==> is_key(
                stored,
                #[trigger] difference(stored, on_disk)[i],
            ),
    decreases stored.len(),
{
    if stored.len() > 0 {
        let short = stored.drop_last();
        let last = stored.last().0;
        let before = difference(short, on_disk);
        let all = difference(stored, on_disk);
        assert forall|i: int, j: int| 0 <= i < j < short.len() implies path_less(
            #[trigger] short[i].0,
            #[trigger] short[j].0,
        ) by {
            assert(short[i] == stored[i] && short[j] == stored[j]);
        }
        orphans_are_told_once(short, on_disk);
        assert forall|i: int| 0 <= i < all.len() implies is_key(stored, #[trigger] all[i]) by {
            if i < before.len() {
                assert(all[i] == before[i]);
                assert(is_key(short, before[i]));
                let k = choose|k: int| 0 <= k < short.len() && #[trigger] short[k].0 == before[i];
                assert(stored[k].0 == all[i]);
            } else {
                assert(stored[stored.len() - 1].0 == all[i]);
            }
        }
        assert forall|i: int, j: int| 0 <= i < j < all.len() implies path_less(
            #[trigger] all[i],
            #[trigger] all[j],
        ) by {
            assert(all[i] == before[i]);
            if j < before.len() {
                assert(all[j] == before[j]);
            } else {
                assert(is_key(short, before[i]));
                let k = choose|k: int| 0 <= k < short.len() && #[trigger] short[k].0 == before[i];
                assert(stored[k].0 == all[i]);
                assert(path_less(stored[k].0, stored[stored.len() - 1].0));
            }
        }
    }
}

/// `path` is a key of the list.
pub open spec fn is_key(list: Pairs<()>, path: Seq<char>) -> bool {
    exists|k: int| 0 <= k < list.len() && #[trigger] list[k].0 == path
}

} // verus!
