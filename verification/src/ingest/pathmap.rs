//! A map keyed by paths, in the order of the paths. Two texts of one path are
//! one key.

use crate::order::Order;
use crate::paths::{
    components_less_irreflexive, components_less_total, components_less_transitive,
    components_spec, path_less, path_order, same_path_spec,
};
use vstd::prelude::*;

verus! {

/// Keys and values, in order.
pub type Pairs<V> = Seq<(Seq<char>, V)>;

/// The keys come in strictly ascending order, so none occurs twice.
pub open spec fn ascending<V>(list: Pairs<V>) -> bool {
    forall|i: int, j: int|
        0 <= i < j < list.len() ==> path_less(#[trigger] list[i].0, #[trigger] list[j].0)
}

/// The value at `path`.
pub open spec fn lookup<V>(list: Pairs<V>, path: Seq<char>) -> Option<V>
    decreases list.len(),
{
    if list.len() == 0 {
        None
    } else if same_path_spec(list[0].0, path) {
        Some(list[0].1)
    } else {
        lookup(list.skip(1), path)
    }
}

/// `list` with `value` at `path`. A key that is there keeps its text.
pub open spec fn put<V>(list: Pairs<V>, path: Seq<char>, value: V) -> Pairs<V>
    decreases list.len(),
{
    if list.len() == 0 {
        seq![(path, value)]
    } else if same_path_spec(list[0].0, path) {
        seq![(list[0].0, value)] + list.skip(1)
    } else if path_less(path, list[0].0) {
        seq![(path, value)] + list
    } else {
        seq![list[0]] + put(list.skip(1), path, value)
    }
}

/// Values by path.
pub struct PathMap<V> {
    entries: Vec<(String, V)>,
}

pub closed spec fn pairs_of<V>(entries: Seq<(String, V)>) -> Pairs<V> {
    entries.map_values(|e: (String, V)| (e.0@, e.1))
}

proof fn ascending_tail<V>(list: Pairs<V>)
    requires
        ascending(list),
        list.len() > 0,
    ensures
        ascending(list.skip(1)),
        forall|i: int|
            0 <= i < list.skip(1).len() ==> path_less(list[0].0, (#[trigger] list.skip(1)[i]).0),
{
    let tail = list.skip(1);
    assert forall|i: int, j: int| 0 <= i < j < tail.len() implies path_less(
        #[trigger] tail[i].0,
        #[trigger] tail[j].0,
    ) by {
        assert(path_less(list[i + 1].0, list[j + 1].0));
    }
    assert forall|i: int| 0 <= i < tail.len() implies path_less(
        list[0].0,
        (#[trigger] tail[i]).0,
    ) by {
        assert(path_less(list[0].0, list[i + 1].0));
    }
}

/// A key of the list after a `put` is one that was there or the new one.
pub proof fn put_keys<V>(list: Pairs<V>, path: Seq<char>, value: V, i: int)
    requires
        0 <= i < put(list, path, value).len(),
    ensures
        put(list, path, value)[i].0 == path || exists|j: int|
            0 <= j < list.len() && #[trigger] list[j].0 == put(list, path, value)[i].0,
    decreases list.len(),
{
    if list.len() > 0 {
        let changed = put(list, path, value);
        if same_path_spec(list[0].0, path) {
            if i == 0 {
                assert(list[0].0 == changed[0].0);
            } else {
                assert(list[i].0 == changed[i].0);
            }
        } else if path_less(path, list[0].0) {
            if i > 0 {
                assert(list[i - 1].0 == changed[i].0);
            }
        } else if i == 0 {
            assert(list[0].0 == changed[0].0);
        } else {
            put_keys(list.skip(1), path, value, i - 1);
            let tail = put(list.skip(1), path, value);
            assert(changed[i] == tail[i - 1]);
            if tail[i - 1].0 != path {
                let j = choose|j: int|
                    0 <= j < list.skip(1).len() && #[trigger] list.skip(1)[j].0 == tail[i - 1].0;
                assert(list[j + 1].0 == changed[i].0);
            }
        }
    }
}

proof fn push_front_ascending<V>(first: (Seq<char>, V), tail: Pairs<V>)
    requires
        ascending(tail),
        forall|i: int| 0 <= i < tail.len() ==> path_less(first.0, (#[trigger] tail[i]).0),
    ensures
        ascending(seq![first] + tail),
{
    let whole = seq![first] + tail;
    assert forall|i: int, j: int| 0 <= i < j < whole.len() implies path_less(
        #[trigger] whole[i].0,
        #[trigger] whole[j].0,
    ) by {
        assert(whole[j] == tail[j - 1]);
        if i > 0 {
            assert(whole[i] == tail[i - 1]);
        }
    }
}

/// `put` keeps the keys in order and without repeats.
pub proof fn put_keeps_order<V>(list: Pairs<V>, path: Seq<char>, value: V)
    requires
        ascending(list),
    ensures
        ascending(put(list, path, value)),
    decreases list.len(),
{
    if list.len() > 0 {
        let head = list[0];
        let tail = list.skip(1);
        ascending_tail(list);
        if same_path_spec(head.0, path) {
            push_front_ascending((head.0, value), tail);
        } else if path_less(path, head.0) {
            assert forall|i: int| 0 <= i < list.len() implies path_less(
                path,
                (#[trigger] list[i]).0,
            ) by {
                if i > 0 {
                    assert(path_less(list[0].0, list[i].0));
                    components_less_transitive(
                        components_spec(path),
                        components_spec(head.0),
                        components_spec(list[i].0),
                    );
                }
            }
            push_front_ascending((path, value), list);
        } else {
            put_keeps_order(tail, path, value);
            components_less_total(components_spec(path), components_spec(head.0));
            let changed = put(tail, path, value);
            assert forall|i: int| 0 <= i < changed.len() implies path_less(
                head.0,
                (#[trigger] changed[i]).0,
            ) by {
                put_keys(tail, path, value, i);
                if changed[i].0 != path {
                    let j = choose|j: int|
                        0 <= j < tail.len() && #[trigger] tail[j].0 == changed[i].0;
                    assert(path_less(head.0, tail[j].0));
                }
            }
            push_front_ascending(head, changed);
        }
    }
}

/// After a `put` the path looks up the value, and every other path what it
/// looked up before.
pub proof fn lookup_after_put<V>(list: Pairs<V>, path: Seq<char>, value: V, other: Seq<char>)
    requires
        ascending(list),
    ensures
        lookup(put(list, path, value), other) == (if same_path_spec(path, other) {
            Some(value)
        } else {
            lookup(list, other)
        }),
    decreases list.len(),
{
    let changed = put(list, path, value);
    if list.len() == 0 {
        assert(changed.skip(1) =~= list);
        assert(changed[0].0 == path);
        assert(lookup(changed.skip(1), other) is None);
    } else {
        let head = list[0];
        let tail = list.skip(1);
        ascending_tail(list);
        if same_path_spec(head.0, path) {
            assert(changed.skip(1) =~= tail);
        } else if path_less(path, head.0) {
            assert(changed.skip(1) =~= list);
        } else {
            assert(changed.skip(1) =~= put(tail, path, value));
            assert(changed[0] == head);
            lookup_after_put(tail, path, value, other);
        }
    }
}

proof fn lookup_at<V>(list: Pairs<V>, i: int)
    requires
        ascending(list),
        0 <= i < list.len(),
    ensures
        lookup(list, list[i].0) == Some(list[i].1),
    decreases list.len(),
{
    if i > 0 {
        ascending_tail(list);
        assert(path_less(list[0].0, list[i].0));
        components_less_irreflexive(components_spec(list[i].0));
        assert(list.skip(1)[i - 1] == list[i]);
        lookup_at(list.skip(1), i - 1);
    }
}

/// Two texts of one path look up the same.
pub proof fn lookup_same<V>(list: Pairs<V>, a: Seq<char>, b: Seq<char>)
    requires
        same_path_spec(a, b),
    ensures
        lookup(list, a) == lookup(list, b),
    decreases list.len(),
{
    if list.len() > 0 {
        lookup_same(list.skip(1), a, b);
    }
}

proof fn lookup_absent<V>(list: Pairs<V>, path: Seq<char>)
    requires
        forall|i: int| 0 <= i < list.len() ==> !same_path_spec((#[trigger] list[i]).0, path),
    ensures
        lookup(list, path) is None,
    decreases list.len(),
{
    if list.len() > 0 {
        let tail = list.skip(1);
        assert(!same_path_spec(list[0].0, path));
        assert forall|i: int| 0 <= i < tail.len() implies !same_path_spec(
            (#[trigger] tail[i]).0,
            path,
        ) by {
            assert(tail[i] == list[i + 1]);
        }
        lookup_absent(tail, path);
    }
}

/// A path is a key where it is the last key or one before it.
pub proof fn lookup_drop_last<V>(list: Pairs<V>, path: Seq<char>)
    requires
        list.len() > 0,
    ensures
        lookup(list, path) is Some <==> lookup(list.drop_last(), path) is Some || same_path_spec(
            list.last().0,
            path,
        ),
    decreases list.len(),
{
    if list.len() > 1 {
        lookup_drop_last(list.skip(1), path);
        assert(list.skip(1).drop_last() =~= list.drop_last().skip(1));
    } else {
        assert(lookup(list.skip(1), path) is None);
    }
}

proof fn put_found<V>(list: Pairs<V>, path: Seq<char>, value: V, at: int)
    requires
        0 <= at < list.len(),
        forall|i: int| 0 <= i < at ==> path_less((#[trigger] list[i]).0, path),
        same_path_spec(list[at].0, path),
    ensures
        put(list, path, value) == list.update(at, (list[at].0, value)),
    decreases list.len(),
{
    if at == 0 {
        assert(seq![(list[0].0, value)] + list.skip(1) =~= list.update(0, (list[0].0, value)));
    } else {
        let tail = list.skip(1);
        assert(path_less(list[0].0, path));
        components_less_irreflexive(components_spec(path));
        components_less_total(components_spec(path), components_spec(list[0].0));
        assert forall|i: int| 0 <= i < at - 1 implies path_less((#[trigger] tail[i]).0, path) by {
            assert(tail[i] == list[i + 1]);
        }
        assert(tail[at - 1] == list[at]);
        put_found(tail, path, value, at - 1);
        assert(seq![list[0]] + tail.update(at - 1, (list[at].0, value)) =~= list.update(
            at,
            (list[at].0, value),
        ));
    }
}

proof fn put_missing<V>(list: Pairs<V>, path: Seq<char>, value: V, at: int)
    requires
        0 <= at <= list.len(),
        forall|i: int| 0 <= i < at ==> path_less((#[trigger] list[i]).0, path),
        at < list.len() ==> path_less(path, list[at].0),
    ensures
        put(list, path, value) == list.insert(at, (path, value)),
    decreases list.len(),
{
    if list.len() == 0 {
        assert(seq![(path, value)] =~= list.insert(0, (path, value)));
    } else if at == 0 {
        components_less_irreflexive(components_spec(path));
        assert(seq![(path, value)] + list =~= list.insert(0, (path, value)));
    } else {
        let tail = list.skip(1);
        assert(path_less(list[0].0, path));
        components_less_irreflexive(components_spec(path));
        components_less_total(components_spec(path), components_spec(list[0].0));
        assert forall|i: int| 0 <= i < at - 1 implies path_less((#[trigger] tail[i]).0, path) by {
            assert(tail[i] == list[i + 1]);
        }
        put_missing(tail, path, value, at - 1);
        assert(seq![list[0]] + tail.insert(at - 1, (path, value)) =~= list.insert(
            at,
            (path, value),
        ));
    }
}

impl<V> PathMap<V> {
    /// The keys and values, in order.
    pub closed spec fn list(&self) -> Pairs<V> {
        pairs_of(self.entries@)
    }

    #[verifier::type_invariant]
    closed spec fn wf(self) -> bool {
        ascending(pairs_of(self.entries@))
    }

    /// An empty map.
    pub fn new() -> (made: PathMap<V>)
        ensures
            made.list() == Pairs::<V>::empty(),
    {
        let made = PathMap { entries: Vec::new() };
        proof {
            assert(made.list() =~= Pairs::<V>::empty());
        }
        made
    }

    /// Number of keys. They are in strictly ascending order.
    pub fn len(&self) -> (n: usize)
        ensures
            n == self.list().len(),
            ascending(self.list()),
    {
        proof {
            use_type_invariant(self);
        }
        self.entries.len()
    }

    /// The key at place `i`.
    pub fn path_at(&self, i: usize) -> (path: &String)
        requires
            i < self.list().len(),
        ensures
            path@ == self.list()[i as int].0,
    {
        &self.entries[i].0
    }

    /// The place at which `path` stands or belongs.
    fn place_of(&self, path: &str) -> (found: (usize, bool))
        ensures
            found.0 <= self.list().len(),
            forall|i: int|
                0 <= i < found.0 ==> path_less((#[trigger] self.list()[i]).0, path@),
            found.1 ==> found.0 < self.list().len() && same_path_spec(
                self.list()[found.0 as int].0,
                path@,
            ),
            !found.1 && found.0 < self.list().len() ==> path_less(
                path@,
                self.list()[found.0 as int].0,
            ),
    {
        let mut i: usize = 0;
        while i < self.entries.len()
            invariant
                i <= self.entries@.len(),
                forall|j: int| 0 <= j < i ==> path_less((#[trigger] self.list()[j]).0, path@),
            decreases self.entries@.len() - i,
        {
            proof {
                assert(self.list()[i as int].0 == self.entries@[i as int].0@);
            }
            match path_order(self.entries[i].0.as_str(), path) {
                Order::Less => {
                    i = i + 1;
                },
                Order::Equal => {
                    return (i, true);
                },
                Order::Greater => {
                    proof {
                        components_less_total(
                            components_spec(self.list()[i as int].0),
                            components_spec(path@),
                        );
                    }
                    return (i, false);
                },
            }
        }
        (i, false)
    }

    /// The value at `path`.
    pub fn get(&self, path: &str) -> (value: Option<&V>)
        ensures
            match value {
                Some(v) => lookup(self.list(), path@) == Some(*v),
                None => lookup(self.list(), path@) is None,
            },
    {
        let (at, found): (usize, bool) = self.place_of(path);
        proof {
            use_type_invariant(self);
            let list = self.list();
            if found {
                lookup_at(list, at as int);
                lookup_same(list, list[at as int].0, path@);
            } else {
                assert forall|i: int| 0 <= i < list.len() implies !same_path_spec(
                    (#[trigger] list[i]).0,
                    path@,
                ) by {
                    components_less_irreflexive(components_spec(path@));
                    if i > at {
                        assert(path_less(list[at as int].0, list[i].0));
                        components_less_transitive(
                            components_spec(path@),
                            components_spec(list[at as int].0),
                            components_spec(list[i].0),
                        );
                    }
                }
                lookup_absent(list, path@);
            }
        }
        if found {
            Some(&self.entries[at].1)
        } else {
            None
        }
    }

    /// Whether `path` is a key.
    pub fn contains(&self, path: &str) -> (yes: bool)
        ensures
            yes == lookup(self.list(), path@) is Some,
    {
        self.get(path).is_some()
    }

    /// Puts `value` at `path`.
    pub fn insert(&mut self, path: String, value: V)
        ensures
            final(self).list() == put(old(self).list(), path@, value),
    {
        proof {
            use_type_invariant(&*self);
        }
        let (at, found): (usize, bool) = self.place_of(path.as_str());
        let ghost before = self.list();
        let ghost key = path@;
        proof {
            put_keeps_order(before, key, value);
        }
        let mut taken: PathMap<V> = PathMap::new();
        core::mem::swap(self, &mut taken);
        let mut entries: Vec<(String, V)> = taken.entries;
        if found {
            proof {
                put_found(before, key, value, at as int);
            }
            let (kept, _old): (String, V) = entries.remove(at);
            entries.insert(at, (kept, value));
            proof {
                assert(pairs_of(entries@) =~= before.update(at as int, (before[at as int].0, value)));
            }
        } else {
            proof {
                put_missing(before, key, value, at as int);
            }
            entries.insert(at, (path, value));
            proof {
                assert(pairs_of(entries@) =~= before.insert(at as int, (key, value)));
            }
        }
        *self = PathMap { entries };
    }
}

/// What a path looks up is what stands in the list under it, wherever it stands,
/// and nothing where no key is that path.
pub proof fn lookup_finds_what_is_listed<V>(list: Pairs<V>, path: Seq<char>)
    requires
        ascending(list),
    ensures
        forall|i: int|
            0 <= i < list.len() && same_path_spec(#[trigger] list[i].0, path) ==> lookup(
                list,
                path,
            ) == Some(list[i].1),
        (forall|i: int| 0 <= i < list.len() ==> !same_path_spec((#[trigger] list[i]).0, path))
            ==> lookup(list, path) is None,
{
    assert forall|i: int|
        0 <= i < list.len() && same_path_spec(#[trigger] list[i].0, path) implies lookup(list, path)
        == Some(list[i].1) by {
        lookup_at(list, i);
        lookup_same(list, list[i].0, path);
    }
    if forall|i: int| 0 <= i < list.len() ==> !same_path_spec((#[trigger] list[i]).0, path) {
        lookup_absent(list, path);
    }
}

} // verus!
