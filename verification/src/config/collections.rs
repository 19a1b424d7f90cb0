//! The named collections of a configuration, in the order of their names.

use crate::order::{order_texts, text_less, text_less_irreflexive, text_less_total,
    text_less_transitive, Order};
use crate::paths::text_view;
use vstd::prelude::*;

verus! {

/// One collection. `path` is the text as the user wrote it, a leading `~`
/// included.
#[derive(Debug, PartialEq)]
pub struct CollectionEntry {
    pub path: String,
    pub description: Option<String>,
}

impl Clone for CollectionEntry {
    fn clone(&self) -> (copy: Self)
        ensures
            copy@ == self@,
    {
        CollectionEntry {
            path: self.path.clone(),
            description: match &self.description {
                Some(text) => Some(text.clone()),
                None => None,
            },
        }
    }
}

/// A collection with its texts as character sequences.
pub struct EntryView {
    pub path: Seq<char>,
    pub description: Option<Seq<char>>,
}

impl View for CollectionEntry {
    type V = EntryView;

    open spec fn view(&self) -> EntryView {
        EntryView { path: self.path@, description: text_view(self.description) }
    }
}

/// A collection with its name.
#[derive(Debug, PartialEq)]
pub struct NamedEntry {
    pub name: String,
    pub entry: CollectionEntry,
}

/// Names and collections, in order.
pub type EntryList = Seq<(Seq<char>, EntryView)>;

/// The names come in strictly ascending dictionary order, so none occurs
/// twice.
pub open spec fn ascending(list: EntryList) -> bool {
    forall|i: int, j: int|
        0 <= i < j < list.len() ==> text_less(#[trigger] list[i].0, #[trigger] list[j].0)
}

/// The collection named `name`.
pub open spec fn lookup(list: EntryList, name: Seq<char>) -> Option<EntryView>
    decreases list.len(),
{
    if list.len() == 0 {
        None
    } else if list.last().0 == name {
        Some(list.last().1)
    } else {
        lookup(list.drop_last(), name)
    }
}

/// The named collections of a configuration.
#[derive(Debug, PartialEq)]
pub struct Collections {
    entries: Vec<NamedEntry>,
}

/// The names and collections of a list of named collections.
pub open spec fn entry_list(entries: Seq<NamedEntry>) -> EntryList {
    entries.map_values(|e: NamedEntry| (e.name@, e.entry@))
}

proof fn lookup_at(list: EntryList, i: int)
    requires
        ascending(list),
        0 <= i < list.len(),
    ensures
        lookup(list, list[i].0) == Some(list[i].1),
    decreases list.len(),
{
    let last = list.len() - 1;
    if i < last {
        assert(text_less(list[i].0, list[last].0));
        text_less_irreflexive(list[i].0);
        assert(list.drop_last()[i] == list[i]);
        lookup_at(list.drop_last(), i);
    }
}

proof fn lookup_absent(list: EntryList, name: Seq<char>)
    requires
        forall|i: int| 0 <= i < list.len() ==> (#[trigger] list[i]).0 != name,
    ensures
        lookup(list, name) is None,
    decreases list.len(),
{
    if list.len() > 0 {
        assert(list[list.len() - 1].0 != name);
        assert forall|i: int| 0 <= i < list.drop_last().len() implies (
        #[trigger] list.drop_last()[i]).0 != name by {
            assert(list.drop_last()[i] == list[i]);
        }
        lookup_absent(list.drop_last(), name);
    }
}

proof fn lookup_found(list: EntryList, name: Seq<char>) -> (at: int)
    requires
        lookup(list, name) is Some,
    ensures
        0 <= at < list.len(),
        list[at].0 == name,
    decreases list.len(),
{
    if list.last().0 == name {
        list.len() - 1
    } else {
        lookup_found(list.drop_last(), name)
    }
}

impl Clone for Collections {
    fn clone(&self) -> (copy: Self)
        ensures
            copy.list() == self.list(),
    {
        proof {
            use_type_invariant(self);
        }
        let mut entries: Vec<NamedEntry> = Vec::new();
        for i in 0..self.entries.len()
            invariant
                entry_list(entries@) =~= self.list().take(i as int),
        {
            let item: &NamedEntry = &self.entries[i];
            let name: String = item.name.clone();
            let entry: CollectionEntry = item.entry.clone();
            let ghost so_far = entries@;
            let ghost pair = (name@, entry@);
            entries.push(NamedEntry { name, entry });
            proof {
                assert(entry_list(entries@) =~= entry_list(so_far).push(pair));
                assert(self.list()[i as int] == pair);
                assert(self.list().take(i as int + 1) =~= self.list().take(i as int).push(pair));
            }
        }
        proof {
            assert(entry_list(entries@) =~= self.list());
        }
        Collections { entries }
    }
}

impl Collections {
    /// The names and collections, in order.
    pub closed spec fn list(&self) -> EntryList {
        entry_list(self.entries@)
    }

    #[verifier::type_invariant]
    closed spec fn wf(self) -> bool {
        ascending(entry_list(self.entries@))
    }

    /// No collections.
    pub fn new() -> (made: Collections)
        ensures
            made.list() == EntryList::empty(),
    {
        let made = Collections { entries: Vec::new() };
        proof {
            assert(made.list() =~= EntryList::empty());
        }
        made
    }

    /// Number of collections. Their names are in strictly ascending order.
    pub fn len(&self) -> (n: usize)
        ensures
            n == self.list().len(),
            ascending(self.list()),
    {
        proof {
            use_type_invariant(self);
        }
        self.entries.len()
    }

    /// Whether there is no collection.
    pub fn is_empty(&self) -> (yes: bool)
        ensures
            yes == (self.list().len() == 0),
    {
        self.entries.len() == 0
    }

    /// The name at place `i`.
    pub fn name_at(&self, i: usize) -> (name: &String)
        requires
            i < self.list().len(),
        ensures
            name@ == self.list()[i as int].0,
    {
        &self.entries[i].name
    }

    /// The collection at place `i`.
    pub fn entry_at(&self, i: usize) -> (entry: &CollectionEntry)
        requires
            i < self.list().len(),
        ensures
            entry@ == self.list()[i as int].1,
    {
        &self.entries[i].entry
    }

    /// The place at which `name` stands or belongs.
    fn place_of(&self, name: &str) -> (found: (usize, bool))
        ensures
            found.0 <= self.list().len(),
            forall|i: int|
                0 <= i < found.0 ==> text_less((#[trigger] self.list()[i]).0, name@),
            found.1 ==> found.0 < self.list().len() && self.list()[found.0 as int].0 == name@,
            !found.1 ==> forall|i: int|
                found.0 <= i < self.list().len() ==> text_less(
                    name@,
                    (#[trigger] self.list()[i]).0,
                ),
    {
        proof {
            use_type_invariant(self);
        }
        let mut i: usize = 0;
        while i < self.entries.len()
            invariant
                i <= self.entries@.len(),
                ascending(self.list()),
                forall|j: int| 0 <= j < i ==> text_less((#[trigger] self.list()[j]).0, name@),
            decreases self.entries@.len() - i,
        {
            proof {
                assert(self.list()[i as int].0 == self.entries@[i as int].name@);
            }
            match order_texts(self.entries[i].name.as_str(), name) {
                Order::Less => {
                    i = i + 1;
                },
                Order::Equal => {
                    return (i, true);
                },
                Order::Greater => {
                    proof {
                        let here = self.list()[i as int].0;
                        text_less_total(here, name@);
                        assert forall|j: int| i <= j < self.list().len() implies text_less(
                            name@,
                            (#[trigger] self.list()[j]).0,
                        ) by {
                            if j > i {
                                text_less_transitive(name@, here, self.list()[j].0);
                            }
                        }
                    }
                    return (i, false);
                },
            }
        }
        (i, false)
    }

    proof fn place_tells(list: EntryList, name: Seq<char>, at: int)
        requires
            0 <= at <= list.len(),
            forall|i: int| 0 <= i < at ==> text_less((#[trigger] list[i]).0, name),
            forall|i: int| at <= i < list.len() ==> text_less(name, (#[trigger] list[i]).0),
        ensures
            lookup(list, name) is None,
    {
        assert forall|i: int| 0 <= i < list.len() implies (#[trigger] list[i]).0 != name by {
            text_less_irreflexive(name);
        }
        lookup_absent(list, name);
    }

    /// Whether a collection has this name.
    pub fn contains_key(&self, name: &str) -> (yes: bool)
        ensures
            yes == lookup(self.list(), name@) is Some,
    {
        self.get(name).is_some()
    }

    /// The collection named `name`.
    pub fn get(&self, name: &str) -> (entry: Option<&CollectionEntry>)
        ensures
            match entry {
                Some(e) => lookup(self.list(), name@) == Some(e@),
                None => lookup(self.list(), name@) is None,
            },
    {
        let (at, found): (usize, bool) = self.place_of(name);
        proof {
            use_type_invariant(self);
            if found {
                lookup_at(self.list(), at as int);
            } else {
                Self::place_tells(self.list(), name@, at as int);
            }
        }
        if found {
            Some(&self.entries[at].entry)
        } else {
            None
        }
    }

    /// Adds a collection, or replaces the one of that name.
    pub fn insert(&mut self, name: String, entry: CollectionEntry)
        ensures
            ascending(final(self).list()),
            forall|n: Seq<char>| #[trigger]
                lookup(final(self).list(), n) == (if n == name@ {
                    Some(entry@)
                } else {
                    lookup(old(self).list(), n)
                }),
    {
        proof {
            use_type_invariant(&*self);
        }
        let (at, found): (usize, bool) = self.place_of(name.as_str());
        let ghost before = self.list();
        let ghost key = name@;
        let ghost value = entry@;
        let mut taken: Collections = Collections::new();
        core::mem::swap(self, &mut taken);
        let mut entries: Vec<NamedEntry> = taken.entries;
        if found {
            entries[at] = NamedEntry { name, entry };
            proof {
                replaced(before, at as int, key, value);
                assert(entry_list(entries@) =~= before.update(at as int, (key, value)));
            }
        } else {
            entries.insert(at, NamedEntry { name, entry });
            proof {
                inserted(before, at as int, key, value);
                assert(entry_list(entries@) =~= before.insert(at as int, (key, value)));
            }
        }
        *self = Collections { entries };
    }
}

proof fn replaced(list: EntryList, at: int, name: Seq<char>, value: EntryView)
    requires
        ascending(list),
        0 <= at < list.len(),
        list[at].0 == name,
    ensures
        ascending(list.update(at, (name, value))),
        forall|n: Seq<char>| #[trigger]
            lookup(list.update(at, (name, value)), n) == (if n == name {
                Some(value)
            } else {
                lookup(list, n)
            }),
{
    let changed = list.update(at, (name, value));
    assert forall|i: int, j: int| 0 <= i < j < changed.len() implies text_less(
        #[trigger] changed[i].0,
        #[trigger] changed[j].0,
    ) by {
        assert(text_less(list[i].0, list[j].0));
    }
    assert forall|n: Seq<char>| #[trigger] lookup(changed, n) == (if n == name {
        Some(value)
    } else {
        lookup(list, n)
    }) by {
        if n == name {
            lookup_at(changed, at);
        } else if lookup(list, n) is Some {
            let i = lookup_found(list, n);
            lookup_at(list, i);
            lookup_at(changed, i);
        } else if lookup(changed, n) is Some {
            let i = lookup_found(changed, n);
            lookup_at(list, i);
        }
    }
}

proof fn inserted(list: EntryList, at: int, name: Seq<char>, value: EntryView)
    requires
        ascending(list),
        0 <= at <= list.len(),
        forall|i: int| 0 <= i < at ==> text_less((#[trigger] list[i]).0, name),
        forall|i: int| at <= i < list.len() ==> text_less(name, (#[trigger] list[i]).0),
    ensures
        ascending(list.insert(at, (name, value))),
        forall|n: Seq<char>| #[trigger]
            lookup(list.insert(at, (name, value)), n) == (if n == name {
                Some(value)
            } else {
                lookup(list, n)
            }),
{
    let changed = list.insert(at, (name, value));
    assert forall|i: int, j: int| 0 <= i < j < changed.len() implies text_less(
        #[trigger] changed[i].0,
        #[trigger] changed[j].0,
    ) by {
        let a = if i < at { list[i].0 } else if i == at { name } else { list[i - 1].0 };
        let b = if j < at { list[j].0 } else if j == at { name } else { list[j - 1].0 };
        assert(a == changed[i].0 && b == changed[j].0);
    }
    assert forall|n: Seq<char>| #[trigger] lookup(changed, n) == (if n == name {
        Some(value)
    } else {
        lookup(list, n)
    }) by {
        if n == name {
            assert(changed[at] == (name, value));
            lookup_at(changed, at);
        } else if lookup(list, n) is Some {
            let i = lookup_found(list, n);
            lookup_at(list, i);
            if i < at {
                assert(changed[i] == list[i]);
                lookup_at(changed, i);
            } else {
                assert(changed[i + 1] == list[i]);
                lookup_at(changed, i + 1);
            }
        } else if lookup(changed, n) is Some {
            let i = lookup_found(changed, n);
            assert(i != at);
            if i < at {
                assert(changed[i] == list[i]);
                lookup_at(list, i);
            } else {
                assert(changed[i] == list[i - 1]);
                lookup_at(list, i - 1);
            }
        }
    }
}

/// A list in ascending order is fixed by what each name looks up in it.
pub proof fn lookups_fix_the_list(a: EntryList, b: EntryList)
    requires
        ascending(a),
        ascending(b),
        forall|n: Seq<char>| #[trigger] lookup(a, n) == lookup(b, n),
    ensures
        a == b,
    decreases a.len(),
{
    if a.len() == 0 {
        if b.len() > 0 {
            lookup_at(b, 0);
            assert(lookup(a, b[0].0) is None);
        }
        assert(a =~= b);
    } else if b.len() == 0 {
        lookup_at(a, 0);
        assert(lookup(b, a[0].0) is None);
    } else {
        let x = a.last();
        let y = b.last();
        lookup_at(a, a.len() - 1);
        lookup_at(b, b.len() - 1);
        if x.0 != y.0 {
            text_less_total(x.0, y.0);
            if text_less(x.0, y.0) {
                assert(lookup(a, y.0) is Some);
                let i = lookup_found(a, y.0);
                if i < a.len() - 1 {
                    assert(text_less(a[i].0, x.0));
                    text_less_transitive(a[i].0, x.0, y.0);
                    text_less_irreflexive(y.0);
                }
            } else {
                assert(lookup(b, x.0) is Some);
                let i = lookup_found(b, x.0);
                if i < b.len() - 1 {
                    assert(text_less(b[i].0, y.0));
                    text_less_transitive(b[i].0, y.0, x.0);
                    text_less_irreflexive(x.0);
                }
            }
        }
        let s = a.drop_last();
        let t = b.drop_last();
        assert(lookup(a, x.0) == lookup(b, x.0));
        assert(x == y);
        assert forall|n: Seq<char>| #[trigger] lookup(s, n) == lookup(t, n) by {
            if n == x.0 {
                assert forall|i: int| 0 <= i < s.len() implies (#[trigger] s[i]).0 != n by {
                    assert(text_less(a[i].0, a[a.len() - 1].0));
                    text_less_irreflexive(n);
                }
                assert forall|i: int| 0 <= i < t.len() implies (#[trigger] t[i]).0 != n by {
                    assert(text_less(b[i].0, b[b.len() - 1].0));
                    text_less_irreflexive(n);
                }
                lookup_absent(s, n);
                lookup_absent(t, n);
            } else {
                assert(lookup(a, n) == lookup(b, n));
            }
        }
        assert(ascending(s)) by {
            assert forall|i: int, j: int| 0 <= i < j < s.len() implies text_less(
                #[trigger] s[i].0,
                #[trigger] s[j].0,
            ) by {
                assert(text_less(a[i].0, a[j].0));
            }
        }
        assert(ascending(t)) by {
            assert forall|i: int, j: int| 0 <= i < j < t.len() implies text_less(
                #[trigger] t[i].0,
                #[trigger] t[j].0,
            ) by {
                assert(text_less(b[i].0, b[j].0));
            }
        }
        lookups_fix_the_list(s, t);
        assert(a =~= s.push(x));
        assert(b =~= t.push(y));
    }
}

/// What a name looks up is what stands in the list under it, wherever it stands.
pub proof fn lookup_finds_what_is_listed(list: EntryList, name: Seq<char>, entry: EntryView)
    requires
        ascending(list),
    ensures
        lookup(list, name) == Some(entry) <==> list.contains((name, entry)),
{
    if list.contains((name, entry)) {
        let i = choose|i: int| 0 <= i < list.len() && list[i] == (name, entry);
        lookup_at(list, i);
    }
    if lookup(list, name) == Some(entry) {
        let i = lookup_found(list, name);
        lookup_at(list, i);
        assert(list[i] == (name, entry));
    }
}

} // verus!
