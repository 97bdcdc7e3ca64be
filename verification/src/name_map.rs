//! An insertion-ordered map keyed by name.
//!
//! Keys are compared by their characters. A lookup answers with the first
//! entry that carries the name, so the map needs no invariant: every value
//! of the type is a map.

use vstd::prelude::*;
use crate::text::str_eq;
use crate::views::{
    first_index, lemma_first_index_bounds, lemma_first_index_push, lemma_first_index_unique,
};

verus! {

/// One key of a [`NameMap`] with its value.
#[derive(Debug)]
pub struct Entry<V> {
    pub name: String,
    pub value: V,
}

/// A map from names to values that remembers the order of first insertion.
#[derive(Debug)]
pub struct NameMap<V> {
    pub entries: Vec<Entry<V>>,
}

impl<V: DeepView> DeepView for NameMap<V> {
    type V = Seq<(Seq<char>, V::V)>;

    /// The entries in insertion order, each as its name and the view of its
    /// value.
    open spec fn deep_view(&self) -> Seq<(Seq<char>, V::V)> {
        Seq::new(
            self.entries@.len(),
            |i: int| (self.entries@[i].name@, self.entries@[i].value.deep_view()),
        )
    }
}

impl<V> NameMap<V> {
    /// The keys in insertion order.
    pub open spec fn names(&self) -> Seq<Seq<char>> {
        Seq::new(self.entries@.len(), |i: int| self.entries@[i].name@)
    }

    /// Whether some entry carries `name`.
    pub open spec fn has(&self, name: Seq<char>) -> bool {
        first_index(self.names(), name) < self.entries@.len()
    }

    /// The entry that a lookup of `name` answers with.
    pub open spec fn slot(&self, name: Seq<char>) -> int {
        first_index(self.names(), name)
    }

    /// An empty map.
    pub fn new() -> (m: Self)
        ensures
            m.entries@.len() == 0,
            forall|name: Seq<char>| !m.has(name),
    {
        NameMap { entries: Vec::new() }
    }

    /// Number of entries.
    pub fn len(&self) -> (n: usize)
        ensures
            n == self.entries@.len(),
    {
        self.entries.len()
    }

    /// Position of the entry for `name`, if there is one.
    pub fn find(&self, name: &str) -> (r: Option<usize>)
        ensures
            match r {
                Some(i) => self.has(name@) && i == self.slot(name@),
                None => !self.has(name@),
            },
    {
        let mut i: usize = 0;
        while i < self.entries.len()
            invariant
                i <= self.entries@.len(),
                forall|j: int| 0 <= j < i ==> self.names()[j] != name@,
            decreases self.entries@.len() - i,
        {
            if str_eq(self.entries[i].name.as_str(), name) {
                proof {
                    lemma_first_index_unique(self.names(), name@, i as int);
                }
                return Some(i);
            }
            i += 1;
        }
        proof {
            lemma_first_index_unique(self.names(), name@, i as int);
        }
        None
    }

    /// Whether the map holds `name`.
    pub fn contains_key(&self, name: &str) -> (r: bool)
        ensures
            r == self.has(name@),
    {
        self.find(name).is_some()
    }

    /// The value stored under `name`, if there is one.
    pub fn get(&self, name: &str) -> (r: Option<&V>)
        ensures
            match r {
                Some(v) => self.has(name@) && *v == self.entries@[self.slot(name@)].value,
                None => !self.has(name@),
            },
    {
        match self.find(name) {
            Some(i) => Some(&self.entries[i].value),
            None => None,
        }
    }

    /// Stores `value` under `name`: an entry that already carries the name is
    /// overwritten in place, otherwise a new entry is appended.
    pub fn insert(&mut self, name: String, value: V)
        ensures
            final(self).has(name@),
            final(self).entries@[final(self).slot(name@)].value == value,
            final(self).slot(name@) == old(self).slot(name@),
            final(self).names() == if old(self).has(name@) {
                old(self).names()
            } else {
                old(self).names().push(name@)
            },
            forall|i: int|
                0 <= i < old(self).entries@.len() && i != old(self).slot(name@)
                    ==> final(self).entries@[i] == old(self).entries@[i],
    {
        match self.find(name.as_str()) {
            Some(i) => {
                self.entries[i].value = value;
                assert(self.names() =~= old(self).names());
            },
            None => {
                proof {
                    lemma_first_index_bounds(old(self).names(), name@);
                }
                self.entries.push(Entry { name, value });
                assert(self.names() =~= old(self).names().push(name@));
                proof {
                    lemma_first_index_unique(self.names(), name@, old(self).entries@.len() as int);
                }
            },
        }
    }
}

impl<V> NameMap<V> {
    /// The values in insertion order.
    pub open spec fn values(&self) -> Seq<V> {
        Seq::new(self.entries@.len(), |i: int| self.entries@[i].value)
    }

    /// Position of the entry for `name`; when there is none, one is appended
    /// with the value `fresh`.
    pub fn slot_or_insert(&mut self, name: String, fresh: V) -> (i: usize)
        ensures
            final(self).has(name@),
            i == final(self).slot(name@),
            i == old(self).slot(name@),
            old(self).has(name@) ==> final(self).entries@ == old(self).entries@,
            !old(self).has(name@) ==> final(self).entries@ == old(self).entries@.push(
                Entry { name, value: fresh },
            ),
    {
        match self.find(name.as_str()) {
            Some(i) => i,
            None => {
                proof {
                    lemma_first_index_bounds(old(self).names(), name@);
                }
                let i = self.entries.len();
                self.entries.push(Entry { name, value: fresh });
                assert(self.names() =~= old(self).names().push(name@));
                proof {
                    lemma_first_index_unique(self.names(), name@, i as int);
                }
                i
            },
        }
    }

    /// Gives up the map for its values, in insertion order.
    pub fn into_values(self) -> (out: Vec<V>)
        ensures
            out@ == self.values(),
    {
        let mut out: Vec<V> = Vec::new();
        let ghost all = self.entries@;
        for entry in it: self.entries
            invariant
                it.seq() == all,
                out@ == Seq::new(it.index() as nat, |i: int| all[i].value),
        {
            out.push(entry.value);
            assert(out@ =~= Seq::new((it.index() + 1) as nat, |i: int| all[i].value));
        }
        assert(out@ =~= self.values());
        out
    }
}

impl<T> NameMap<Vec<T>> {
    /// Appends `item` to the list stored under `name`, starting a new list
    /// when the name is not yet a key.
    pub fn push_to(&mut self, name: String, item: T)
        ensures
            final(self).has(name@),
            final(self).slot(name@) == old(self).slot(name@),
            final(self).entries@[final(self).slot(name@)].value@ == if old(self).has(name@) {
                old(self).entries@[old(self).slot(name@)].value@.push(item)
            } else {
                seq![item]
            },
            final(self).names() == if old(self).has(name@) {
                old(self).names()
            } else {
                old(self).names().push(name@)
            },
            forall|i: int|
                0 <= i < old(self).entries@.len() && i != old(self).slot(name@)
                    ==> final(self).entries@[i] == old(self).entries@[i],
    {
        match self.find(name.as_str()) {
            Some(i) => {
                self.entries[i].value.push(item);
                assert(self.names() =~= old(self).names());
            },
            None => {
                proof {
                    lemma_first_index_bounds(old(self).names(), name@);
                }
                let mut items: Vec<T> = Vec::new();
                items.push(item);
                self.entries.push(Entry { name, value: items });
                assert(self.names() =~= old(self).names().push(name@));
                proof {
                    lemma_first_index_unique(self.names(), name@, old(self).entries@.len() as int);
                }
            },
        }
    }
}


/// The text stored under `name`, if any.
pub open spec fn text_at(map: &NameMap<String>, name: Seq<char>) -> Option<Seq<char>> {
    if map.has(name) {
        Some(map.entries@[map.slot(name)].value@)
    } else {
        None
    }
}

/// Stores `value` under `name` and leaves every other name as it was.
pub fn set_text(map: &mut NameMap<String>, name: String, value: String)
    ensures
        forall|other: Seq<char>| #[trigger]
            text_at(final(map), other) == if other == name@ {
                Some(value@)
            } else {
                text_at(old(map), other)
            },
{
    let ghost before = *map;
    let ghost key = name@;
    map.insert(name, value);
    proof {
        assert forall|other: Seq<char>| #[trigger]
            text_at(map, other) == if other == key {
                Some(value@)
            } else {
                text_at(&before, other)
            } by {
            lemma_first_index_bounds(before.names(), other);
            lemma_first_index_bounds(before.names(), key);
            if other != key && !before.has(key) {
                lemma_first_index_push(before.names(), key, other);
            }
        }
    }
}

} // verus!
