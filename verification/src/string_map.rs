//! A map from text to values that keeps its entries in the order in which
//! their keys first came in.
use crate::text::same_text;
use vstd::prelude::*;

verus! {

/// A map from text to values, without two entries for one key.
#[derive(Debug)]
pub struct StringMap<V> {
    entries: Vec<(String, V)>,
}

impl<V: Clone> Clone for StringMap<V> {
    fn clone(&self) -> (copy: Self)
        ensures
            copy.keys() == self.keys(),
            self.wf() ==> copy.wf(),
            copy.entries().len() == self.entries().len(),
            forall|i: int|
                0 <= i < self.entries().len() ==> (#[trigger] copy.entries()[i]).0
                    == self.entries()[i].0 && cloned(self.entries()[i].1, copy.entries()[i].1),
    {
        let mut entries: Vec<(String, V)> = Vec::new();
        for i in 0..self.entries.len()
            invariant
                entries@.len() == i,
                forall|j: int|
                    0 <= j < i ==> (#[trigger] entries@[j]).0 == self.entries@[j].0 && cloned(
                        self.entries@[j].1,
                        entries@[j].1,
                    ),
        {
            entries.push((self.entries[i].0.clone(), self.entries[i].1.clone()));
        }
        let copy = StringMap { entries };
        assert(copy.keys() =~= self.keys());
        copy
    }
}

impl<V> View for StringMap<V> {
    type V = Map<Seq<char>, V>;

    open spec fn view(&self) -> Map<Seq<char>, V> {
        Map::new(
            |key: Seq<char>| self.keys().contains(key),
            |key: Seq<char>| self.entries()[self.keys().index_of(key)].1,
        )
    }
}

impl<V> StringMap<V> {
    /// The entries, in the order in which their keys first came in.
    pub closed spec fn entries(&self) -> Seq<(String, V)> {
        self.entries@
    }

    /// The keys, in the order in which they first came in.
    pub open spec fn keys(&self) -> Seq<Seq<char>> {
        self.entries().map_values(|entry: (String, V)| entry.0@)
    }

    /// No key stands in the map twice.
    pub open spec fn wf(&self) -> bool {
        self.keys().no_duplicates()
    }

    /// The entry at a position is the map's entry for the key there.
    pub proof fn lemma_entry(&self, i: int)
        requires
            self.wf(),
            0 <= i < self.entries().len(),
        ensures
            self.keys()[i] == self.entries()[i].0@,
            self@.contains_key(self.entries()[i].0@),
            self@[self.entries()[i].0@] == self.entries()[i].1,
    {
        let key = self.entries()[i].0@;
        assert(self.keys()[i] == key);
        assert(self.keys().contains(key));
    }

    /// A key of the map has a position among the entries.
    pub proof fn lemma_key(&self, key: Seq<char>) -> (i: int)
        requires
            self.wf(),
            self@.contains_key(key),
        ensures
            0 <= i < self.entries().len(),
            self.entries()[i].0@ == key,
            self.entries()[i].1 == self@[key],
    {
        let i = self.keys().index_of(key);
        assert(self.keys()[i] == key);
        i
    }

    /// A new value in one entry changes the map at that entry's key alone.
    proof fn lemma_replaced(before: StringMap<V>, after: StringMap<V>, i: int)
        requires
            before.wf(),
            0 <= i < before.entries().len(),
            after.entries() == before.entries().update(i, after.entries()[i]),
            after.entries()[i].0@ == before.entries()[i].0@,
        ensures
            after.wf(),
            after.keys() == before.keys(),
            after@ == before@.insert(before.entries()[i].0@, after.entries()[i].1),
    {
        assert(after.keys() =~= before.keys());
        before.lemma_entry(i);
        after.lemma_entry(i);
        let key = before.entries()[i].0@;
        assert(after@ =~= before@.insert(key, after.entries()[i].1)) by {
            assert forall|other: Seq<char>| #[trigger] before@.contains_key(other) && other
                != key implies after@[other] == before@[other] by {
                let j = before.lemma_key(other);
                after.lemma_entry(j);
            }
        }
    }

    /// A new entry at the end, for a key that the map did not have.
    proof fn lemma_added(before: StringMap<V>, after: StringMap<V>, key: String, value: V)
        requires
            before.wf(),
            !before@.contains_key(key@),
            after.entries() == before.entries().push((key, value)),
        ensures
            after.wf(),
            after.keys() == before.keys().push(key@),
            after@ == before@.insert(key@, value),
    {
        assert(after.keys() =~= before.keys().push(key@));
        assert forall|i: int, j: int|
            0 <= i < after.keys().len() && 0 <= j < after.keys().len() && i
                != j implies after.keys()[i] != after.keys()[j] by {
            if i == before.keys().len() {
                assert(before.keys().contains(before.keys()[j]));
            } else if j == before.keys().len() {
                assert(before.keys().contains(before.keys()[i]));
            }
        }
        after.lemma_entry(before.entries().len() as int);
        assert forall|other: Seq<char>| #[trigger] after@.contains_key(other) implies before@.insert(
            key@,
            value,
        ).contains_key(other) && after@[other] == before@.insert(key@, value)[other] by {
            let j = after.lemma_key(other);
            if j < before.entries().len() {
                before.lemma_entry(j);
            }
        }
        assert forall|other: Seq<char>| #[trigger] before@.contains_key(other) implies after@.contains_key(other) by {
            let j = before.lemma_key(other);
            after.lemma_entry(j);
        }
        assert(after@ =~= before@.insert(key@, value));
    }

    /// A map without entries.
    pub fn new() -> (map: StringMap<V>)
        ensures
            map.wf(),
            map.entries().len() == 0,
            map@ == Map::<Seq<char>, V>::empty(),
    {
        let map = StringMap { entries: Vec::new() };
        assert(map@ =~= Map::<Seq<char>, V>::empty());
        map
    }

    /// All entries, in the order in which their keys first came in.
    pub fn as_entries(&self) -> (entries: &Vec<(String, V)>)
        ensures
            entries@ == self.entries(),
    {
        &self.entries
    }

    /// The position of the entry for `key`.
    fn position(&self, key: &str) -> (position: Option<usize>)
        requires
            self.wf(),
        ensures
            match position {
                Some(i) => i < self.entries().len() && self.entries()[i as int].0@ == key@,
                None => !self@.contains_key(key@),
            },
    {
        for i in 0..self.entries.len()
            invariant
                forall|j: int| 0 <= j < i ==> #[trigger] self.keys()[j] != key@,
        {
            if same_text(self.entries[i].0.as_str(), key) {
                return Some(i);
            }
            assert(self.keys()[i as int] != key@);
        }
        None
    }

    /// The value that the map has for `key`.
    pub fn get(&self, key: &str) -> (value: Option<&V>)
        requires
            self.wf(),
        ensures
            match value {
                Some(v) => self@.contains_key(key@) && *v == self@[key@],
                None => !self@.contains_key(key@),
            },
    {
        match self.position(key) {
            Some(i) => {
                proof {
                    self.lemma_entry(i as int);
                }
                Some(&self.entries[i].1)
            },
            None => None,
        }
    }

    /// A place to change the value that the map has for `key`.
    pub fn get_mut(&mut self, key: &str) -> (value: Option<&mut V>)
        requires
            old(self).wf(),
        ensures
            final(self).wf(),
            final(self).keys() == old(self).keys(),
            match value {
                Some(v) => {
                    &&& old(self)@.contains_key(key@)
                    &&& *v == old(self)@[key@]
                    &&& final(self)@ == old(self)@.insert(key@, *final(v))
                },
                None => !old(self)@.contains_key(key@) && *final(self) == *old(self),
            },
    {
        match self.position(key) {
            Some(i) => {
                proof {
                    self.lemma_entry(i as int);
                    assert forall|after: StringMap<V>|
                        #[trigger] after.entries() == self.entries().update(
                            i as int,
                            after.entries()[i as int],
                        ) && after.entries()[i as int].0 == self.entries()[i as int].0 implies {
                        &&& after.wf()
                        &&& after.keys() == self.keys()
                        &&& after@ == self@.insert(key@, after.entries()[i as int].1)
                    } by {
                        Self::lemma_replaced(*self, after, i as int);
                    }
                }
                Some(&mut self.entries[i].1)
            },
            None => None,
        }
    }

    /// Gives `key` the value `value`, in place of the one that it had.
    pub fn insert(&mut self, key: String, value: V)
        requires
            old(self).wf(),
        ensures
            final(self).wf(),
            final(self)@ == old(self)@.insert(key@, value),
            final(self).keys() == if old(self)@.contains_key(key@) {
                old(self).keys()
            } else {
                old(self).keys().push(key@)
            },
    {
        match self.position(key.as_str()) {
            Some(i) => {
                self.entries.set(i, (key, value));
                proof {
                    old(self).lemma_entry(i as int);
                    Self::lemma_replaced(*old(self), *self, i as int);
                }
            },
            None => {
                self.entries.push((key, value));
                proof {
                    Self::lemma_added(*old(self), *self, key, value);
                }
            },
        }
    }
}

/// A map has a value for exactly the keys of its entries, and the value is that of
/// the entry.
pub proof fn law_map_reads_its_entries<V>(map: &StringMap<V>, key: Seq<char>, i: int)
    requires
        map.wf(),
    ensures
        map@.contains_key(key) <==> exists|j: int|
            0 <= j < map.entries().len() && (#[trigger] map.entries()[j]).0@ == key,
        0 <= i < map.entries().len() && map.entries()[i].0@ == key ==> map@[key]
            == map.entries()[i].1,
        map.keys().len() == map.entries().len(),
        0 <= i < map.entries().len() ==> map.keys()[i] == map.entries()[i].0@,
{
    if map@.contains_key(key) {
        let j = map.lemma_key(key);
        assert(map.entries()[j].0@ == key);
    }
    if exists|j: int| 0 <= j < map.entries().len() && (#[trigger] map.entries()[j]).0@ == key {
        let j = choose|j: int|
            0 <= j < map.entries().len() && (#[trigger] map.entries()[j]).0@ == key;
        map.lemma_entry(j);
    }
    if 0 <= i < map.entries().len() {
        map.lemma_entry(i);
    }
}

} // verus!
