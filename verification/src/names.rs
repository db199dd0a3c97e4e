//! A small map from names to values that keeps the order of first entry.

use vstd::prelude::*;

verus! {

/// A map from names to values. A name occurs once; entering a name again
/// replaces its value and keeps its place.
#[derive(Clone, Debug)]
pub struct NameMap<V> {
    entries: Vec<(String, V)>,
}

impl<V> NameMap<V> {
    /// The names, in the order in which they were first entered.
    pub closed spec fn names(&self) -> Seq<Seq<char>> {
        Seq::new(self.entries@.len(), |i: int| self.entries@[i].0@)
    }

    /// The value of each name, in the order of the names.
    pub closed spec fn values(&self) -> Seq<V> {
        Seq::new(self.entries@.len(), |i: int| self.entries@[i].1)
    }

    /// No name occurs twice.
    pub open spec fn wf(&self) -> bool {
        &&& self.names().no_duplicates()
        &&& self.names().len() == self.values().len()
    }

    /// The value of each name.
    pub open spec fn map(&self) -> Map<Seq<char>, V> {
        Map::new(
            |name: Seq<char>| self.names().contains(name),
            |name: Seq<char>| self.values()[self.names().index_of(name)],
        )
    }

    /// A map without any name.
    pub fn new() -> (r: Self)
        ensures
            r.wf(),
            r.names() == Seq::<Seq<char>>::empty(),
            r.map() == Map::<Seq<char>, V>::empty(),
    {
        let r = NameMap { entries: Vec::new() };
        assert(r.names() =~= Seq::<Seq<char>>::empty());
        assert(r.map() =~= Map::<Seq<char>, V>::empty());
        r
    }

    /// The number of names.
    pub fn len(&self) -> (r: usize)
        ensures
            r == self.names().len(),
            r == self.values().len(),
    {
        self.entries.len()
    }

    /// The name at place `i`.
    pub fn name_at(&self, i: usize) -> (r: &String)
        requires
            i < self.names().len(),
        ensures
            r@ == self.names()[i as int],
    {
        &self.entries[i].0
    }

    /// The value at place `i`.
    pub fn value_at(&self, i: usize) -> (r: &V)
        requires
            i < self.values().len(),
        ensures
            *r == self.values()[i as int],
    {
        &self.entries[i].1
    }

    /// The place of `name`, if it is in the map.
    pub fn position(&self, name: &str) -> (r: Option<usize>)
        ensures
            r is Some == self.names().contains(name@),
            r matches Some(i) ==> i < self.names().len() && self.names()[i as int] == name@,
    {
        let owned = name.to_owned();
        let mut i: usize = 0;
        while i < self.entries.len()
            invariant
                i <= self.entries@.len(),
                owned@ == name@,
                forall|j: int| 0 <= j < i ==> self.names()[j] != name@,
            decreases self.entries@.len() - i,
        {
            if self.entries[i].0 == owned {
                assert(self.names()[i as int] == name@);
                return Some(i);
            }
            i = i + 1;
        }
        None
    }

    /// The value of `name`, if it is in the map.
    pub fn get(&self, name: &str) -> (r: Option<&V>)
        requires
            self.wf(),
        ensures
            r is Some == self.map().dom().contains(name@),
            r matches Some(v) ==> *v == self.map()[name@],
    {
        match self.position(name) {
            Some(i) => {
                proof {
                    self.lemma_map_at(i as int);
                }
                Some(&self.entries[i].1)
            },
            None => None,
        }
    }

    /// Under distinct names, a place says what the map holds for its name.
    pub proof fn lemma_map_at(&self, i: int)
        requires
            self.wf(),
            0 <= i < self.names().len(),
        ensures
            self.map().dom().contains(self.names()[i]),
            self.map()[self.names()[i]] == self.values()[i],
    {
        let name = self.names()[i];
        let j = self.names().index_of(name);
        assert(self.names()[j] == name);
    }

    /// Enters `value` under `name`: in place of the value that `name` had,
    /// or after all other names if `name` is new.
    pub fn insert(&mut self, name: String, value: V)
        requires
            old(self).wf(),
        ensures
            final(self).wf(),
            final(self).map() == old(self).map().insert(name@, value),
            final(self).names() == if old(self).names().contains(name@) {
                old(self).names()
            } else {
                old(self).names().push(name@)
            },
    {
        let ghost before = *self;
        match self.position(name.as_str()) {
            Some(i) => {
                self.entries.set(i, (name, value));
                proof {
                    assert(self.names() =~= before.names());
                    assert(self.values() =~= before.values().update(i as int, value));
                    assert forall|key: Seq<char>| #[trigger]
                        self.map().dom().contains(key) implies self.map()[key]
                        == before.map().insert(name@, value)[key] by {
                        let j = self.names().index_of(key);
                        assert(self.names()[j] == key);
                    }
                    assert(self.map() =~= before.map().insert(name@, value));
                }
            },
            None => {
                self.entries.push((name, value));
                proof {
                    assert(self.names() =~= before.names().push(name@));
                    assert(self.values() =~= before.values().push(value));
                    assert forall|key: Seq<char>| #[trigger]
                        self.map().dom().contains(key) implies self.map()[key]
                        == before.map().insert(name@, value)[key] by {
                        let j = self.names().index_of(key);
                        assert(self.names()[j] == key);
                        if key != name@ {
                            let k = before.names().index_of(key);
                            assert(before.names()[j] == key);
                            assert(before.names()[k] == key);
                        }
                    }
                    assert forall|key: Seq<char>|
                        self.map().dom().contains(key) == before.map().insert(
                            name@,
                            value,
                        ).dom().contains(key) by {
                        if before.names().contains(key) {
                            let k = before.names().index_of(key);
                            assert(self.names()[k] == key);
                        }
                        if self.names().contains(key) && key != name@ {
                            let j = self.names().index_of(key);
                            assert(before.names()[j] == key);
                        }
                        if key == name@ {
                            assert(self.names()[before.names().len() as int] == key);
                        }
                    }
                    assert(self.map() =~= before.map().insert(name@, value));
                }
            },
        }
    }
}

} // verus!
