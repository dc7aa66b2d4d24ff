//! A map from names to values that keeps its entries in the order in which
//! their names were first inserted.

use crate::discovery::{lemma_names_push, lemma_names_remove, names_of, position_of};
use vstd::prelude::*;
use vstd::string::StringExecFns;

verus! {

/// A map from names to values.
pub struct NameMap<V> {
    names: Vec<String>,
    values: Vec<V>,
}

impl<V> NameMap<V> {
    /// The invariant of the type: every name has its value, and no name is
    /// held twice.
    pub closed spec fn wf(&self) -> bool {
        &&& self.names@.len() == self.values@.len()
        &&& names_of(self.names@).no_duplicates()
    }

    /// The names of the map, in the order of their first insertion.
    pub closed spec fn names(&self) -> Seq<Seq<char>> {
        names_of(self.names@)
    }

    /// The value at position `i` of the map.
    pub closed spec fn value_at(&self, i: int) -> V {
        self.values@[i]
    }

    /// The value that is held under `name`.
    pub open spec fn value_of(&self, name: Seq<char>) -> V {
        self.value_at(self.names().index_of(name))
    }

    /// The map holds no name twice, so a name is found at one position
    /// only.
    pub proof fn lemma_names_distinct(&self)
        requires
            self.wf(),
        ensures
            self.names().no_duplicates(),
            forall|i: int|
                0 <= i < self.names().len() ==> self.names().index_of(#[trigger] self.names()[i])
                    == i,
    {
        assert forall|i: int| 0 <= i < self.names().len() implies self.names().index_of(
            #[trigger] self.names()[i],
        ) == i by {
            self.names().index_of_first_ensures(self.names()[i]);
        }
    }

    /// An empty map.
    pub fn new() -> (r: Self)
        ensures
            r.wf(),
            r.names() == Seq::<Seq<char>>::empty(),
    {
        let r = Self { names: Vec::new(), values: Vec::new() };
        assert(r.names() =~= Seq::<Seq<char>>::empty());
        r
    }

    /// The number of entries.
    pub fn len(&self) -> (n: usize)
        ensures
            n == self.names().len(),
    {
        self.names.len()
    }

    /// The name at position `i`.
    pub fn name(&self, i: usize) -> (r: &String)
        requires
            i < self.names().len(),
        ensures
            r@ == self.names()[i as int],
    {
        &self.names[i]
    }

    /// The value at position `i`.
    pub fn value(&self, i: usize) -> (r: &V)
        requires
            self.wf(),
            i < self.names().len(),
        ensures
            *r == self.value_at(i as int),
    {
        &self.values[i]
    }

    /// The position of `name`, if the map holds it.
    pub fn find(&self, name: &String) -> (r: Option<usize>)
        requires
            self.wf(),
        ensures
            r is Some <==> self.names().contains(name@),
            r matches Some(i) ==> i < self.names().len() && self.names()[i as int] == name@
                && self.names().index_of(name@) == i,
    {
        let r = position_of(&self.names, name);
        proof {
            if let Some(i) = r {
                assert(self.names()[i as int] == name@);
                self.names().index_of_first_ensures(name@);
            }
        }
        r
    }

    /// The value that is held under `name`, if there is one.
    pub fn get(&self, name: &str) -> (r: Option<&V>)
        requires
            self.wf(),
        ensures
            r is Some <==> self.names().contains(name@),
            r matches Some(value) ==> *value == self.value_of(name@),
    {
        let key = String::from_str(name);
        match self.find(&key) {
            Some(i) => Some(&self.values[i]),
            None => None,
        }
    }

    /// Puts `value` under `name`. A name already held keeps its place and
    /// takes the new value; the other entries stay as they are.
    pub fn insert(&mut self, name: String, value: V)
        requires
            old(self).wf(),
        ensures
            final(self).wf(),
            final(self).names() == if old(self).names().contains(name@) {
                old(self).names()
            } else {
                old(self).names().push(name@)
            },
            final(self).value_of(name@) == value,
            forall|n: Seq<char>|
                n != name@ && old(self).names().contains(n) ==> final(self).value_of(n) == old(
                    self,
                ).value_of(n),
    {
        match position_of(&self.names, &name) {
            Some(i) => {
                self.values[i] = value;
                proof {
                    let names = names_of(self.names@);
                    assert(names[i as int] == name@);
                    names.index_of_first_ensures(name@);
                    assert(names.index_of(name@) == i);
                    assert forall|n: Seq<char>|
                        n != name@ && old(self).names().contains(n) implies self.value_of(n)
                        == old(self).value_of(n) by {
                        names.index_of_first_ensures(n);
                    }
                }
            },
            None => {
                proof {
                    lemma_names_push(self.names@, name);
                    let names = names_of(self.names@);
                    let grown = names.push(name@);
                    assert(grown[names.len() as int] == name@);
                    grown.index_of_first_ensures(name@);
                    assert(grown.index_of(name@) == names.len()) by {
                        if grown.index_of(name@) < names.len() {
                            assert(names[grown.index_of(name@)] == name@);
                        }
                    }
                    assert forall|n: Seq<char>| n != name@ && names.contains(n) implies names.index_of(
                        n,
                    ) == grown.index_of(n) by {
                        names.index_of_first_ensures(n);
                        let k = names.index_of(n);
                        assert(grown[k] == n);
                        grown.index_of_first_ensures(n);
                        let g = grown.index_of(n);
                        assert(g < names.len());
                        assert(names[g] == n);
                    }
                }
                self.names.push(name);
                self.values.push(value);
            },
        }
    }

    /// Takes the entry of `name` out of the map; an unknown name changes
    /// nothing. The other entries stay as they are.
    pub fn remove(&mut self, name: &str)
        requires
            old(self).wf(),
        ensures
            final(self).wf(),
            final(self).names() == old(self).names().remove_value(name@),
            forall|n: Seq<char>|
                n != name@ && old(self).names().contains(n) ==> final(self).value_of(n) == old(
                    self,
                ).value_of(n),
    {
        let key = String::from_str(name);
        match position_of(&self.names, &key) {
            Some(i) => {
                proof {
                    let names = names_of(self.names@);
                    lemma_names_remove(self.names@, i as int);
                    assert(names[i as int] == name@);
                    names.index_of_first_ensures(name@);
                    assert(names.index_of(name@) == i);
                    let shrunk = names.remove(i as int);
                    assert forall|n: Seq<char>| n != name@ && names.contains(n) implies self.values@[names.index_of(
                        n,
                    )] == self.values@.remove(i as int)[shrunk.index_of(n)] by {
                        names.index_of_first_ensures(n);
                        let k = names.index_of(n);
                        let j = if k < i {
                            k
                        } else {
                            k - 1
                        };
                        assert(shrunk[j] == n);
                        shrunk.index_of_first_ensures(n);
                        let g = shrunk.index_of(n);
                        let back = if g < i {
                            g
                        } else {
                            g + 1
                        };
                        assert(names[back] == n);
                    }
                }
                self.names.remove(i);
                self.values.remove(i);
            },
            None => {
                proof {
                    let names = names_of(self.names@);
                    names.index_of_first_ensures(name@);
                }
            },
        }
    }
}

} // verus!
