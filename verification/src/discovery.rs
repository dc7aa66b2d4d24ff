//! The set of neighbors that a session knows of.

use vstd::prelude::*;
use vstd::string::StringExecFns;

verus! {

/// The names that a list of strings holds, in the list's order.
pub open spec fn names_of(v: Seq<String>) -> Seq<Seq<char>> {
    Seq::new(v.len(), |i: int| v[i]@)
}

/// Where `name` stands in `v`, if it does.
pub fn position_of(v: &Vec<String>, name: &String) -> (r: Option<usize>)
    ensures
        match r {
            Some(i) => i < v@.len() && v@[i as int]@ == name@,
            None => !names_of(v@).contains(name@),
        },
{
    let mut i: usize = 0;
    while i < v.len()
        invariant
            i <= v@.len(),
            forall|k: int| 0 <= k < i ==> v@[k]@ != name@,
        decreases v@.len() - i,
    {
        if v[i] == *name {
            return Some(i);
        }
        i += 1;
    }
    None
}

/// A copy of a list of names.
pub fn clone_names(v: &Vec<String>) -> (r: Vec<String>)
    ensures
        r@ == v@,
{
    let mut out: Vec<String> = Vec::with_capacity(v.len());
    let mut i: usize = 0;
    while i < v.len()
        invariant
            i <= v@.len(),
            out@ == v@.subrange(0, i as int),
        decreases v@.len() - i,
    {
        out.push(v[i].clone());
        i += 1;
    }
    assert(v@.subrange(0, v@.len() as int) == v@);
    out
}

/// Appending a name to a list adds it to the set of the list's names.
pub proof fn lemma_names_push(v: Seq<String>, s: String)
    ensures
        names_of(v.push(s)) == names_of(v).push(s@),
        names_of(v.push(s)).to_set() == names_of(v).to_set().insert(s@),
{
    assert(names_of(v.push(s)) =~= names_of(v).push(s@));
    let a = names_of(v).push(s@);
    assert forall|x: Seq<char>| a.to_set().contains(x) <==> names_of(v).to_set().insert(
        s@,
    ).contains(x) by {
        if a.contains(x) {
            let k = choose|k: int| 0 <= k < a.len() && a[k] == x;
            if k < names_of(v).len() {
                assert(names_of(v)[k] == x);
            }
        }
        if names_of(v).contains(x) {
            let k = choose|k: int| 0 <= k < names_of(v).len() && names_of(v)[k] == x;
            assert(a[k] == x);
        }
        if x == s@ {
            assert(a[a.len() - 1] == x);
        }
    }
    assert(a.to_set() =~= names_of(v).to_set().insert(s@));
}

/// Taking one name out of a list without repeats takes it out of the set of
/// the list's names, and leaves a list without repeats.
pub proof fn lemma_names_remove(v: Seq<String>, i: int)
    requires
        0 <= i < v.len(),
        names_of(v).no_duplicates(),
    ensures
        names_of(v.remove(i)) == names_of(v).remove(i),
        names_of(v.remove(i)).no_duplicates(),
        names_of(v.remove(i)).to_set() == names_of(v).to_set().remove(v[i]@),
{
    let a = names_of(v);
    let b = names_of(v.remove(i));
    assert(b =~= a.remove(i));
    assert forall|x: Seq<char>| b.to_set().contains(x) <==> a.to_set().remove(v[i]@).contains(
        x,
    ) by {
        assert(a[i] == v[i]@);
        if b.contains(x) {
            let k = choose|k: int| 0 <= k < b.len() && b[k] == x;
            let j = if k < i {
                k
            } else {
                k + 1
            };
            assert(a[j] == x && j != i);
            assert(a.contains(x));
            assert(x != v[i]@);
        }
        if a.contains(x) && x != v[i]@ {
            let k = choose|k: int| 0 <= k < a.len() && a[k] == x;
            if k < i {
                assert(b[k] == x);
            } else {
                assert(b[k - 1] == x);
            }
        }
    }
    assert(b.to_set() =~= a.to_set().remove(v[i]@));
}

/// The neighbors that a session has learnt of: a set of names.
pub struct NodeDiscovery {
    known_nodes: Vec<String>,
}

impl View for NodeDiscovery {
    type V = Set<Seq<char>>;

    closed spec fn view(&self) -> Set<Seq<char>> {
        names_of(self.known_nodes@).to_set()
    }
}

impl NodeDiscovery {
    /// The invariant of the type: no name is held twice.
    pub closed spec fn wf(&self) -> bool {
        names_of(self.known_nodes@).no_duplicates()
    }

    pub fn new() -> (r: Self)
        ensures
            r.wf(),
            r@ == Set::<Seq<char>>::empty(),
    {
        let r = Self { known_nodes: Vec::new() };
        assert(r@ =~= Set::<Seq<char>>::empty());
        r
    }

    /// The set of the names in `bootstrap`.
    pub fn with_bootstrap(bootstrap: Vec<String>) -> (r: Self)
        ensures
            r.wf(),
            r@ == names_of(bootstrap@).to_set(),
    {
        let mut discovery = Self::new();
        let mut i: usize = 0;
        assert(names_of(bootstrap@.take(0)).to_set() =~= Set::<Seq<char>>::empty());
        while i < bootstrap.len()
            invariant
                i <= bootstrap@.len(),
                discovery.wf(),
                discovery@ == names_of(bootstrap@.take(i as int)).to_set(),
            decreases bootstrap@.len() - i,
        {
            proof {
                lemma_names_push(bootstrap@.take(i as int), bootstrap@[i as int]);
                assert(bootstrap@.take(i as int).push(bootstrap@[i as int]) =~= bootstrap@.take(
                    i + 1,
                ));
            }
            discovery.add_node(bootstrap[i].clone());
            i += 1;
        }
        assert(bootstrap@.take(bootstrap@.len() as int) =~= bootstrap@);
        discovery
    }

    /// Adds `node` to the set; a name already known changes nothing.
    pub fn add_node(&mut self, node: String)
        requires
            old(self).wf(),
        ensures
            final(self).wf(),
            final(self)@ == old(self)@.insert(node@),
    {
        match position_of(&self.known_nodes, &node) {
            Some(i) => {
                assert(names_of(self.known_nodes@)[i as int] == node@);
                assert(self@ =~= self@.insert(node@));
            },
            None => {
                proof {
                    lemma_names_push(self.known_nodes@, node);
                }
                self.known_nodes.push(node);
            },
        }
    }

    /// The names of the set, each once, in no particular order.
    pub fn get_neighbors(&self) -> (r: Vec<String>)
        requires
            self.wf(),
        ensures
            names_of(r@).to_set() == self@,
            names_of(r@).no_duplicates(),
            r@.len() == self@.len(),
    {
        proof {
            names_of(self.known_nodes@).unique_seq_to_set();
        }
        clone_names(&self.known_nodes)
    }

    /// Takes `node` out of the set; an unknown name changes nothing.
    pub fn remove_node(&mut self, node: &str)
        requires
            old(self).wf(),
        ensures
            final(self).wf(),
            final(self)@ == old(self)@.remove(node@),
    {
        let name = String::from_str(node);
        match position_of(&self.known_nodes, &name) {
            Some(i) => {
                proof {
                    lemma_names_remove(self.known_nodes@, i as int);
                }
                self.known_nodes.remove(i);
            },
            None => {
                assert(self@ =~= self@.remove(node@));
            },
        }
    }

    /// The number of names in the set.
    pub fn count(&self) -> (n: usize)
        requires
            self.wf(),
        ensures
            n == self@.len(),
            self@.finite(),
    {
        proof {
            names_of(self.known_nodes@).unique_seq_to_set();
        }
        self.known_nodes.len()
    }
}

impl Default for NodeDiscovery {
    fn default() -> (r: Self)
        ensures
            r.wf(),
            r@ == Set::<Seq<char>>::empty(),
    {
        Self::new()
    }
}

} // verus!
