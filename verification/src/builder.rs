//! Construction of circuits from a pool of registered relays.
//!
//! A circuit is drawn hop by hop. Where more than one relay is left to choose
//! from, the choice belongs to the routing engine, which the caller runs:
//! construction then stops with a question, and goes on when the caller hands
//! the answer back. An answer is taken only if it names one of the
//! candidates that were offered, so no circuit visits a relay twice, whatever
//! the engine says.

use crate::circuit::{node_views, Circuit, CircuitError, CircuitNode, NodeView};
use crate::discovery::{lemma_names_push, names_of, position_of};
use crate::entropy::random_bytes;
use crate::identity::TaiorAddress;
use crate::modes::{ModeConfig, RoutingMode};
use crate::name_map::NameMap;
use crate::routing::{policy_for, HopQuery, Router};
use vstd::prelude::*;
use vstd::string::StringExecFns;

verus! {

/// The names of `pool` that `used` does not hold, in the pool's order.
pub open spec fn remaining(pool: Seq<Seq<char>>, used: Seq<Seq<char>>) -> Seq<Seq<char>>
    decreases pool.len(),
{
    if pool.len() == 0 {
        Seq::empty()
    } else {
        let rest = remaining(pool.drop_last(), used);
        if used.contains(pool.last()) {
            rest
        } else {
            rest.push(pool.last())
        }
    }
}

/// A name is among the remaining ones exactly when the pool holds it and
/// it has not been used; and the remaining names repeat none where the pool
/// repeats none.
pub proof fn lemma_remaining(pool: Seq<Seq<char>>, used: Seq<Seq<char>>)
    ensures
        forall|n: Seq<char>|
            #[trigger] remaining(pool, used).contains(n) <==> pool.contains(n) && !used.contains(n),
        pool.no_duplicates() ==> remaining(pool, used).no_duplicates(),
        remaining(pool, used).len() <= pool.len(),
    decreases pool.len(),
{
    if pool.len() > 0 {
        let front = pool.drop_last();
        let rest = remaining(front, used);
        lemma_remaining(front, used);
        assert forall|n: Seq<char>| #[trigger]
            remaining(pool, used).contains(n) <==> pool.contains(n) && !used.contains(n) by {
            if pool.contains(n) {
                let k = choose|k: int| 0 <= k < pool.len() && pool[k] == n;
                if k < front.len() {
                    assert(front[k] == n);
                }
            }
            if front.contains(n) {
                let k = choose|k: int| 0 <= k < front.len() && front[k] == n;
                assert(pool[k] == n);
            }
            if rest.contains(n) {
                let k = choose|k: int| 0 <= k < rest.len() && rest[k] == n;
                if !used.contains(pool.last()) {
                    assert(rest.push(pool.last())[k] == n);
                }
            }
            if remaining(pool, used).contains(n) {
                let k = choose|k: int|
                    0 <= k < remaining(pool, used).len() && remaining(pool, used)[k] == n;
                if k < rest.len() {
                    assert(rest[k] == n);
                }
            }
            if n == pool.last() {
                assert(pool[pool.len() - 1] == n);
                if !used.contains(n) {
                    assert(rest.push(pool.last())[rest.len() as int] == n);
                }
            }
        }
        if pool.no_duplicates() {
            assert(front.no_duplicates());
            if !used.contains(pool.last()) {
                assert(!front.contains(pool.last())) by {
                    if front.contains(pool.last()) {
                        let k = choose|k: int| 0 <= k < front.len() && front[k] == pool.last();
                        assert(pool[k] == pool[pool.len() - 1]);
                    }
                }
                assert(!rest.contains(pool.last()));
            }
        }
    }
}

/// A circuit under construction: the hop count aimed at, the names taken so
/// far and the relays made of them.
pub struct CircuitDraft {
    hops: usize,
    used: Vec<String>,
    nodes: Vec<CircuitNode>,
}

impl CircuitDraft {
    #[verifier::type_invariant]
    spec fn inv(&self) -> bool {
        &&& self.used@.len() == self.nodes@.len()
        &&& self.used@.len() <= self.hops
        &&& names_of(self.used@).no_duplicates()
        &&& forall|i: int| 0 <= i < self.nodes@.len() ==> (#[trigger] self.nodes@[i]).wf()
    }

    /// The number of hops that the finished circuit is to have.
    pub closed spec fn hops(&self) -> nat {
        self.hops as nat
    }

    /// The names of the relays taken so far, in the order of the path.
    pub closed spec fn used(&self) -> Seq<Seq<char>> {
        names_of(self.used@)
    }

    /// The relays taken so far, in the order of the path.
    pub closed spec fn nodes(&self) -> Seq<NodeView> {
        node_views(self.nodes@)
    }
}

/// Where the construction of a circuit stands after a step.
pub enum BuildStep {
    /// The routing engine is to choose among the candidates of the query;
    /// construction goes on with `CircuitBuilder::resume_build`.
    Ask(CircuitDraft, HopQuery),
    /// Construction has ended.
    Finished(Result<Circuit, CircuitError>),
}

/// How far construction gets without a choice by the engine.
pub enum Settled {
    /// The path is complete with these names.
    Complete(Seq<Seq<char>>),
    /// No relay is left although the path is not complete.
    Stuck,
    /// With these names taken, several relays are left to choose from.
    Open(Seq<Seq<char>>),
}

/// Takes relays while exactly one is left to take: the path is complete once
/// it has `hops` names; with no relay left construction is stuck; a single
/// relay left is taken; with more, the choice is open.
pub open spec fn settle(pool: Seq<Seq<char>>, used: Seq<Seq<char>>, hops: nat) -> Settled
    decreases hops - used.len(),
{
    if used.len() >= hops {
        Settled::Complete(used)
    } else {
        let left = remaining(pool, used);
        if left.len() == 0 {
            Settled::Stuck
        } else if left.len() == 1 {
            settle(pool, used.push(left[0]), hops)
        } else {
            Settled::Open(used)
        }
    }
}

/// Builds circuits from a pool of relays, each registered under a name.
pub struct CircuitBuilder {
    router: Router,
    pool: NameMap<TaiorAddress>,
    min_hops: usize,
    max_hops: usize,
    circuit_ttl: u64,
}

impl CircuitBuilder {
    /// The pool of relays: their addresses by name.
    pub closed spec fn pool(&self) -> NameMap<TaiorAddress> {
        self.pool
    }

    /// The invariant of the type: that of its pool.
    pub open spec fn wf(&self) -> bool {
        self.pool().wf()
    }

    /// The names of the pool, in the order of their registration.
    pub open spec fn pool_names(&self) -> Seq<Seq<char>> {
        self.pool().names()
    }

    /// The address text registered under `name`.
    pub open spec fn address_of(&self, name: Seq<char>) -> Seq<char> {
        self.pool().value_of(name)@
    }

    /// The fewest hops that a circuit may be asked to have.
    pub closed spec fn min_hops(&self) -> usize {
        self.min_hops
    }

    /// The most hops that a circuit is given.
    pub closed spec fn max_hops(&self) -> usize {
        self.max_hops
    }

    /// The time to live of the circuits built, in seconds.
    pub closed spec fn circuit_ttl(&self) -> u64 {
        self.circuit_ttl
    }

    /// A builder with an empty pool.
    pub fn new(min_hops: usize, max_hops: usize, circuit_ttl: u64) -> (r: Self)
        ensures
            r.wf(),
            r.pool_names() == Seq::<Seq<char>>::empty(),
            r.min_hops() == min_hops,
            r.max_hops() == max_hops,
            r.circuit_ttl() == circuit_ttl,
    {
        Self { router: Router::new(), pool: NameMap::new(), min_hops, max_hops, circuit_ttl }
    }

    /// Registers `address` under the name `id`. A name already registered
    /// keeps its place in the pool and takes the new address.
    pub fn add_node(&mut self, id: String, address: TaiorAddress)
        requires
            old(self).wf(),
        ensures
            final(self).wf(),
            final(self).min_hops() == old(self).min_hops(),
            final(self).max_hops() == old(self).max_hops(),
            final(self).circuit_ttl() == old(self).circuit_ttl(),
            final(self).pool_names() == if old(self).pool_names().contains(id@) {
                old(self).pool_names()
            } else {
                old(self).pool_names().push(id@)
            },
            final(self).address_of(id@) == address@,
            forall|n: Seq<char>|
                n != id@ && old(self).pool_names().contains(n) ==> final(self).address_of(n)
                    == old(self).address_of(n),
    {
        self.pool.insert(id, address);
    }

    /// Takes the relay registered under `id` out of the pool; an unknown
    /// name changes nothing.
    pub fn remove_node(&mut self, id: &str)
        requires
            old(self).wf(),
        ensures
            final(self).wf(),
            final(self).min_hops() == old(self).min_hops(),
            final(self).max_hops() == old(self).max_hops(),
            final(self).circuit_ttl() == old(self).circuit_ttl(),
            final(self).pool_names() == old(self).pool_names().remove_value(id@),
            forall|n: Seq<char>|
                n != id@ && old(self).pool_names().contains(n) ==> final(self).address_of(n)
                    == old(self).address_of(n),
    {
        self.pool.remove(id);
    }

    /// No two names of the pool are registered with the same address.
    pub open spec fn addresses_distinct(&self) -> bool {
        forall|a: Seq<char>, b: Seq<char>|
            #![trigger self.address_of(a), self.address_of(b)]
            self.pool_names().contains(a) && self.pool_names().contains(b) && a != b
                ==> self.address_of(a) != self.address_of(b)
    }

    /// A circuit that a construction begun on the empty path ends in has as
    /// many relays as were asked for, capped at the builder's maximum, and
    /// so between the builder's minimum and maximum where those are in
    /// order. Its relays were drawn from the pool under names that differ
    /// pairwise; where the pool's addresses differ pairwise, so do the
    /// relays'.
    pub proof fn lemma_built_circuit(
        &self,
        target_hops: usize,
        used: Seq<Seq<char>>,
        circuit: Circuit,
    )
        requires
            self.wf(),
            target_hops >= self.min_hops(),
            circuit.nodes@.len() == if target_hops < self.max_hops() {
                target_hops
            } else {
                self.max_hops()
            },
            self.extends(Seq::empty(), Seq::empty(), used, node_views(circuit.nodes@)),
        ensures
            self.min_hops() <= self.max_hops() ==> self.min_hops() <= circuit.nodes@.len()
                <= self.max_hops(),
            self.addresses_distinct() ==> forall|i: int, j: int|
                0 <= i < j < circuit.nodes@.len() ==> (#[trigger] circuit.nodes@[i]).address@ != (
                #[trigger] circuit.nodes@[j]).address@,
    {
        let nodes = node_views(circuit.nodes@);
        if self.addresses_distinct() {
            assert forall|i: int, j: int| 0 <= i < j < circuit.nodes@.len() implies (
            #[trigger] circuit.nodes@[i]).address@ != (#[trigger] circuit.nodes@[j]).address@ by {
                assert(nodes[i].address == self.address_of(used[i]));
                assert(nodes[j].address == self.address_of(used[j]));
                assert(used[i] != used[j]);
            }
        }
    }

    /// Whether every candidate of `query` is a name of the pool that the
    /// path of `draft` does not hold.
    pub open spec fn offers_unused(&self, draft: CircuitDraft, query: HopQuery) -> bool {
        forall|i: int|
            0 <= i < query.candidates@.len() ==> {
                &&& self.pool_names().contains(#[trigger] query.candidates@[i]@)
                &&& !draft.used().contains(query.candidates@[i]@)
            }
    }

    /// A question of the builder never offers a relay that the path already
    /// holds: whatever the engine picks among the candidates is new to the
    /// path.
    pub proof fn lemma_question_avoids_path(
        &self,
        hops: nat,
        before_used: Seq<Seq<char>>,
        before_nodes: Seq<NodeView>,
        now: u64,
        settled: Settled,
        step: BuildStep,
    )
        requires
            self.outcome(hops, before_used, before_nodes, now, settled, step),
        ensures
            step matches BuildStep::Ask(draft, query) ==> self.offers_unused(draft, query),
    {
        if let BuildStep::Ask(draft, query) = step {
            let offered = names_of(query.candidates@);
            lemma_remaining(self.pool_names(), draft.used());
            assert forall|i: int| 0 <= i < query.candidates@.len() implies {
                &&& self.pool_names().contains(#[trigger] query.candidates@[i]@)
                &&& !draft.used().contains(query.candidates@[i]@)
            } by {
                assert(offered[i] == query.candidates@[i]@);
                assert(offered.contains(query.candidates@[i]@));
            }
        }
    }

    /// The pool holds no name twice.
    pub proof fn lemma_pool_distinct(&self)
        requires
            self.wf(),
        ensures
            self.pool_names().no_duplicates(),
    {
        self.pool().lemma_names_distinct();
    }

    /// The number of relays in the pool.
    pub fn node_count(&self) -> (n: usize)
        ensures
            n == self.pool_names().len(),
    {
        self.pool.len()
    }
    /// The path `used`, with the relays `nodes`, continues the path
    /// `before_used` with the relays `before_nodes`: what was there is kept,
    /// no name occurs twice, and each relay that was added has the address
    /// registered under its name and key material of the right lengths.
    pub open spec fn extends(
        &self,
        before_used: Seq<Seq<char>>,
        before_nodes: Seq<NodeView>,
        used: Seq<Seq<char>>,
        nodes: Seq<NodeView>,
    ) -> bool {
        &&& nodes.len() == used.len()
        &&& before_nodes.len() == before_used.len()
        &&& before_nodes.len() <= nodes.len()
        &&& nodes.take(before_nodes.len() as int) == before_nodes
        &&& used.take(before_used.len() as int) == before_used
        &&& used.no_duplicates()
        &&& forall|i: int|
            before_nodes.len() <= i < nodes.len() ==> {
                &&& self.pool_names().contains(#[trigger] used[i])
                &&& nodes[i].address == self.address_of(used[i])
                &&& nodes[i].key.len() == crate::aead::KEY_LEN
                &&& nodes[i].nonce.len() == crate::aead::NONCE_LEN
            }
    }

    /// `step` is what construction comes to at the time `now` from a draft of
    /// `hops` hops with the path `before_used`, given how far it settles: a
    /// complete path ends in a circuit over it, created at `now`; a stuck
    /// one in `InsufficientNodes`; and an open one in a question that offers
    /// exactly the remaining names.
    pub open spec fn outcome(
        &self,
        hops: nat,
        before_used: Seq<Seq<char>>,
        before_nodes: Seq<NodeView>,
        now: u64,
        settled: Settled,
        step: BuildStep,
    ) -> bool {
        match settled {
            Settled::Complete(used) => {
                &&& step matches BuildStep::Finished(Ok(c))
                &&& c.wf()
                &&& c.ttl_seconds == self.circuit_ttl()
                &&& c.created_at == now
                &&& c.nodes@.len() == hops
                &&& self.extends(before_used, before_nodes, used, node_views(c.nodes@))
            },
            Settled::Stuck => {
                &&& step matches BuildStep::Finished(Err(CircuitError::InsufficientNodes(n)))
                &&& n == hops
            },
            Settled::Open(used) => {
                &&& step matches BuildStep::Ask(d, q)
                &&& d.hops() == hops
                &&& d.used() == used
                &&& used.len() < hops
                &&& self.extends(before_used, before_nodes, used, d.nodes())
                &&& names_of(q.candidates@) == remaining(self.pool_names(), used)
                &&& q.policy == policy_for((hops - used.len()) as u8)
            },
        }
    }

    /// The names of the pool that `used` does not hold, in the pool's
    /// order.
    fn candidates(&self, used: &Vec<String>) -> (r: Vec<String>)
        ensures
            names_of(r@) == remaining(self.pool_names(), names_of(used@)),
    {
        let mut out: Vec<String> = Vec::new();
        let mut i: usize = 0;
        let ghost pool = self.pool_names();
        assert(names_of(out@) =~= remaining(pool.take(0), names_of(used@)));
        while i < self.pool.len()
            invariant
                i <= pool.len(),
                pool == self.pool_names(),
                names_of(out@) == remaining(pool.take(i as int), names_of(used@)),
            decreases pool.len() - i,
        {
            let name = self.pool.name(i);
            proof {
                assert(pool.take(i + 1).drop_last() =~= pool.take(i as int));
                assert(pool.take(i + 1).last() == name@);
            }
            match position_of(used, name) {
                Some(k) => {
                    assert(names_of(used@)[k as int] == name@);
                },
                None => {
                    let copy = name.clone();
                    proof {
                        lemma_names_push(out@, copy);
                    }
                    out.push(copy);
                },
            }
            i += 1;
        }
        assert(pool.take(pool.len() as int) =~= pool);
        out
    }

    /// The draft with the relay at position `index` of the pool appended,
    /// under fresh key material.
    fn take(&self, draft: CircuitDraft, index: usize) -> (r: CircuitDraft)
        requires
            self.wf(),
            index < self.pool_names().len(),
            draft.used().len() < draft.hops(),
            !draft.used().contains(self.pool_names()[index as int]),
        ensures
            r.hops() == draft.hops(),
            r.used() == draft.used().push(self.pool_names()[index as int]),
            r.nodes().len() == draft.nodes().len() + 1,
            r.nodes().take(draft.nodes().len() as int) == draft.nodes(),
            r.nodes().last().address == self.pool().value_at(index as int)@,
            r.nodes().last().key.len() == crate::aead::KEY_LEN,
            r.nodes().last().nonce.len() == crate::aead::NONCE_LEN,
    {
        proof {
            use_type_invariant(&draft);
        }
        let ghost before = draft.nodes();
        let CircuitDraft { hops, mut used, mut nodes } = draft;
        let (shared_key, nonce) = generate_hop_keys();
        let node = CircuitNode { address: self.pool.value(index).clone(), shared_key, nonce };
        let name = self.pool.name(index).clone();
        proof {
            lemma_names_push(used@, name);
            assert(node_views(nodes@.push(node)).take(nodes@.len() as int) =~= before);
        }
        nodes.push(node);
        used.push(name);
        CircuitDraft { hops, used, nodes }
    }

    /// Takes relays for as long as exactly one is left to take.
    fn advance(&self, draft: CircuitDraft, now: u64) -> (step: BuildStep)
        requires
            self.wf(),
        ensures
            self.outcome(
                draft.hops(),
                draft.used(),
                draft.nodes(),
                now,
                settle(self.pool_names(), draft.used(), draft.hops()),
                step,
            ),
    {
        let ghost hops0 = draft.hops();
        let ghost used0 = draft.used();
        let ghost nodes0 = draft.nodes();
        let ghost pool = self.pool_names();
        let mut cur = draft;
        proof {
            use_type_invariant(&cur);
            assert(cur.nodes().take(nodes0.len() as int) =~= nodes0);
            assert(cur.used().take(used0.len() as int) =~= used0);
        }
        loop
            invariant
                self.wf(),
                pool == self.pool_names(),
                hops0 == draft.hops(),
                used0 == draft.used(),
                nodes0 == draft.nodes(),
                cur.hops() == hops0,
                settle(pool, cur.used(), hops0) == settle(pool, used0, hops0),
                self.extends(used0, nodes0, cur.used(), cur.nodes()),
            decreases hops0 - cur.used().len(),
        {
            proof {
                use_type_invariant(&cur);
            }
            let ghost used = cur.used();
            let ghost left = remaining(pool, used);
            assert(used.len() == cur.used@.len());
            if cur.used.len() >= cur.hops {
                assert(settle(pool, used, hops0) == Settled::Complete(used));
                let ghost nodes = cur.nodes();
                let id = random_bytes(16);
                let circuit = Circuit::with_id(
                    cur.nodes,
                    self.circuit_ttl,
                    crate::bytes::to_array(id.as_slice()),
                    now,
                );
                assert(circuit.wf());
                assert(node_views(circuit.nodes@) == nodes);
                assert(circuit.nodes@.len() == nodes.len());
                return BuildStep::Finished(Ok(circuit));
            }
            let available = self.candidates(&cur.used);
            proof {
                lemma_remaining(pool, used);
                assert(left.len() == available@.len());
            }
            if available.is_empty() {
                assert(settle(pool, used, hops0) == Settled::Stuck);
                return BuildStep::Finished(Err(CircuitError::InsufficientNodes(cur.hops)));
            }
            if available.len() == 1 {
                assert(names_of(available@)[0] == available@[0]@);
                assert(left[0] == available@[0]@);
                assert(left.contains(available@[0]@));
                assert(settle(pool, used, hops0) == settle(pool, used.push(left[0]), hops0));
                match self.pool.find(&available[0]) {
                    Some(index) => {
                        let ghost before = cur;
                        cur = self.take(cur, index);
                        proof {
                            use_type_invariant(&cur);
                            let used = cur.used();
                            let nodes = cur.nodes();
                            let nb = before.nodes().len() as int;
                            assert(used.take(used0.len() as int) =~= before.used().take(
                                used0.len() as int,
                            ));
                            assert(nodes.take(nodes0.len() as int) =~= nodes.take(nb).take(
                                nodes0.len() as int,
                            ));
                            assert(nodes.last().address == self.address_of(used.last()));
                            assert forall|i: int| nodes0.len() <= i < nodes.len() implies {
                                &&& self.pool_names().contains(#[trigger] used[i])
                                &&& nodes[i].address == self.address_of(used[i])
                                &&& nodes[i].key.len() == crate::aead::KEY_LEN
                                &&& nodes[i].nonce.len() == crate::aead::NONCE_LEN
                            } by {
                                if i < nb {
                                    assert(nodes[i] == nodes.take(nb)[i]);
                                    assert(used[i] == before.used()[i]);
                                } else {
                                    assert(nodes[i] == nodes.last());
                                    assert(used[i] == used.last());
                                }
                            }
                        }
                    },
                    None => {
                        return vstd::pervasive::unreached();
                    },
                }
            } else {
                let config = ModeConfig {
                    mode: RoutingMode::Adaptive,
                    hops: #[verifier::truncate]
                    ((cur.hops - cur.used.len()) as u8),
                    cover_traffic: false,
                    jitter_ms: None,
                    padding_size: 0,
                };
                assert(settle(pool, used, hops0) == Settled::Open(used));
                match self.router.plan_next_hop(available, &config) {
                    Some(query) => {
                        assert(names_of(query.candidates@) == left);
                        return BuildStep::Ask(cur, query);
                    },
                    None => {
                        return vstd::pervasive::unreached();
                    },
                }
            }
        }
    }

    /// Begins the construction of a circuit of `target_hops` hops, capped at
    /// the builder's maximum, by the clock's present reading.
    ///
    /// Whatever the clock reads, the step is the one that `start_build_at`
    /// gives for that reading.
    pub fn start_build(&self, target_hops: usize) -> (step: BuildStep)
        requires
            self.wf(),
        ensures
            exists|now: u64| #[trigger] self.started(target_hops, now, step),
            target_hops > self.pool_names().len() && (target_hops < self.min_hops()
                || self.max_hops() > self.pool_names().len()) ==> step matches BuildStep::Finished(
                Err(CircuitError::InsufficientNodes(_)),
            ),
            step matches BuildStep::Ask(draft, query) ==> self.offers_unused(draft, query),
    {
        let now = crate::clock::now_secs();
        self.start_build_at(target_hops, now)
    }

    /// What `start_build_at` returns: `InsufficientNodes` for a target below
    /// the builder's minimum and for a pool smaller than the capped count;
    /// otherwise the outcome of the empty path.
    pub open spec fn started(&self, target_hops: usize, now: u64, step: BuildStep) -> bool {
        if target_hops < self.min_hops() {
            step matches BuildStep::Finished(Err(CircuitError::InsufficientNodes(n))) && n
                == self.min_hops()
        } else {
            let hops = if target_hops < self.max_hops() {
                target_hops
            } else {
                self.max_hops()
            };
            if self.pool_names().len() < hops {
                step matches BuildStep::Finished(Err(CircuitError::InsufficientNodes(n))) && n
                    == hops
            } else {
                self.outcome(
                    hops as nat,
                    Seq::empty(),
                    Seq::empty(),
                    now,
                    settle(self.pool_names(), Seq::empty(), hops as nat),
                    step,
                )
            }
        }
    }

    /// Begins the construction of a circuit of `target_hops` hops, capped at
    /// the builder's maximum, at the time `now`, in seconds.
    ///
    /// Fails with `InsufficientNodes` for a target below the builder's
    /// minimum and for a pool smaller than the capped count. Otherwise
    /// relays are taken for as long as there is no choice. A target beyond
    /// the pool always fails, unless the builder's maximum caps it to a
    /// count that the pool can supply.
    pub fn start_build_at(&self, target_hops: usize, now: u64) -> (step: BuildStep)
        requires
            self.wf(),
        ensures
            self.started(target_hops, now, step),
            target_hops > self.pool_names().len() && (target_hops < self.min_hops()
                || self.max_hops() > self.pool_names().len()) ==> step matches BuildStep::Finished(
                Err(CircuitError::InsufficientNodes(_)),
            ),
            step matches BuildStep::Ask(draft, query) ==> self.offers_unused(draft, query),
    {
        if target_hops < self.min_hops {
            return BuildStep::Finished(Err(CircuitError::InsufficientNodes(self.min_hops)));
        }
        let hops = if target_hops < self.max_hops {
            target_hops
        } else {
            self.max_hops
        };
        if self.pool.len() < hops {
            return BuildStep::Finished(Err(CircuitError::InsufficientNodes(hops)));
        }
        let draft = CircuitDraft { hops, used: Vec::new(), nodes: Vec::new() };
        assert(draft.used() =~= Seq::<Seq<char>>::empty());
        assert(draft.nodes() =~= Seq::<NodeView>::empty());
        let step = self.advance(draft, now);
        proof {
            self.lemma_question_avoids_path(
                hops as nat,
                Seq::empty(),
                Seq::empty(),
                now,
                settle(self.pool_names(), Seq::empty(), hops as nat),
                step,
            );
        }
        step
    }

    /// Goes on with a construction that stopped with a question, given the
    /// engine's answer, by the clock's present reading.
    ///
    /// Whatever the clock reads, the step is the one that `resume_build_at`
    /// gives for that reading.
    pub fn resume_build(&self, draft: CircuitDraft, answer: Option<String>) -> (step: BuildStep)
        requires
            self.wf(),
        ensures
            exists|now: u64| #[trigger] self.resumed(draft, answer, now, step),
            answer matches Some(name) && draft.used().contains(name@)
                ==> step matches BuildStep::Finished(Err(CircuitError::InsufficientNodes(_))),
            step matches BuildStep::Ask(next, query) ==> self.offers_unused(next, query),
    {
        let now = crate::clock::now_secs();
        self.resume_build_at(draft, answer, now)
    }

    /// What `resume_build_at` returns: for an answer that is one of the
    /// remaining names, the outcome of the path with that name appended;
    /// for none, or any other, `InsufficientNodes`.
    pub open spec fn resumed(
        &self,
        draft: CircuitDraft,
        answer: Option<String>,
        now: u64,
        step: BuildStep,
    ) -> bool {
        match answer {
            Some(name) if draft.used().len() < draft.hops() && remaining(
                self.pool_names(),
                draft.used(),
            ).contains(name@) => self.outcome(
                draft.hops(),
                draft.used(),
                draft.nodes(),
                now,
                settle(self.pool_names(), draft.used().push(name@), draft.hops()),
                step,
            ),
            _ => step matches BuildStep::Finished(Err(CircuitError::InsufficientNodes(n))) && n
                == draft.hops(),
        }
    }

    /// Goes on with a construction that stopped with a question, given the
    /// engine's answer, at the time `now`, in seconds.
    ///
    /// No answer, or an answer that is not one of the remaining names (a
    /// name that the path already holds, or one unknown to the pool), ends
    /// the construction with `InsufficientNodes`. Otherwise the relay is
    /// taken, and further relays are taken for as long as there is no
    /// choice.
    pub fn resume_build_at(&self, draft: CircuitDraft, answer: Option<String>, now: u64) -> (step:
        BuildStep)
        requires
            self.wf(),
        ensures
            self.resumed(draft, answer, now, step),
            answer matches Some(name) && draft.used().contains(name@)
                ==> step matches BuildStep::Finished(Err(CircuitError::InsufficientNodes(_))),
            step matches BuildStep::Ask(next, query) ==> self.offers_unused(next, query),
    {
        proof {
            use_type_invariant(&draft);
            lemma_remaining(self.pool_names(), draft.used());
        }
        let ghost pool = self.pool_names();
        let name = match answer {
            Some(name) => name,
            None => {
                return BuildStep::Finished(Err(CircuitError::InsufficientNodes(draft.hops)));
            },
        };
        if draft.used.len() >= draft.hops {
            return BuildStep::Finished(Err(CircuitError::InsufficientNodes(draft.hops)));
        }
        let index = match self.pool.find(&name) {
            Some(index) => index,
            None => {
                return BuildStep::Finished(Err(CircuitError::InsufficientNodes(draft.hops)));
            },
        };
        match position_of(&draft.used, &name) {
            Some(k) => {
                assert(draft.used()[k as int] == name@);
                return BuildStep::Finished(Err(CircuitError::InsufficientNodes(draft.hops)));
            },
            None => {},
        }
        let ghost before = draft;
        let next = self.take(draft, index);
        let ghost taken = next;
        let step = self.advance(next, now);
        proof {
            assert(taken.used().take(before.used().len() as int) =~= before.used());
            assert(taken.used().last() == name@);
            self.lemma_outcome_continues(before, taken, now, step);
            self.lemma_question_avoids_path(
                before.hops(),
                before.used(),
                before.nodes(),
                now,
                settle(self.pool_names(), taken.used(), taken.hops()),
                step,
            );
        }
        step
    }

    /// An outcome that continues a draft which itself continued another by
    /// one relay of the pool continues the first.
    proof fn lemma_outcome_continues(
        &self,
        before: CircuitDraft,
        taken: CircuitDraft,
        now: u64,
        step: BuildStep,
    )
        requires
            self.wf(),
            taken.hops() == before.hops(),
            taken.used().len() == before.used().len() + 1,
            taken.used().take(before.used().len() as int) == before.used(),
            taken.nodes().len() == before.nodes().len() + 1,
            before.nodes().len() == before.used().len(),
            taken.nodes().take(before.nodes().len() as int) == before.nodes(),
            self.pool_names().contains(taken.used().last()),
            taken.nodes().last().address == self.address_of(taken.used().last()),
            taken.nodes().last().key.len() == crate::aead::KEY_LEN,
            taken.nodes().last().nonce.len() == crate::aead::NONCE_LEN,
            self.outcome(
                taken.hops(),
                taken.used(),
                taken.nodes(),
                now,
                settle(self.pool_names(), taken.used(), taken.hops()),
                step,
            ),
        ensures
            self.outcome(
                before.hops(),
                before.used(),
                before.nodes(),
                now,
                settle(self.pool_names(), taken.used(), taken.hops()),
                step,
            ),
    {
        let settled = settle(self.pool_names(), taken.used(), taken.hops());
        let n0 = before.nodes().len() as int;
        match settled {
            Settled::Complete(used) => {
                let c = step->Finished_0->Ok_0;
                let nodes = node_views(c.nodes@);
                self.lemma_extends_chain(before, taken, used, nodes);
            },
            Settled::Stuck => {},
            Settled::Open(used) => {
                let d = step->Ask_0;
                self.lemma_extends_chain(before, taken, used, d.nodes());
            },
        }
    }

    proof fn lemma_extends_chain(
        &self,
        before: CircuitDraft,
        taken: CircuitDraft,
        used: Seq<Seq<char>>,
        nodes: Seq<NodeView>,
    )
        requires
            taken.used().len() == before.used().len() + 1,
            taken.used().take(before.used().len() as int) == before.used(),
            taken.nodes().len() == before.nodes().len() + 1,
            before.nodes().len() == before.used().len(),
            taken.nodes().take(before.nodes().len() as int) == before.nodes(),
            self.pool_names().contains(taken.used().last()),
            taken.nodes().last().address == self.address_of(taken.used().last()),
            taken.nodes().last().key.len() == crate::aead::KEY_LEN,
            taken.nodes().last().nonce.len() == crate::aead::NONCE_LEN,
            self.extends(taken.used(), taken.nodes(), used, nodes),
        ensures
            self.extends(before.used(), before.nodes(), used, nodes),
    {
        let n0 = before.nodes().len() as int;
        assert(nodes.take(n0) =~= nodes.take(n0 + 1).take(n0));
        assert(used.take(n0) =~= used.take(n0 + 1).take(n0));
        assert(nodes.take(n0 + 1)[n0] == taken.nodes().last());
        assert(used.take(n0 + 1)[n0] == taken.used().last());
    }
}

/// Fresh key material for one hop: a key of 32 bytes and a nonce of 12.
fn generate_hop_keys() -> (r: (Vec<u8>, Vec<u8>))
    ensures
        r.0@.len() == crate::aead::KEY_LEN,
        r.1@.len() == crate::aead::NONCE_LEN,
{
    let key = random_bytes(crate::aead::KEY_LEN);
    let nonce = random_bytes(crate::aead::NONCE_LEN);
    (key, nonce)
}

} // verus!
