//! The session: one ephemeral identity, its neighbors, and the sending of
//! packets over a circuit that is built when it is needed.
//!
//! Sending is a short dialogue with the caller, because the routing engine
//! that chooses among several relays is run by the caller. `begin_send`
//! starts a send and `resume_send` continues it; each returns either a
//! question for the engine or the end of the send.

use crate::aead::TAG_LEN;
use crate::builder::{BuildStep, CircuitBuilder, CircuitDraft};
use crate::circuit::{onion_peel, onion_wrap, Circuit, CircuitError, Layer, OnionEncryptor};
use crate::clock::now_secs;
use crate::cover::CoverTrafficGenerator;
use crate::discovery::{names_of, NodeDiscovery};
use crate::identity::{is_address_text, EphemeralIdentity, TaiorAddress};
use crate::modes::{ModeConfig, RoutingMode};
use crate::packet::{carries, padded_len, TaiorPacket};
use crate::routing::{policy_for, HopQuery, Router};
use vstd::prelude::*;
use vstd::string::StringExecFns;

pub use crate::modes::RoutingMode as Mode;

verus! {

/// The fewest hops of a session's circuits.
pub const SESSION_MIN_HOPS: usize = 1;

/// The most hops of a session's circuits.
pub const SESSION_MAX_HOPS: usize = 5;

/// The time to live of a session's circuits, in seconds.
pub const SESSION_CIRCUIT_TTL: u64 = 600;

/// How one packet is to be sent.
#[derive(Debug, Clone, Copy)]
pub struct SendOptions {
    pub mode: RoutingMode,
    /// The hop count, where it is to differ from the mode's own.
    pub hops: Option<u8>,
}

impl SendOptions {
    pub fn fast() -> (r: Self)
        ensures
            r == (SendOptions { mode: RoutingMode::Fast, hops: Some(1u8) }),
    {
        Self { mode: RoutingMode::Fast, hops: Some(1) }
    }

    pub fn mix() -> (r: Self)
        ensures
            r == (SendOptions { mode: RoutingMode::Mix, hops: Some(4u8) }),
    {
        Self { mode: RoutingMode::Mix, hops: Some(4) }
    }

    pub fn adaptive() -> (r: Self)
        ensures
            r == (SendOptions { mode: RoutingMode::Adaptive, hops: Some(2u8) }),
    {
        Self { mode: RoutingMode::Adaptive, hops: Some(2) }
    }

    pub fn custom(mode: RoutingMode, hops: u8) -> (r: Self)
        ensures
            r == (SendOptions { mode, hops: Some(hops) }),
    {
        Self { mode, hops: Some(hops) }
    }

    /// The configuration that the options resolve to: the mode's defaults,
    /// with the hop count replaced where one is given.
    pub open spec fn resolved(&self) -> ModeConfig {
        match self.hops {
            Some(hops) => ModeConfig { hops, ..ModeConfig::defaults(self.mode) },
            None => ModeConfig::defaults(self.mode),
        }
    }

    /// The configuration that the options resolve to.
    pub fn resolve(&self) -> (r: ModeConfig)
        ensures
            r == self.resolved(),
    {
        let config = match self.mode {
            RoutingMode::Fast => ModeConfig::fast(),
            RoutingMode::Mix => ModeConfig::mix(),
            RoutingMode::Adaptive => ModeConfig::adaptive(),
        };
        match self.hops {
            Some(hops) => config.with_hops(hops),
            None => config,
        }
    }
}

impl Default for SendOptions {
    fn default() -> (r: Self)
        ensures
            r == (SendOptions { mode: RoutingMode::Adaptive, hops: Some(2u8) }),
    {
        Self::adaptive()
    }
}

/// Why a send came to nothing.
#[derive(Debug)]
pub enum SendError {
    /// The packet, or a layer of the onion, could not be sealed.
    EncryptError(String),
    /// The circuit could not be built, for another reason than a pool that
    /// is too small, or could not be used.
    CircuitBuildError(CircuitError),
    /// The session knows of no neighbor and has no circuit.
    NoNeighbors,
}

impl SendError {
    /// The message of the error.
    pub open spec fn message_text(&self) -> Seq<char> {
        match self {
            SendError::EncryptError(text) => text@,
            SendError::CircuitBuildError(cause) => "Circuit build failed: "@ + cause.message_text(),
            SendError::NoNeighbors => "No neighbors and no circuit"@,
        }
    }

    /// The message of the error.
    pub fn message(&self) -> (s: String)
        ensures
            s@ == self.message_text(),
    {
        match self {
            SendError::EncryptError(text) => text.clone(),
            SendError::CircuitBuildError(cause) => {
                let inner = cause.message();
                String::from_str("Circuit build failed: ").concat(inner.as_str())
            },
            SendError::NoNeighbors => String::from_str("No neighbors and no circuit"),
        }
    }
}

/// Where a send stands while it waits for the routing engine.
pub enum SendStage {
    /// The engine is asked for the next hop among the neighbors. Its answer
    /// is advisory: the circuit is drawn on its own.
    Advisory,
    /// A circuit is under construction.
    Building(CircuitDraft),
}

/// A send that waits for an answer of the routing engine.
pub struct PendingSend {
    data: Vec<u8>,
    config: ModeConfig,
    stage: SendStage,
}

impl PendingSend {
    #[verifier::type_invariant]
    spec fn inv(&self) -> bool {
        &&& 0 < self.config.padding_size <= 512
        &&& self.stage matches SendStage::Building(draft) ==> draft.hops() <= SESSION_MAX_HOPS
    }

    /// The payload that is being sent.
    pub closed spec fn data(&self) -> Seq<u8> {
        self.data@
    }

    /// The configuration of the send.
    pub closed spec fn config(&self) -> ModeConfig {
        self.config
    }

    /// Where the send stands.
    pub closed spec fn stage(&self) -> SendStage {
        self.stage
    }
}

/// What a step of a send comes to.
pub enum SendStep {
    /// The routing engine is to answer the query; the send goes on with
    /// `Taior::resume_send`.
    Ask(PendingSend, HopQuery),
    /// The send has ended.
    Done(Result<TaiorPacket, SendError>),
}

/// A session.
pub struct Taior {
    identity: EphemeralIdentity,
    router: Router,
    discovery: NodeDiscovery,
    cover_generator: CoverTrafficGenerator,
    active_circuit: Option<Circuit>,
    /// How many messages were sent over the circuit in use.
    messages_sent: u64,
    circuit_builder: CircuitBuilder,
}

impl Taior {
    /// The invariant of the type: the pool of relays holds exactly the
    /// neighbors, circuits have between one and five hops and live for 600
    /// seconds, the circuit in use, if any, is well formed, and without a
    /// circuit no message counts as sent over one.
    pub open spec fn wf(&self) -> bool {
        &&& self.discovery().wf()
        &&& self.builder().wf()
        &&& self.builder().pool_names().to_set() == self.neighbors()
        &&& self.builder().min_hops() == SESSION_MIN_HOPS
        &&& self.builder().max_hops() == SESSION_MAX_HOPS
        &&& self.builder().circuit_ttl() == SESSION_CIRCUIT_TTL
        &&& is_address_text(self.address_text())
        &&& self.circuit() matches Some(c) ==> c.wf() && c.nodes@.len() <= SESSION_MAX_HOPS
        &&& self.circuit() is None ==> self.messages_sent() == 0
    }

    /// The session's own address.
    pub closed spec fn address_text(&self) -> Seq<char> {
        self.identity.address@
    }

    /// What the session has learnt of its neighbors.
    pub closed spec fn discovery(&self) -> NodeDiscovery {
        self.discovery
    }

    /// The names of the neighbors.
    pub open spec fn neighbors(&self) -> Set<Seq<char>> {
        self.discovery()@
    }

    /// The builder of the session's circuits, with its pool.
    pub closed spec fn builder(&self) -> CircuitBuilder {
        self.circuit_builder
    }

    /// The circuit in use, if there is one.
    pub closed spec fn circuit(&self) -> Option<Circuit> {
        self.active_circuit
    }

    /// How many messages were sent over the circuit in use.
    pub closed spec fn messages_sent(&self) -> u64 {
        self.messages_sent
    }

    /// The generator of the session's decoys.
    pub closed spec fn cover(&self) -> CoverTrafficGenerator {
        self.cover_generator
    }

    /// The layers of the message that was sent last over the circuit in
    /// use, head first; none without a circuit.
    pub open spec fn layers(&self) -> Seq<Layer> {
        match self.circuit() {
            Some(c) if self.messages_sent() > 0 => c.layers_for(
                (self.messages_sent() - 1) as u64,
            ),
            _ => Seq::empty(),
        }
    }

    /// Whether the circuit in use serves one more message at the time
    /// `now`: there is one, it has not expired, and its message numbers are
    /// not used up.
    pub open spec fn circuit_serves(&self, now: u64) -> bool {
        &&& self.circuit() matches Some(c)
        &&& !c.expired_at(now as int)
        &&& self.messages_sent() < u64::MAX
    }

    /// Everything but the circuit in use is the same in both sessions.
    pub open spec fn same_but_circuit(&self, other: Taior) -> bool {
        &&& self.address_text() == other.address_text()
        &&& self.neighbors() == other.neighbors()
        &&& self.builder() == other.builder()
        &&& self.cover() == other.cover()
    }

    /// `r` ends a send of `data` under `config` in this session.
    ///
    /// A session with neither a neighbor nor a circuit fails with
    /// `NoNeighbors`; every other send succeeds. The packet that comes back
    /// has the hop count as its time to live and is not marked as cover. Its
    /// payload is the onion, over the layers that the circuit in use has for
    /// this message, of some padding of `data` sealed under the packet's own
    /// keying material; so peeling the layers, and then opening with that
    /// material, recovers the padded data. Its length is the padded length
    /// and one tag for the packet and for each layer.
    pub open spec fn completes(&self, r: Result<TaiorPacket, SendError>, data: Seq<u8>, config:
        ModeConfig) -> bool {
        &&& r is Ok <==> !(self.circuit() is None && self.neighbors().len() == 0)
        &&& match r {
            Ok(p) => {
                &&& p.ttl == config.hops
                &&& !p.is_cover
                &&& p.encrypted_payload@.len() == padded_len(data.len(), config.padding_size as nat)
                    + TAG_LEN * (1 + self.layers().len())
                &&& exists|base: Seq<u8>| #[trigger]
                    carries(p.ikm@, base, data, config.padding_size as nat) && p.encrypted_payload@
                        == onion_wrap(self.layers(), base) && onion_peel(
                        self.layers(),
                        p.encrypted_payload@,
                    ) == Some(base)
            },
            Err(e) => e is NoNeighbors,
        }
    }

    /// `step` is what a send of `data` under `config` comes to in the
    /// session `after`, once the construction of a circuit has come to
    /// `build`: a question of the builder is passed on, with the circuit in
    /// use left as it was; a finished circuit is put to use, for its first
    /// message, and a pool that is too small leaves the session without one,
    /// and in both cases the send is completed.
    pub open spec fn after_build(
        &self,
        after: Taior,
        build: BuildStep,
        data: Seq<u8>,
        config: ModeConfig,
        step: SendStep,
    ) -> bool {
        match build {
            BuildStep::Ask(draft, query) => {
                &&& step matches SendStep::Ask(pending, asked)
                &&& asked == query
                &&& pending.stage() == SendStage::Building(draft)
                &&& pending.data() == data
                &&& pending.config() == config
                &&& after.circuit() == self.circuit()
                &&& after.messages_sent() == self.messages_sent()
            },
            BuildStep::Finished(Ok(circuit)) => {
                &&& after.circuit() == Some(circuit)
                &&& after.messages_sent() == 1
                &&& step matches SendStep::Done(r)
                &&& after.completes(r, data, config)
            },
            BuildStep::Finished(Err(CircuitError::InsufficientNodes(_))) => {
                &&& after.circuit() is None
                &&& after.messages_sent() == 0
                &&& step matches SendStep::Done(r)
                &&& after.completes(r, data, config)
            },
            BuildStep::Finished(Err(e)) => {
                &&& after.circuit() == self.circuit()
                &&& after.messages_sent() == self.messages_sent()
                &&& step matches SendStep::Done(Err(SendError::CircuitBuildError(cause)))
                &&& cause == e
            },
        }
    }

    /// `step` is what a send of `data` under `config` comes to at the time
    /// `now`, once the advisory question is settled: a circuit that serves
    /// one more message is kept and the send completed over it, under the
    /// next message number; otherwise a circuit of `config.hops` hops is
    /// begun, and the send goes on as `after_build` says.
    pub open spec fn proceeds(
        &self,
        after: Taior,
        data: Seq<u8>,
        config: ModeConfig,
        now: u64,
        step: SendStep,
    ) -> bool {
        if self.circuit_serves(now) {
            &&& after.circuit() == self.circuit()
            &&& after.messages_sent() == self.messages_sent() + 1
            &&& step matches SendStep::Done(r)
            &&& after.completes(r, data, config)
        } else {
            exists|build: BuildStep| #[trigger]
                self.builder().started(config.hops as usize, now, build) && self.after_build(
                    after,
                    build,
                    data,
                    config,
                    step,
                )
        }
    }

    /// `step` is what `begin_send_at` returns: with neighbors, the advisory
    /// question over all of them, the session left as it was; without, what
    /// `proceeds` says.
    pub open spec fn begun(
        &self,
        after: Taior,
        data: Seq<u8>,
        options: SendOptions,
        now: u64,
        step: SendStep,
    ) -> bool {
        if self.neighbors().len() > 0 {
            &&& step matches SendStep::Ask(pending, query)
            &&& pending.stage() is Advisory
            &&& pending.data() == data
            &&& pending.config() == options.resolved()
            &&& names_of(query.candidates@).to_set() == self.neighbors()
            &&& names_of(query.candidates@).no_duplicates()
            &&& query.policy == policy_for(options.resolved().hops)
            &&& after.circuit() == self.circuit()
            &&& after.messages_sent() == self.messages_sent()
        } else {
            self.proceeds(after, data, options.resolved(), now, step)
        }
    }

    /// `step` is what `resume_send_at` returns: after the advisory question,
    /// what `proceeds` says, whatever the answer; during construction, what
    /// `after_build` says of the step that the builder takes on the answer.
    pub open spec fn resumed(
        &self,
        after: Taior,
        pending: PendingSend,
        answer: Option<String>,
        now: u64,
        step: SendStep,
    ) -> bool {
        match pending.stage() {
            SendStage::Advisory => self.proceeds(
                after,
                pending.data(),
                pending.config(),
                now,
                step,
            ),
            SendStage::Building(draft) => exists|build: BuildStep| #[trigger]
                self.builder().resumed(draft, answer, now, build) && self.after_build(
                    after,
                    build,
                    pending.data(),
                    pending.config(),
                    step,
                ),
        }
    }

    /// A session with a fresh identity and no neighbors.
    pub fn new() -> (r: Self)
        ensures
            r.wf(),
            is_address_text(r.address_text()),
            r.neighbors() == Set::<Seq<char>>::empty(),
            r.circuit() is None,
            !r.cover().enabled(),
    {
        let r = Self {
            identity: EphemeralIdentity::new(),
            router: Router::new(),
            discovery: NodeDiscovery::new(),
            cover_generator: CoverTrafficGenerator::default(),
            active_circuit: None,
            messages_sent: 0,
            circuit_builder: CircuitBuilder::new(
                SESSION_MIN_HOPS,
                SESSION_MAX_HOPS,
                SESSION_CIRCUIT_TTL,
            ),
        };
        assert(r.circuit_builder.pool_names().to_set() =~= Set::<Seq<char>>::empty());
        r
    }

    /// A session with a fresh identity whose neighbors are the names in
    /// `bootstrap`, each registered as a relay under a freshly generated
    /// address.
    pub fn with_bootstrap(bootstrap: Vec<String>) -> (r: Self)
        ensures
            r.wf(),
            is_address_text(r.address_text()),
            r.neighbors() == names_of(bootstrap@).to_set(),
            r.circuit() is None,
            !r.cover().enabled(),
    {
        let mut instance = Self::new();
        let mut i: usize = 0;
        assert(names_of(bootstrap@.take(0)).to_set() =~= Set::<Seq<char>>::empty());
        while i < bootstrap.len()
            invariant
                i <= bootstrap@.len(),
                instance.wf(),
                instance.neighbors() == names_of(bootstrap@.take(i as int)).to_set(),
                instance.circuit() is None,
                !instance.cover().enabled(),
            decreases bootstrap@.len() - i,
        {
            proof {
                crate::discovery::lemma_names_push(bootstrap@.take(i as int), bootstrap@[i as int]);
                assert(bootstrap@.take(i as int).push(bootstrap@[i as int]) =~= bootstrap@.take(
                    i + 1,
                ));
            }
            instance.add_node(bootstrap[i].clone());
            i += 1;
        }
        assert(bootstrap@.take(bootstrap@.len() as int) =~= bootstrap@);
        instance
    }

    /// The session's own address.
    pub fn address(&self) -> (r: &str)
        ensures
            r@ == self.address_text(),
            self.wf() ==> is_address_text(r@),
    {
        self.identity.address.as_str()
    }

    /// Registers `node` as a neighbor, and as a relay under a freshly
    /// generated address.
    pub fn add_node(&mut self, node: String)
        requires
            old(self).wf(),
        ensures
            final(self).wf(),
            final(self).neighbors() == old(self).neighbors().insert(node@),
            final(self).address_text() == old(self).address_text(),
            final(self).circuit() == old(self).circuit(),
            final(self).messages_sent() == old(self).messages_sent(),
            final(self).cover() == old(self).cover(),
            final(self).builder().pool_names() == if old(self).builder().pool_names().contains(
                node@,
            ) {
                old(self).builder().pool_names()
            } else {
                old(self).builder().pool_names().push(node@)
            },
            is_address_text(final(self).builder().address_of(node@)),
            forall|n: Seq<char>|
                n != node@ && old(self).builder().pool_names().contains(n)
                    ==> #[trigger] final(self).builder().address_of(n) == old(
                    self,
                ).builder().address_of(n),
    {
        let (_, addr) = TaiorAddress::generate();
        let ghost names = self.circuit_builder.pool_names();
        self.circuit_builder.add_node(node.clone(), addr);
        proof {
            if names.contains(node@) {
                assert(names.to_set().insert(node@) =~= names.to_set());
            } else {
                assert(names.push(node@).to_set() =~= names.to_set().insert(node@)) by {
                    names.lemma_push_to_set_commute(node@);
                }
            }
        }
        self.discovery.add_node(node);
    }

    /// Replaces the generator of decoys by one with the given switch and
    /// ratio, in thousandths.
    pub fn enable_cover_traffic(&mut self, enabled: bool, ratio_permille: u32)
        requires
            old(self).wf(),
        ensures
            final(self).wf(),
            final(self).cover().enabled() == enabled,
            final(self).cover().ratio_permille() == ratio_permille,
            final(self).address_text() == old(self).address_text(),
            final(self).neighbors() == old(self).neighbors(),
            final(self).builder() == old(self).builder(),
            final(self).circuit() == old(self).circuit(),
            final(self).messages_sent() == old(self).messages_sent(),
    {
        self.cover_generator = CoverTrafficGenerator::new(enabled, ratio_permille);
    }

    /// Begins a send of `data` by the clock's present reading.
    ///
    /// Whatever the clock reads, the step is the one that `begin_send_at`
    /// gives for that reading.
    pub fn begin_send(&mut self, data: &[u8], options: SendOptions) -> (step: SendStep)
        requires
            old(self).wf(),
        ensures
            final(self).wf(),
            final(self).same_but_circuit(*old(self)),
            exists|now: u64| #[trigger] old(self).begun(*final(self), data@, options, now, step),
    {
        let now = now_secs();
        self.begin_send_at(data, options, now)
    }

    /// Begins a send of `data` at the time `now`, in seconds.
    ///
    /// A decoy may be made and dropped first; it leaves no trace. A session
    /// with neighbors then asks the routing engine for the next hop among
    /// them. A session without goes on at once, as `proceeds` says.
    pub fn begin_send_at(&mut self, data: &[u8], options: SendOptions, now: u64) -> (step:
        SendStep)
        requires
            old(self).wf(),
        ensures
            final(self).wf(),
            final(self).same_but_circuit(*old(self)),
            old(self).begun(*final(self), data@, options, now, step),
    {
        let config = options.resolve();
        if self.cover_generator.should_send_cover() {
            let _ = self.cover_generator.generate_cover_packet(config.padding_size, config.hops);
        }
        let neighbors = self.discovery.get_neighbors();
        match self.router.plan_next_hop(neighbors, &config) {
            Some(query) => {
                let pending = PendingSend {
                    data: vstd::slice::slice_to_vec(data),
                    config,
                    stage: SendStage::Advisory,
                };
                SendStep::Ask(pending, query)
            },
            None => self.proceed(vstd::slice::slice_to_vec(data), config, now),
        }
    }

    /// Continues a send with the answer of the routing engine, by the
    /// clock's present reading.
    ///
    /// Whatever the clock reads, the step is the one that `resume_send_at`
    /// gives for that reading.
    pub fn resume_send(&mut self, pending: PendingSend, answer: Option<String>) -> (step: SendStep)
        requires
            old(self).wf(),
        ensures
            final(self).wf(),
            final(self).same_but_circuit(*old(self)),
            exists|now: u64| #[trigger]
                old(self).resumed(*final(self), pending, answer, now, step),
    {
        let now = now_secs();
        self.resume_send_at(pending, answer, now)
    }

    /// Continues a send with the answer of the routing engine, at the time
    /// `now`, in seconds.
    ///
    /// The answer to the advisory question is dropped, and the send goes on
    /// as `proceeds` says. An answer during the construction of a circuit is
    /// handed to the builder.
    pub fn resume_send_at(&mut self, pending: PendingSend, answer: Option<String>, now: u64) -> (step:
        SendStep)
        requires
            old(self).wf(),
        ensures
            final(self).wf(),
            final(self).same_but_circuit(*old(self)),
            old(self).resumed(*final(self), pending, answer, now, step),
    {
        proof {
            use_type_invariant(&pending);
        }
        let PendingSend { data, config, stage } = pending;
        match stage {
            SendStage::Advisory => self.proceed(data, config, now),
            SendStage::Building(draft) => {
                let build = self.circuit_builder.resume_build_at(draft, answer, now);
                self.settle_build(build, data, config, now)
            },
        }
    }

    /// Keeps a circuit that has not expired, or begins a new one.
    fn proceed(&mut self, data: Vec<u8>, config: ModeConfig, now: u64) -> (step: SendStep)
        requires
            old(self).wf(),
            0 < config.padding_size <= 512,
        ensures
            final(self).wf(),
            final(self).same_but_circuit(*old(self)),
            old(self).proceeds(*final(self), data@, config, now, step),
    {
        let needs_rebuild = match &self.active_circuit {
            Some(circuit) => circuit.is_expired_at(now) || self.messages_sent == u64::MAX,
            None => true,
        };
        if needs_rebuild {
            let build = self.circuit_builder.start_build_at(config.hops as usize, now);
            self.settle_build(build, data, config, now)
        } else {
            self.finish(data, config, now)
        }
    }

    /// Puts the result of a construction to use and completes the send, or
    /// passes the builder's question on.
    fn settle_build(&mut self, build: BuildStep, data: Vec<u8>, config: ModeConfig, now: u64) -> (step:
        SendStep)
        requires
            old(self).wf(),
            0 < config.padding_size <= 512,
            build matches BuildStep::Finished(Ok(c)) ==> c.wf() && c.created_at == now
                && c.ttl_seconds == SESSION_CIRCUIT_TTL && c.nodes@.len() <= SESSION_MAX_HOPS,
            build matches BuildStep::Ask(draft, _) ==> draft.hops() <= SESSION_MAX_HOPS,
        ensures
            final(self).wf(),
            final(self).same_but_circuit(*old(self)),
            old(self).after_build(*final(self), build, data@, config, step),
    {
        match build {
            BuildStep::Ask(draft, query) => {
                let pending = PendingSend { data, config, stage: SendStage::Building(draft) };
                SendStep::Ask(pending, query)
            },
            BuildStep::Finished(Ok(circuit)) => {
                self.active_circuit = Some(circuit);
                self.messages_sent = 0;
                self.finish(data, config, now)
            },
            BuildStep::Finished(Err(CircuitError::InsufficientNodes(_))) => {
                self.active_circuit = None;
                self.messages_sent = 0;
                self.finish(data, config, now)
            },
            BuildStep::Finished(Err(e)) => SendStep::Done(Err(SendError::CircuitBuildError(e))),
        }
    }

    /// Seals the payload and wraps it in the layers that the circuit in use
    /// has for the next message.
    fn finish(&mut self, data: Vec<u8>, config: ModeConfig, now: u64) -> (step: SendStep)
        requires
            old(self).wf(),
            0 < config.padding_size <= 512,
            old(self).circuit() is Some ==> old(self).circuit_serves(now),
        ensures
            final(self).wf(),
            final(self).same_but_circuit(*old(self)),
            final(self).circuit() == old(self).circuit(),
            final(self).messages_sent() == if old(self).circuit() is Some {
                (old(self).messages_sent() + 1) as u64
            } else {
                0
            },
            step matches SendStep::Done(r) && final(self).completes(r, data@, config),
    {
        if self.active_circuit.is_none() && self.discovery.count() == 0 {
            return SendStep::Done(Err(SendError::NoNeighbors));
        }
        let packet = match TaiorPacket::new(
            data.as_slice(),
            config.hops,
            config.padding_size,
            false,
        ) {
            Ok(packet) => packet,
            Err(_) => {
                return vstd::pervasive::unreached();
            },
        };
        let circuit = match &self.active_circuit {
            Some(circuit) => circuit,
            None => {
                return SendStep::Done(Ok(packet));
            },
        };
        let message = self.messages_sent;
        let mut encryptor = OnionEncryptor::for_message(circuit.clone(), message);
        let ghost layers = circuit.layers_for(message);
        assert(encryptor.layers() == layers);
        match encryptor.encrypt_onion_at(packet.encrypted_payload.as_slice(), now) {
            Ok(onion) => {
                let ghost base = packet.encrypted_payload@;
                let sent = TaiorPacket {
                    encrypted_payload: onion,
                    ikm: packet.ikm,
                    ttl: packet.ttl,
                    is_cover: packet.is_cover,
                };
                self.messages_sent = message + 1;
                assert(carries(sent.ikm@, base, data@, config.padding_size as nat));
                SendStep::Done(Ok(sent))
            },
            Err(_) => vstd::pervasive::unreached(),
        }
    }
}

impl Default for Taior {
    fn default() -> (r: Self)
        ensures
            r.wf(),
            r.neighbors() == Set::<Seq<char>>::empty(),
            r.circuit() is None,
    {
        Self::new()
    }
}

} // verus!
