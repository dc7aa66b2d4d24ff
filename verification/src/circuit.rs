//! Circuits: ordered paths of relays with per-hop key material, and the
//! layered encryption over them.
//!
//! A payload is sealed once for every relay of the circuit, the last relay
//! first, so that the relay at the head strips the outermost layer and each
//! relay after it exactly one more.

use crate::aead::{
    aead_error_text, aead_open, aead_seal, describe_error, open, seal, sealable, KEY_LEN,
    NONCE_LEN, TAG_LEN,
};
use crate::bytes::to_array;
use crate::clock::now_secs;
use crate::entropy::random_bytes;
use crate::identity::TaiorAddress;
use crate::text::{decimal, decimal_text};
use vstd::bytes::{spec_u64_to_le_bytes, u64_to_le_bytes};
use vstd::prelude::*;
use vstd::string::StringExecFns;

pub use crate::builder::CircuitBuilder;

verus! {

/// What can go wrong with a circuit.
#[derive(Debug)]
pub enum CircuitError {
    /// The pool cannot supply a circuit of this many hops.
    InsufficientNodes(usize),
    /// The cipher refused a layer; the text describes why.
    EncryptionError(String),
    /// The circuit has outlived its time to live, or its message numbers are
    /// used up: it is to be rebuilt.
    CircuitExpired,
    /// The hop at this position does not answer. Never produced by the
    /// functions of this module.
    HopTimeout(usize),
}

impl CircuitError {
    /// The message of the error.
    pub open spec fn message_text(&self) -> Seq<char> {
        match self {
            CircuitError::InsufficientNodes(hops) => {
                "No hay suficientes nodos para construir circuito de "@ + decimal_text(*hops as nat)
                    + " hops"@
            },
            CircuitError::EncryptionError(text) => "Error de cifrado: "@ + text@,
            CircuitError::CircuitExpired => "Circuito expirado"@,
            CircuitError::HopTimeout(hop) => {
                "Hop "@ + decimal_text(*hop as nat) + " no responde"@
            },
        }
    }

    /// The message of the error.
    pub fn message(&self) -> (s: String)
        ensures
            s@ == self.message_text(),
    {
        match self {
            CircuitError::InsufficientNodes(hops) => {
                let number = decimal(*hops);
                String::from_str("No hay suficientes nodos para construir circuito de ").concat(
                    number.as_str(),
                ).concat(" hops")
            },
            CircuitError::EncryptionError(text) => String::from_str("Error de cifrado: ").concat(
                text.as_str(),
            ),
            CircuitError::CircuitExpired => String::from_str("Circuito expirado"),
            CircuitError::HopTimeout(hop) => {
                let number = decimal(*hop);
                String::from_str("Hop ").concat(number.as_str()).concat(" no responde")
            },
        }
    }
}

/// The message of `decrypt_layer` for a hop index past the circuit's end.
pub open spec fn hop_out_of_range_text() -> Seq<char> {
    "Hop index fuera de rango"@
}

/// One relay of a circuit with the key material shared with it.
#[derive(Debug)]
pub struct CircuitNode {
    pub address: TaiorAddress,
    pub shared_key: Vec<u8>,
    pub nonce: Vec<u8>,
}

/// The key and the nonce of one layer of encryption.
pub struct Layer {
    pub key: Seq<u8>,
    pub nonce: Seq<u8>,
}

/// What a relay of a circuit holds, as plain values.
pub struct NodeView {
    pub address: Seq<char>,
    pub key: Seq<u8>,
    pub nonce: Seq<u8>,
}

impl View for CircuitNode {
    type V = NodeView;

    open spec fn view(&self) -> NodeView {
        NodeView { address: self.address@, key: self.shared_key@, nonce: self.nonce@ }
    }
}

/// The relays of a sequence as plain values.
pub open spec fn node_views(nodes: Seq<CircuitNode>) -> Seq<NodeView> {
    Seq::new(nodes.len(), |i: int| nodes[i]@)
}

impl CircuitNode {
    /// The key is 32 bytes long and the nonce 12.
    pub open spec fn wf(&self) -> bool {
        self.shared_key@.len() == KEY_LEN && self.nonce@.len() == NONCE_LEN
    }

    /// The layer of encryption that belongs to this relay for the message
    /// numbered `message`.
    pub open spec fn layer_for(&self, message: u64) -> Layer {
        Layer { key: self.shared_key@, nonce: message_nonce(self.nonce@, message) }
    }
}

impl Clone for CircuitNode {
    fn clone(&self) -> (r: Self)
        ensures
            r@ == self@,
    {
        CircuitNode {
            address: self.address.clone(),
            shared_key: self.shared_key.clone(),
            nonce: self.nonce.clone(),
        }
    }
}

/// Length of a message number within a nonce, in bytes.
pub const COUNTER_LEN: usize = 8;

/// The nonce of the message numbered `message` under the base nonce `base`:
/// the last eight bytes of the base, each combined by exclusive or with a
/// byte of the number, the lowest byte first. The bytes before them stay.
///
/// A relay's key is used for every message of a circuit; its nonce must not
/// be. Numbering the messages gives each its own.
pub open spec fn message_nonce(base: Seq<u8>, message: u64) -> Seq<u8> {
    Seq::new(
        base.len(),
        |i: int|
            if i < base.len() - COUNTER_LEN {
                base[i]
            } else {
                base[i] ^ spec_u64_to_le_bytes(message)[i - (base.len() - COUNTER_LEN)]
            },
    )
}

/// Two messages with different numbers never share a nonce.
pub proof fn lemma_message_nonces_differ(base: Seq<u8>, first: u64, second: u64)
    requires
        base.len() >= COUNTER_LEN,
        first != second,
    ensures
        message_nonce(base, first) != message_nonce(base, second),
{
    vstd::bytes::lemma_auto_spec_u64_to_from_le_bytes();
    let a = spec_u64_to_le_bytes(first);
    let b = spec_u64_to_le_bytes(second);
    let skip = base.len() - COUNTER_LEN;
    if message_nonce(base, first) == message_nonce(base, second) {
        assert forall|k: int| 0 <= k < COUNTER_LEN implies a[k] == b[k] by {
            let x = base[skip + k];
            let p = a[k];
            let q = b[k];
            assert(message_nonce(base, first)[skip + k] == x ^ p);
            assert(message_nonce(base, second)[skip + k] == x ^ q);
            assert(x ^ p == x ^ q ==> p == q) by (bit_vector);
        }
        assert(a =~= b);
        assert(vstd::bytes::spec_u64_from_le_bytes(a) == first);
        assert(vstd::bytes::spec_u64_from_le_bytes(b) == second);
    }
}

/// The first message of a circuit is sealed under the base nonce itself.
pub proof fn lemma_first_message_nonce(base: Seq<u8>)
    requires
        base.len() >= COUNTER_LEN,
    ensures
        message_nonce(base, 0) == base,
{
    vstd::bytes::spec_u64_to_le_bytes_to_open(0);
    let zero = spec_u64_to_le_bytes(0);
    assert forall|k: int| 0 <= k < COUNTER_LEN implies zero[k] == 0u8 by {
        assert((0u64 & 0xff) as u8 == 0u8) by (bit_vector);
        assert(((0u64 >> 8) & 0xff) as u8 == 0u8) by (bit_vector);
        assert(((0u64 >> 16) & 0xff) as u8 == 0u8) by (bit_vector);
        assert(((0u64 >> 24) & 0xff) as u8 == 0u8) by (bit_vector);
        assert(((0u64 >> 32) & 0xff) as u8 == 0u8) by (bit_vector);
        assert(((0u64 >> 40) & 0xff) as u8 == 0u8) by (bit_vector);
        assert(((0u64 >> 48) & 0xff) as u8 == 0u8) by (bit_vector);
        assert(((0u64 >> 56) & 0xff) as u8 == 0u8) by (bit_vector);
    }
    assert forall|i: int| 0 <= i < base.len() implies message_nonce(base, 0)[i] == base[i] by {
        let x = base[i];
        assert(x ^ 0u8 == x) by (bit_vector);
    }
    assert(message_nonce(base, 0) =~= base);
}

/// The nonce of the message numbered `message` under the base nonce `base`.
pub fn message_nonce_of(base: &[u8], message: u64) -> (nonce: Vec<u8>)
    requires
        base@.len() >= COUNTER_LEN,
    ensures
        nonce@ == message_nonce(base@, message),
{
    let number = u64_to_le_bytes(message);
    proof {
        vstd::bytes::lemma_auto_spec_u64_to_from_le_bytes();
    }
    let skip = base.len() - COUNTER_LEN;
    let mut nonce: Vec<u8> = Vec::with_capacity(base.len());
    let mut i: usize = 0;
    while i < base.len()
        invariant
            i <= base@.len(),
            skip == base@.len() - COUNTER_LEN,
            number@ == spec_u64_to_le_bytes(message),
            number@.len() == COUNTER_LEN,
            nonce@ == message_nonce(base@, message).subrange(0, i as int),
        decreases base@.len() - i,
    {
        let byte = if i < skip {
            base[i]
        } else {
            base[i] ^ number[i - skip]
        };
        nonce.push(byte);
        assert(nonce@ =~= message_nonce(base@, message).subrange(0, i + 1));
        i += 1;
    }
    assert(nonce@ =~= message_nonce(base@, message));
    nonce
}

/// The layers of a sequence of relays for the message numbered `message`,
/// head first.
pub open spec fn layers_of(nodes: Seq<CircuitNode>, message: u64) -> Seq<Layer> {
    Seq::new(nodes.len(), |i: int| nodes[i].layer_for(message))
}

/// `payload` sealed once per layer, the last layer first: the first layer is
/// the outermost.
pub open spec fn onion_wrap(layers: Seq<Layer>, payload: Seq<u8>) -> Seq<u8>
    decreases layers.len(),
{
    if layers.len() == 0 {
        payload
    } else {
        aead_seal(layers[0].key, layers[0].nonce, onion_wrap(layers.drop_first(), payload))
    }
}

/// What is left of `data` after each layer was opened in turn, the first
/// layer first; nothing where a layer does not authenticate.
pub open spec fn onion_peel(layers: Seq<Layer>, data: Seq<u8>) -> Option<Seq<u8>>
    decreases layers.len(),
{
    if layers.len() == 0 {
        Some(data)
    } else {
        match aead_open(layers[0].key, layers[0].nonce, data) {
            Some(inner) => onion_peel(layers.drop_first(), inner),
            None => None,
        }
    }
}

/// Whether every layer of the onion over `payload` opens to the onion one
/// layer further in.
pub open spec fn each_layer_opens(layers: Seq<Layer>, payload: Seq<u8>) -> bool {
    forall|i: int|
        0 <= i < layers.len() ==> aead_open(
            layers[i].key,
            layers[i].nonce,
            #[trigger] onion_wrap(layers.skip(i), payload),
        ) == Some(onion_wrap(layers.skip(i + 1), payload))
}

/// Peeling undoes wrapping: where each single layer opens to what it
/// sealed, opening all layers of an onion from the head to the tail gives the
/// payload back.
pub proof fn lemma_peel_undoes_wrap(layers: Seq<Layer>, payload: Seq<u8>)
    requires
        each_layer_opens(layers, payload),
    ensures
        onion_peel(layers, onion_wrap(layers, payload)) == Some(payload),
    decreases layers.len(),
{
    if layers.len() > 0 {
        let rest = layers.drop_first();
        assert(layers.skip(0) =~= layers);
        assert(layers.skip(1) =~= rest);
        assert(onion_wrap(layers.skip(0), payload) == onion_wrap(layers, payload));
        assert forall|i: int| 0 <= i < rest.len() implies aead_open(
            rest[i].key,
            rest[i].nonce,
            #[trigger] onion_wrap(rest.skip(i), payload),
        ) == Some(onion_wrap(rest.skip(i + 1), payload)) by {
            assert(rest.skip(i) =~= layers.skip(i + 1));
            assert(rest.skip(i + 1) =~= layers.skip(i + 2));
            assert(rest[i] == layers[i + 1]);
            assert(onion_wrap(layers.skip(i + 1), payload) == onion_wrap(rest.skip(i), payload));
        }
        lemma_peel_undoes_wrap(rest, payload);
    }
}

/// An ordered path of relays, from the head to the tail.
#[derive(Debug)]
pub struct Circuit {
    pub id: [u8; 16],
    pub nodes: Vec<CircuitNode>,
    pub created_at: u64,
    pub ttl_seconds: u64,
}

impl Circuit {
    /// Every relay has key material of the right lengths.
    pub open spec fn wf(&self) -> bool {
        forall|i: int| 0 <= i < self.nodes@.len() ==> (#[trigger] self.nodes@[i]).wf()
    }

    /// The layers of the circuit for the message numbered `message`, head
    /// first.
    pub open spec fn layers_for(&self, message: u64) -> Seq<Layer> {
        layers_of(self.nodes@, message)
    }

    /// No relay of the circuit uses a nonce for two messages with different
    /// numbers.
    pub proof fn lemma_layers_differ(&self, first: u64, second: u64, hop: int)
        requires
            self.wf(),
            first != second,
            0 <= hop < self.nodes@.len(),
        ensures
            self.layers_for(first)[hop].nonce != self.layers_for(second)[hop].nonce,
            self.layers_for(first)[hop].key == self.layers_for(second)[hop].key,
    {
        assert(self.nodes@[hop].wf());
        lemma_message_nonces_differ(self.nodes@[hop].nonce@, first, second);
    }

    /// Whether the circuit has expired at the time `now`, in seconds: more
    /// than its time to live has passed since it was created.
    pub open spec fn expired_at(&self, now: int) -> bool {
        now - self.created_at > self.ttl_seconds
    }

    /// A circuit over `nodes` with a random identifier, created now.
    pub fn new(nodes: Vec<CircuitNode>, ttl_seconds: u64) -> (r: Self)
        ensures
            r.nodes == nodes,
            r.ttl_seconds == ttl_seconds,
    {
        let id = random_bytes(16);
        Self::with_id(nodes, ttl_seconds, to_array(id.as_slice()), now_secs())
    }

    /// A circuit over `nodes` with the identifier `id`, created at
    /// `created_at`.
    pub fn with_id(nodes: Vec<CircuitNode>, ttl_seconds: u64, id: [u8; 16], created_at: u64) -> (r:
        Self)
        ensures
            r.nodes == nodes,
            r.ttl_seconds == ttl_seconds,
            r.id == id,
            r.created_at == created_at,
    {
        Self { id, nodes, created_at, ttl_seconds }
    }

    /// Whether the circuit has expired by the clock's present reading. A
    /// circuit whose time to live reaches past the end of time never has.
    pub fn is_expired(&self) -> (r: bool)
        ensures
            exists|now: u64| r == #[trigger] self.expired_at(now as int),
            self.created_at + self.ttl_seconds >= u64::MAX ==> !r,
    {
        let now = now_secs();
        self.is_expired_at(now)
    }

    /// Whether the circuit has expired at the time `now`, in seconds.
    pub fn is_expired_at(&self, now: u64) -> (r: bool)
        ensures
            r == self.expired_at(now as int),
    {
        now > self.created_at && now - self.created_at > self.ttl_seconds
    }

    /// The number of relays.
    pub fn hop_count(&self) -> (n: usize)
        ensures
            n == self.nodes@.len(),
    {
        self.nodes.len()
    }
}

impl Clone for Circuit {
    fn clone(&self) -> (r: Self)
        ensures
            r.id == self.id,
            r.created_at == self.created_at,
            r.ttl_seconds == self.ttl_seconds,
            node_views(r.nodes@) == node_views(self.nodes@),
            forall|message: u64| #[trigger] r.layers_for(message) == self.layers_for(message),
            self.wf() ==> r.wf(),
    {
        let mut nodes: Vec<CircuitNode> = Vec::with_capacity(self.nodes.len());
        let mut i: usize = 0;
        while i < self.nodes.len()
            invariant
                i <= self.nodes@.len(),
                nodes@.len() == i,
                forall|k: int| 0 <= k < i ==> (#[trigger] nodes@[k])@ == self.nodes@[k]@,
            decreases self.nodes@.len() - i,
        {
            nodes.push(self.nodes[i].clone());
            i += 1;
        }
        Circuit { id: self.id, nodes, created_at: self.created_at, ttl_seconds: self.ttl_seconds }
    }
}

/// Whether the cipher accepts every layer of an onion of `hops` layers over
/// a payload of `len` bytes. The layers grow by one tag each, so the
/// outermost decides.
pub open spec fn onion_sealable(len: int, hops: int) -> bool {
    hops == 0 || sealable(len + TAG_LEN * (hops - 1))
}

/// Whether an onion of `hops` layers over a payload of `len` bytes is no
/// longer than a buffer can be.
pub open spec fn onion_fits(len: int, hops: int) -> bool {
    len + TAG_LEN * hops <= usize::MAX
}

/// The message of `encrypt_onion` for an onion that no buffer can hold.
pub open spec fn onion_too_long_text() -> Seq<char> {
    "Onion demasiado largo"@
}

/// Encrypts message after message in layers over a circuit, each under a
/// number of its own, and opens single layers.
///
/// A relay's key serves every message of the circuit; a nonce must serve one
/// only. So the encryptor numbers the messages: each encryption takes the
/// next number, whose nonces no other message has, and once the numbers are
/// used up the circuit is refused as expired. The relays learn the numbering
/// as they learn their key material.
pub struct OnionEncryptor {
    circuit: Circuit,
    message: u64,
}

impl OnionEncryptor {
    /// The circuit that this encryptor works over.
    pub closed spec fn circuit(&self) -> Circuit {
        self.circuit
    }

    /// The number that the next message gets.
    pub closed spec fn message(&self) -> u64 {
        self.message
    }

    /// The layers of the next message, head first.
    pub open spec fn layers(&self) -> Seq<Layer> {
        self.circuit().layers_for(self.message())
    }

    /// Whether the message numbers of the circuit are used up.
    pub open spec fn exhausted(&self) -> bool {
        self.message() == u64::MAX
    }

    /// An encryptor for `circuit` whose first message gets the number 0.
    pub fn new(circuit: Circuit) -> (r: Self)
        ensures
            r.circuit() == circuit,
            r.message() == 0,
    {
        Self { circuit, message: 0 }
    }

    /// An encryptor that goes on with the numbering of `circuit` at
    /// `message`: for a circuit whose earlier messages had lower numbers.
    pub fn for_message(circuit: Circuit, message: u64) -> (r: Self)
        ensures
            r.circuit() == circuit,
            r.message() == message,
    {
        Self { circuit, message }
    }

    /// The number that the next message gets.
    pub fn next_message(&self) -> (n: u64)
        ensures
            n == self.message(),
    {
        self.message
    }

    /// `r` is what an encryption of `payload` at the time `now` comes to, and
    /// `after` the encryptor that it leaves.
    ///
    /// A circuit that has expired, or whose message numbers are used up, is
    /// refused with `CircuitExpired`. Otherwise the call fails with
    /// `EncryptionError`: with `onion_too_long_text` for an onion that no
    /// buffer can hold, and with the cipher's text where the cipher refuses
    /// the length of a layer. In every other case the result is the onion
    /// over the layers of the next message, which peels back to the payload
    /// and is one tag longer for each layer.
    ///
    /// The circuit stays as it is. The message number goes up by one, unless
    /// the call is refused before anything is sealed, as an expired circuit
    /// and an onion that is too long are.
    pub open spec fn sealed_at(
        &self,
        after: Self,
        payload: Seq<u8>,
        now: u64,
        r: Result<Vec<u8>, CircuitError>,
    ) -> bool {
        let hops = self.circuit().nodes@.len() as int;
        let refused = self.circuit().expired_at(now as int) || self.exhausted();
        let fits = onion_fits(payload.len() as int, hops);
        &&& after.circuit() == self.circuit()
        &&& after.message() == if refused || !fits {
            self.message()
        } else {
            (self.message() + 1) as u64
        }
        &&& match r {
            Ok(onion) => {
                &&& !refused
                &&& fits
                &&& onion_sealable(payload.len() as int, hops)
                &&& onion@ == onion_wrap(self.layers(), payload)
                &&& onion_peel(self.layers(), onion@) == Some(payload)
                &&& onion@.len() == payload.len() + TAG_LEN * hops
            },
            Err(CircuitError::CircuitExpired) => refused,
            Err(CircuitError::EncryptionError(text)) => {
                &&& !refused
                &&& if !fits {
                    text@ == onion_too_long_text()
                } else {
                    !onion_sealable(payload.len() as int, hops) && text@ == aead_error_text()
                }
            },
            Err(_) => false,
        }
    }

    /// Whether every relay's nonce for the next message of `after` differs
    /// from its nonce for the next message of this encryptor.
    pub open spec fn fresh_nonces(&self, after: Self) -> bool {
        forall|hop: int|
            0 <= hop < self.circuit().nodes@.len() ==> (#[trigger] after.layers()[hop]).nonce
                != self.layers()[hop].nonce
    }

    /// Seals `payload` once for every relay of the circuit, the tail first,
    /// under the next message number, unless the circuit has expired by the
    /// clock's present reading.
    ///
    /// Whatever the clock reads, the result is the one that
    /// `encrypt_onion_at` gives for that reading. A circuit whose time to
    /// live reaches past the end of time is refused as expired only when its
    /// message numbers are used up.
    pub fn encrypt_onion(&mut self, payload: &[u8]) -> (r: Result<Vec<u8>, CircuitError>)
        requires
            old(self).circuit().wf(),
        ensures
            exists|now: u64| #[trigger] old(self).sealed_at(*final(self), payload@, now, r),
            r is Ok ==> final(self).message() == old(self).message() + 1 && old(
                self,
            ).fresh_nonces(*final(self)),
            old(self).circuit().created_at + old(self).circuit().ttl_seconds >= u64::MAX && !old(
                self,
            ).exhausted() ==> !(r matches Err(CircuitError::CircuitExpired)),
    {
        let now = now_secs();
        let r = self.encrypt_onion_at(payload, now);
        assert(old(self).sealed_at(*self, payload@, now, r));
        r
    }

    /// Seals `payload` once for every relay of the circuit, the tail first,
    /// under the next message number, as of the time `now`, in seconds.
    ///
    /// An expired circuit is refused with `CircuitExpired`, whatever the
    /// payload; so is a circuit whose message numbers are used up. Every
    /// encryption that seals anything takes a number of its own, so no two
    /// encryptions seal under the same nonce.
    pub fn encrypt_onion_at(&mut self, payload: &[u8], now: u64) -> (r: Result<
        Vec<u8>,
        CircuitError,
    >)
        requires
            old(self).circuit().wf(),
        ensures
            old(self).sealed_at(*final(self), payload@, now, r),
            old(self).circuit().expired_at(now as int) ==> r matches Err(
                CircuitError::CircuitExpired,
            ),
            r is Ok <==> !old(self).circuit().expired_at(now as int) && !old(self).exhausted()
                && onion_fits(payload@.len() as int, old(self).circuit().nodes@.len() as int)
                && onion_sealable(payload@.len() as int, old(self).circuit().nodes@.len() as int),
            r is Ok ==> final(self).message() == old(self).message() + 1 && old(
                self,
            ).fresh_nonces(*final(self)),
    {
        if self.circuit.is_expired_at(now) || self.message == u64::MAX {
            return Err(CircuitError::CircuitExpired);
        }
        let hops = self.circuit.nodes.len();
        if hops > (usize::MAX - payload.len()) / TAG_LEN {
            return Err(CircuitError::EncryptionError(String::from_str("Onion demasiado largo")));
        }
        let message = self.message;
        let ghost layers = self.layers();
        self.message = message + 1;
        let mut encrypted = vstd::slice::slice_to_vec(payload);
        let mut i: usize = hops;
        assert(layers.skip(hops as int) =~= Seq::<Layer>::empty());
        while i > 0
            invariant
                i <= hops,
                hops == self.circuit.nodes@.len(),
                layers == self.circuit.layers_for(message),
                self.circuit.wf(),
                self.circuit == old(self).circuit,
                message == old(self).message,
                self.message == message + 1,
                !self.circuit.expired_at(now as int),
                payload@.len() + TAG_LEN * hops <= usize::MAX,
                encrypted@ == onion_wrap(layers.skip(i as int), payload@),
                encrypted@.len() == payload@.len() + TAG_LEN * (hops - i),
                onion_sealable(payload@.len() as int, hops - i),
                forall|j: int|
                    i <= j < hops ==> aead_open(
                        layers[j].key,
                        layers[j].nonce,
                        #[trigger] onion_wrap(layers.skip(j), payload@),
                    ) == Some(onion_wrap(layers.skip(j + 1), payload@)),
            decreases i,
        {
            let node = &self.circuit.nodes[i - 1];
            proof {
                assert(layers.skip(i - 1).drop_first() =~= layers.skip(i as int));
                assert(layers.skip(i - 1)[0] == node.layer_for(message));
                assert(self.circuit.nodes@[i - 1].wf());
            }
            match Self::encrypt_layer(encrypted.as_slice(), node, message) {
                Ok(next) => {
                    encrypted = next;
                },
                Err(e) => {
                    return Err(e);
                },
            }
            i -= 1;
        }
        proof {
            assert(layers.skip(0) =~= layers);
            lemma_peel_undoes_wrap(layers, payload@);
            assert forall|hop: int| 0 <= hop < self.circuit.nodes@.len() implies (
            #[trigger] self.layers()[hop]).nonce != old(self).layers()[hop].nonce by {
                self.circuit.lemma_layers_differ((message + 1) as u64, message, hop);
            }
        }
        Ok(encrypted)
    }

    fn encrypt_layer(data: &[u8], node: &CircuitNode, message: u64) -> (r: Result<
        Vec<u8>,
        CircuitError,
    >)
        requires
            node.wf(),
            data@.len() + TAG_LEN <= usize::MAX,
        ensures
            r is Ok <==> sealable(data@.len() as int),
            match r {
                Ok(sealed) => {
                    let layer = node.layer_for(message);
                    &&& sealed@ == aead_seal(layer.key, layer.nonce, data@)
                    &&& sealed@.len() == data@.len() + TAG_LEN
                    &&& aead_open(layer.key, layer.nonce, sealed@) == Some(data@)
                },
                Err(CircuitError::EncryptionError(text)) => text@ == aead_error_text(),
                Err(_) => false,
            },
    {
        let nonce = message_nonce_of(node.nonce.as_slice(), message);
        match seal(node.shared_key.as_slice(), nonce.as_slice(), data) {
            Ok(sealed) => Ok(sealed),
            Err(e) => Err(CircuitError::EncryptionError(describe_error(&e))),
        }
    }

    /// Opens one layer of `data` with the key of the relay at `hop_index` and
    /// its nonce for the message numbered `message`.
    ///
    /// Fails with `EncryptionError`: for an index past the circuit's end the
    /// text is `hop_out_of_range_text`; where the data does not
    /// authenticate, as data shorter than a tag never does, it is the
    /// cipher's. What comes back is one tag shorter than the data.
    pub fn decrypt_layer(&self, data: &[u8], hop_index: usize, message: u64) -> (r: Result<
        Vec<u8>,
        CircuitError,
    >)
        requires
            self.circuit().wf(),
        ensures
            match r {
                Ok(plain) => {
                    &&& hop_index < self.circuit().nodes@.len()
                    &&& aead_open(
                        self.circuit().layers_for(message)[hop_index as int].key,
                        self.circuit().layers_for(message)[hop_index as int].nonce,
                        data@,
                    ) == Some(plain@)
                    &&& plain@.len() + TAG_LEN == data@.len()
                },
                Err(CircuitError::EncryptionError(text)) => if hop_index
                    >= self.circuit().nodes@.len() {
                    text@ == hop_out_of_range_text()
                } else {
                    text@ == aead_error_text() && aead_open(
                        self.circuit().layers_for(message)[hop_index as int].key,
                        self.circuit().layers_for(message)[hop_index as int].nonce,
                        data@,
                    ) is None
                },
                Err(_) => false,
            },
            hop_index >= self.circuit().nodes@.len() || data@.len() < TAG_LEN ==> r is Err,
    {
        if hop_index >= self.circuit.nodes.len() {
            return Err(
                CircuitError::EncryptionError(String::from_str("Hop index fuera de rango")),
            );
        }
        let node = &self.circuit.nodes[hop_index];
        assert(self.circuit.nodes@[hop_index as int].wf());
        let nonce = message_nonce_of(node.nonce.as_slice(), message);
        match open(node.shared_key.as_slice(), nonce.as_slice(), data) {
            Ok(plain) => Ok(plain),
            Err(e) => Err(CircuitError::EncryptionError(describe_error(&e))),
        }
    }
}

} // verus!
