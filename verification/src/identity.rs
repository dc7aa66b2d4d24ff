//! Ephemeral identities and the addresses derived from them.
//!
//! An address is the text `taior://` followed by the 64 lowercase hex digits
//! of the BLAKE3 hash of an X25519 public key. It identifies a peer for the
//! lifetime of one session and carries no routing information.

use rand_core::OsRng;
use vstd::prelude::*;
use vstd::string::StringExecFns;
use x25519_dalek::{EphemeralSecret, PublicKey};

verus! {

/// The scheme that every address begins with.
pub const ADDRESS_PREFIX: &'static str = "taior://";

/// Length of an X25519 public key, in bytes.
pub const PUBLIC_KEY_LEN: usize = 32;

/// Length of an address, in characters.
pub const ADDRESS_LEN: usize = 72;

/// The 32-byte BLAKE3 hash of `data`.
pub uninterp spec fn blake3_hash(data: Seq<u8>) -> Seq<u8>;

/// Calls `blake3::Hasher::new`, `update` and `finalize`.
///
/// Trusted: the array is the named hash of the input.
#[verifier::external_body]
pub(crate) fn blake3_digest(data: &[u8]) -> (out: [u8; 32])
    ensures
        out@ == blake3_hash(data@),
{
    let mut hasher = blake3::Hasher::new();
    hasher.update(data);
    *hasher.finalize().as_bytes()
}

/// The sixteen lowercase hex digits, in order of value.
pub open spec fn hex_digits() -> Seq<char> {
    seq!['0', '1', '2', '3', '4', '5', '6', '7', '8', '9', 'a', 'b', 'c', 'd', 'e', 'f']
}

/// Whether `c` is one of the sixteen lowercase hex digits.
pub open spec fn is_lower_hex(c: char) -> bool {
    ('0' <= c && c <= '9') || ('a' <= c && c <= 'f')
}

/// The lowercase hex encoding of `data`: two digits for each byte, the high
/// half first.
pub open spec fn hex_lower(data: Seq<u8>) -> Seq<char> {
    Seq::new(
        2 * data.len(),
        |i: int|
            if i % 2 == 0 {
                hex_digits()[data[i / 2] as int / 16]
            } else {
                hex_digits()[data[i / 2] as int % 16]
            },
    )
}

/// Calls `hex::encode`.
///
/// Trusted, from its documentation: the string holds two lowercase hex
/// digits for each byte of the input, in order.
#[verifier::external_body]
pub(crate) fn hex_encode(data: &[u8]) -> (s: String)
    ensures
        s@ == hex_lower(data@),
{
    hex::encode(data)
}

/// Every character of a hex encoding is a lowercase hex digit.
pub proof fn lemma_hex_lower_digits(data: Seq<u8>)
    ensures
        hex_lower(data).len() == 2 * data.len(),
        forall|i: int| 0 <= i < hex_lower(data).len() ==> is_lower_hex(#[trigger] hex_lower(data)[i]),
{
}

/// The secret half of an X25519 key pair that is used once.
#[verifier::external_type_specification]
#[verifier::external_body]
pub struct ExEphemeralSecret(EphemeralSecret);

/// Calls `EphemeralSecret::random_from_rng` with the operating system's
/// random source. Nothing is claimed of the secret.
#[verifier::external_body]
pub(crate) fn fresh_secret() -> EphemeralSecret {
    EphemeralSecret::random_from_rng(OsRng)
}

/// Calls `PublicKey::from` on the secret and `PublicKey::to_bytes`: the
/// 32 bytes of the public key that belongs to the secret.
#[verifier::external_body]
pub(crate) fn public_key_of(secret: &EphemeralSecret) -> [u8; 32] {
    PublicKey::from(secret).to_bytes()
}

/// The address that belongs to a public key.
pub open spec fn address_text(public_key: Seq<u8>) -> Seq<char> {
    ADDRESS_PREFIX@ + hex_lower(blake3_hash(public_key))
}

/// Whether `s` has the textual form of an address: `taior://` and 64
/// lowercase hex digits.
pub open spec fn is_address_text(s: Seq<char>) -> bool {
    &&& s.len() == ADDRESS_LEN
    &&& s.subrange(0, 8) == ADDRESS_PREFIX@
    &&& forall|i: int| 8 <= i < ADDRESS_LEN ==> is_lower_hex(#[trigger] s[i])
}

/// The address of a peer, in its textual form.
#[derive(Debug, PartialEq, Eq)]
pub struct TaiorAddress(pub String);

impl Clone for TaiorAddress {
    fn clone(&self) -> (r: Self)
        ensures
            r == *self,
    {
        TaiorAddress(self.0.clone())
    }
}

impl View for TaiorAddress {
    type V = Seq<char>;

    open spec fn view(&self) -> Seq<char> {
        self.0@
    }
}

impl TaiorAddress {
    /// Draws a fresh X25519 secret and derives the address of its public
    /// key.
    pub fn generate() -> (r: (EphemeralSecret, Self))
        ensures
            is_address_text(r.1@),
            exists|public_key: Seq<u8>|
                public_key.len() == PUBLIC_KEY_LEN && r.1@ == #[trigger] address_text(public_key),
    {
        let sk = fresh_secret();
        let pk = public_key_of(&sk);
        let addr = Self::from_public_key(&pk);
        assert(addr@ == address_text(pk@));
        (sk, addr)
    }

    /// The address of the public key `pk`.
    pub fn from_public_key(pk: &[u8; 32]) -> (r: Self)
        ensures
            r@ == address_text(pk@),
            is_address_text(r@),
    {
        let hash = blake3_digest(pk.as_slice());
        let digits = hex_encode(hash.as_slice());
        let text = String::from_str(ADDRESS_PREFIX).concat(digits.as_str());
        proof {
            reveal_strlit("taior://");
            lemma_hex_lower_digits(hash@);
            assert(text@.subrange(0, 8) =~= ADDRESS_PREFIX@);
        }
        TaiorAddress(text)
    }

    pub fn as_str(&self) -> (r: &str)
        ensures
            r@ == self@,
    {
        self.0.as_str()
    }
}

/// A key pair that lives as long as one session, with its address.
pub struct EphemeralIdentity {
    pub secret: EphemeralSecret,
    pub address: TaiorAddress,
}

impl EphemeralIdentity {
    /// A fresh key pair with the address of its public key.
    pub fn new() -> (r: Self)
        ensures
            is_address_text(r.address@),
            exists|public_key: Seq<u8>|
                public_key.len() == PUBLIC_KEY_LEN && r.address@ == #[trigger] address_text(
                    public_key,
                ),
    {
        let (secret, address) = TaiorAddress::generate();
        Self { secret, address }
    }
}

impl Default for EphemeralIdentity {
    fn default() -> (r: Self)
        ensures
            is_address_text(r.address@),
            exists|public_key: Seq<u8>|
                public_key.len() == PUBLIC_KEY_LEN && r.address@ == #[trigger] address_text(
                    public_key,
                ),
    {
        Self::new()
    }
}

} // verus!
