//! Certificate pinning for the connections to relays: a certificate is
//! accepted only if its SHA-256 fingerprint is one of the pinned hashes.

use crate::bytes::bytes_equal;
use sha2::{Digest, Sha256};
use vstd::prelude::*;
use vstd::string::StringExecFns;

verus! {

/// The 32-byte SHA-256 hash of `data`.
pub uninterp spec fn sha256_hash(data: Seq<u8>) -> Seq<u8>;

/// Calls `Sha256::new`, `update` and `finalize`.
///
/// Trusted: the array is the named hash of the input.
#[verifier::external_body]
pub(crate) fn sha256_digest(data: &[u8]) -> (out: [u8; 32])
    ensures
        out@ == sha256_hash(data@),
{
    let mut hasher = Sha256::new();
    hasher.update(data);
    let result = hasher.finalize();
    let mut hash = [0u8; 32];
    hash.copy_from_slice(&result);
    hash
}

/// The message for a verifier without pins.
pub open spec fn no_pins_text() -> Seq<char> {
    "No pinned certificates configured. Cannot verify relay identity."@
}

/// The message for a certificate that matches no pin.
pub open spec fn pin_mismatch_text() -> Seq<char> {
    "Certificate fingerprint does not match any pinned hash. Possible MITM."@
}

/// Accepts exactly the certificates whose fingerprint is pinned.
#[derive(Debug)]
pub struct PinnedCertVerifier {
    pinned_hashes: Vec<[u8; 32]>,
}

impl PinnedCertVerifier {
    /// The pinned fingerprints.
    pub closed spec fn pins(&self) -> Seq<Seq<u8>> {
        Seq::new(self.pinned_hashes@.len(), |i: int| self.pinned_hashes@[i]@)
    }

    pub fn new(pinned_hashes: Vec<[u8; 32]>) -> (r: Self)
        ensures
            r.pins() == Seq::new(pinned_hashes@.len(), |i: int| pinned_hashes@[i]@),
    {
        Self { pinned_hashes }
    }

    /// The fingerprint of a certificate in its DER encoding.
    pub fn fingerprint(cert: &[u8]) -> (r: [u8; 32])
        ensures
            r@ == sha256_hash(cert@),
    {
        sha256_digest(cert)
    }

    /// Checks the certificate of a server against the pins.
    ///
    /// Fails with `no_pins_text` where nothing is pinned, so that pinning
    /// cannot be forgotten, and with `pin_mismatch_text` where the
    /// certificate's fingerprint is none of the pins.
    pub fn verify_server_cert(&self, end_entity: &[u8]) -> (r: Result<(), String>)
        ensures
            r is Ok <==> self.pins().contains(sha256_hash(end_entity@)),
            r matches Err(text) ==> text@ == if self.pins().len() == 0 {
                no_pins_text()
            } else {
                pin_mismatch_text()
            },
    {
        if self.pinned_hashes.is_empty() {
            return Err(
                String::from_str("No pinned certificates configured. Cannot verify relay identity."),
            );
        }
        let cert_hash = Self::fingerprint(end_entity);
        let mut i: usize = 0;
        while i < self.pinned_hashes.len()
            invariant
                i <= self.pinned_hashes@.len(),
                cert_hash@ == sha256_hash(end_entity@),
                forall|k: int| 0 <= k < i ==> self.pins()[k] != cert_hash@,
            decreases self.pinned_hashes@.len() - i,
        {
            if bytes_equal(self.pinned_hashes[i].as_slice(), cert_hash.as_slice()) {
                assert(self.pins()[i as int] == cert_hash@);
                return Ok(());
            }
            i += 1;
        }
        Err(
            String::from_str(
                "Certificate fingerprint does not match any pinned hash. Possible MITM.",
            ),
        )
    }
}

} // verus!
