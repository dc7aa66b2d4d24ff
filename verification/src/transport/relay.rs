//! The short-lived token with which a peer authenticates to a relay.

use crate::clock::now_secs;
use crate::identity::{blake3_digest, blake3_hash, hex_encode, hex_lower, TaiorAddress};
use vstd::bytes::{spec_u64_to_le_bytes, u64_to_le_bytes};
use vstd::prelude::*;
use vstd::utf8::encode_utf8;

verus! {

/// How long a token is valid, in seconds.
pub const TOKEN_LIFETIME_SECS: u64 = 3600;

/// The token that is issued to `address` at the time `now`: the hex digits of
/// the hash of the address text, in UTF-8, followed by the time, as eight
/// bytes with the lowest first.
pub open spec fn token_text(address: Seq<char>, now: u64) -> Seq<char> {
    hex_lower(blake3_hash(encode_utf8(address) + spec_u64_to_le_bytes(now)))
}

/// A token and the time at which it stops being valid, in seconds.
#[derive(Debug)]
pub struct RelayAuth {
    pub token: String,
    pub expires_at: u64,
}

impl Clone for RelayAuth {
    fn clone(&self) -> (r: Self)
        ensures
            r == *self,
    {
        RelayAuth { token: self.token.clone(), expires_at: self.expires_at }
    }
}

impl RelayAuth {
    /// A token for `address`, issued now and valid for an hour.
    pub fn generate(address: &TaiorAddress) -> (r: Self)
        ensures
            exists|now: u64| #[trigger] r.issued(address@, now),
    {
        let now = now_secs();
        Self::generate_at(address, now)
    }

    /// The token was issued to the address with the text `address` at the
    /// time `now`; it is valid for an hour, or until the end of time where
    /// that comes first.
    pub open spec fn issued(&self, address: Seq<char>, now: u64) -> bool {
        &&& self.token@ == token_text(address, now)
        &&& self.expires_at == if now + TOKEN_LIFETIME_SECS <= u64::MAX {
            (now + TOKEN_LIFETIME_SECS) as u64
        } else {
            u64::MAX
        }
    }

    /// A token for `address`, issued at the time `now`, in seconds.
    pub fn generate_at(address: &TaiorAddress, now: u64) -> (r: Self)
        ensures
            r.issued(address@, now),
    {
        let mut input = vstd::slice::slice_to_vec(address.as_str().as_bytes());
        let stamp = u64_to_le_bytes(now);
        let mut i: usize = 0;
        let ghost head = input@;
        proof {
            vstd::bytes::lemma_auto_spec_u64_to_from_le_bytes();
        }
        while i < stamp.len()
            invariant
                i <= stamp@.len(),
                input@ == head + stamp@.subrange(0, i as int),
            decreases stamp@.len() - i,
        {
            input.push(stamp[i]);
            i += 1;
        }
        assert(stamp@.subrange(0, stamp@.len() as int) =~= stamp@);
        let hash = blake3_digest(input.as_slice());
        let token = hex_encode(hash.as_slice());
        let expires_at = if now <= u64::MAX - TOKEN_LIFETIME_SECS {
            now + TOKEN_LIFETIME_SECS
        } else {
            u64::MAX
        };
        Self { token, expires_at }
    }

    /// Whether the token is still valid by the clock's present reading. A
    /// token that has expired at time zero is never valid.
    pub fn is_valid(&self) -> (r: bool)
        ensures
            exists|now: u64| r == #[trigger] self.valid_at(now),
            self.expires_at == 0 ==> !r,
    {
        let now = now_secs();
        self.is_valid_at(now)
    }

    /// Whether the token is still valid at the time `now`: it expires
    /// later.
    pub open spec fn valid_at(&self, now: u64) -> bool {
        now < self.expires_at
    }

    /// Whether the token is still valid at the time `now`, in seconds.
    pub fn is_valid_at(&self, now: u64) -> (r: bool)
        ensures
            r == self.valid_at(now),
    {
        now < self.expires_at
    }
}

} // verus!
