//! Cover traffic by coin toss: a decoy is sent with a fixed probability.
//!
//! The probability is held in thousandths, and a draw `d` of 32 random bits
//! counts as the fraction `d / (2^32 - 1)`: a decoy is due when that fraction
//! lies below the ratio.

use crate::aead::{sealable, TAG_LEN};
use crate::entropy::{random_bytes, random_u32};
use crate::packet::{padded_len, TaiorPacket};
use vstd::prelude::*;

verus! {

/// Length of the random payload of a decoy, in bytes.
pub const COVER_PAYLOAD_LEN: usize = 16;

/// Decides by coin toss whether a decoy accompanies a send, and makes
/// decoys.
pub struct CoverTrafficGenerator {
    enabled: bool,
    ratio_permille: u32,
}

impl CoverTrafficGenerator {
    /// Whether decoys are sent at all.
    pub closed spec fn enabled(&self) -> bool {
        self.enabled
    }

    /// The probability of a decoy, in thousandths.
    pub closed spec fn ratio_permille(&self) -> u32 {
        self.ratio_permille
    }

    /// Whether a decoy is due for the draw `draw`.
    pub open spec fn sends_on(&self, draw: u32) -> bool {
        self.enabled() && draw * 1000 < self.ratio_permille() * u32::MAX
    }

    pub fn new(enabled: bool, ratio_permille: u32) -> (r: Self)
        ensures
            r.enabled() == enabled,
            r.ratio_permille() == ratio_permille,
    {
        Self { enabled, ratio_permille }
    }

    /// Tosses the coin: the answer is that of some draw. A generator that is
    /// switched off, or whose ratio is zero, never sends.
    pub fn should_send_cover(&self) -> (r: bool)
        ensures
            exists|draw: u32| r == #[trigger] self.sends_on(draw),
            !self.enabled() ==> !r,
            self.ratio_permille() == 0 ==> !r,
    {
        if !self.enabled {
            assert(!self.sends_on(0));
            return false;
        }
        let draw = random_u32();
        self.should_send_cover_with(draw)
    }

    /// Whether a decoy is due for the draw `draw`.
    pub fn should_send_cover_with(&self, draw: u32) -> (r: bool)
        ensures
            r == self.sends_on(draw),
    {
        if !self.enabled {
            return false;
        }
        let left: u64 = draw as u64 * 1000;
        let right: u64 = self.ratio_permille as u64 * u32::MAX as u64;
        left < right
    }

    /// A decoy: 16 random bytes, padded and sealed as a real payload is, and
    /// marked as cover.
    ///
    /// Fails, as `TaiorPacket::new` does, exactly when the cipher refuses the
    /// padded length.
    pub fn generate_cover_packet(&self, padding_size: usize, ttl: u8) -> (r: Result<
        TaiorPacket,
        String,
    >)
        requires
            padded_len(COVER_PAYLOAD_LEN as nat, padding_size as nat) + TAG_LEN <= usize::MAX,
        ensures
            r is Ok <==> sealable(
                padded_len(COVER_PAYLOAD_LEN as nat, padding_size as nat) as int,
            ),
            r matches Ok(p) ==> {
                &&& p.is_cover
                &&& p.ttl == ttl
                &&& p.ikm@.len() == crate::packet::IKM_LEN
                &&& p.encrypted_payload@.len() == padded_len(
                    COVER_PAYLOAD_LEN as nat,
                    padding_size as nat,
                ) + TAG_LEN
                &&& exists|payload: Seq<u8>|
                    payload.len() == COVER_PAYLOAD_LEN && #[trigger] p.built_from(
                        payload,
                        padding_size as nat,
                    )
            },
            r matches Err(e) ==> e@ == crate::packet::encrypt_error_text(),
    {
        let dummy_payload = random_bytes(COVER_PAYLOAD_LEN);
        TaiorPacket::new(dummy_payload.as_slice(), ttl, padding_size, true)
    }
}

impl Default for CoverTrafficGenerator {
    /// Switched off, with a ratio of three in ten.
    fn default() -> (r: Self)
        ensures
            !r.enabled(),
            r.ratio_permille() == 300,
    {
        Self::new(false, 300)
    }
}

} // verus!
