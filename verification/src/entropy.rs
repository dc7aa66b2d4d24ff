//! Draws from the operating system's random source.
//!
//! Nothing is promised of the values drawn beyond their size: every function
//! of the library that consumes them is proved for any value they may take.

use rand_core::{OsRng, RngCore};
use vstd::prelude::*;

verus! {

/// Calls `OsRng::fill_bytes` on a fresh buffer of `n` bytes.
///
/// Trusted: the buffer that comes back holds `n` bytes. Which bytes is left
/// open. `fill_bytes` panics when the operating system refuses to give
/// entropy.
#[verifier::external_body]
pub(crate) fn random_bytes(n: usize) -> (out: Vec<u8>)
    ensures
        out@.len() == n,
{
    let mut out = vec![0u8; n];
    OsRng.fill_bytes(&mut out);
    out
}

/// Calls `OsRng::next_u32`. Nothing is claimed of the value.
#[verifier::external_body]
pub(crate) fn random_u32() -> u32 {
    OsRng.next_u32()
}

/// Calls `OsRng::next_u64`. Nothing is claimed of the value.
#[verifier::external_body]
pub(crate) fn random_u64() -> u64 {
    OsRng.next_u64()
}

} // verus!
