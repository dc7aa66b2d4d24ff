//! The wall clock, read as time since the Unix epoch.
//!
//! Every decision that depends on the time is taken by a function that
//! receives the reading as an argument; the functions here only fetch it.

use std::time::{SystemTime, UNIX_EPOCH};
use vstd::prelude::*;

verus! {

/// Calls `SystemTime::now` and returns the whole seconds since the Unix
/// epoch. Nothing is claimed of the value; a clock set before 1970 reads as 0.
#[verifier::external_body]
pub(crate) fn now_secs() -> u64 {
    match SystemTime::now().duration_since(UNIX_EPOCH) {
        Ok(elapsed) => elapsed.as_secs(),
        Err(_) => 0,
    }
}

/// Calls `SystemTime::now` and returns the milliseconds since the Unix epoch,
/// cut to 64 bits. Nothing is claimed of the value; a clock set
/// before 1970 reads as 0.
#[verifier::external_body]
pub(crate) fn now_millis() -> u64 {
    match SystemTime::now().duration_since(UNIX_EPOCH) {
        Ok(elapsed) => elapsed.as_millis() as u64,
        Err(_) => 0,
    }
}

} // verus!
