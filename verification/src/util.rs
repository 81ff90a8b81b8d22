//! The host's clock.

use vstd::prelude::*;

use crate::external::time_since_unix_epoch;

verus! {

/// The milliseconds since the Unix epoch by the system clock; `None` where
/// the clock reads earlier than the epoch. The value comes from the clock,
/// so nothing more is stated of it.
pub fn now() -> (millis: Option<u128>) {
    match time_since_unix_epoch() {
        Some(elapsed) => Some(elapsed.as_millis()),
        None => None,
    }
}

} // verus!
