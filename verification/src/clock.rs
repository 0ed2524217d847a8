//! Trusted declarations for the monotonic clock.
//!
//! The dispatcher reads the clock only to fill the advisory
//! `execution_time_ms` field of a successful response.  A clock reading
//! depends on the machine and the moment, so nothing is assumed about the
//! values: the contracts elsewhere constrain the field only on failure
//! paths, where it is a constant zero.

use vstd::prelude::*;

verus! {

/// `std::time::Instant`, declared opaquely so a clock reading can be
/// carried through verified code.
#[verifier::external_type_specification]
#[verifier::external_body]
pub struct ExInstant(std::time::Instant);

/// Relies on `std::time::Instant::now`: an opaque reading of the monotonic
/// clock.  The value depends on the moment of the call, so nothing is
/// assumed of it.
pub assume_specification[ std::time::Instant::now ]() -> std::time::Instant;

/// Relies on `std::time::Instant::elapsed`: the span between `start` and
/// now.  The value depends on the clock, so nothing is assumed of it.
pub assume_specification[ std::time::Instant::elapsed ](start: &std::time::Instant)
    -> std::time::Duration;

/// Relies on `std::time::Duration::as_millis`: the span expressed in whole
/// milliseconds.  Nothing is assumed of the value.
pub assume_specification[ std::time::Duration::as_millis ](d: &std::time::Duration) -> u128;

} // verus!
