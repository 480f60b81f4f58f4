//! The clock by which a time-bounded store ages its entries.
//!
//! Nothing here is proved: these are the functions of `std::time` that the
//! store calls, declared so that the verifier lets it call them. None of
//! them is given a postcondition, so what a store does with a reading of the
//! clock is proved for every reading.
use std::time::{Duration, Instant};
use vstd::prelude::*;

verus! {

/// `std::time::Instant`, a point in time on the monotonic clock of the
/// machine. The proofs see nothing inside it.
#[verifier::external_type_specification]
#[verifier::external_body]
pub struct ExInstant(Instant);

/// `Instant::now` reads the monotonic clock. Nothing is claimed of the
/// instant that comes back.
pub assume_specification[ Instant::now ]() -> Instant;

/// `Instant::saturating_duration_since` gives the time from `earlier` to
/// `later`, and no time at all if `earlier` is the later one of the two; it
/// does not panic. Nothing is claimed of the duration that comes back.
pub assume_specification[ Instant::saturating_duration_since ](
    later: &Instant,
    earlier: Instant,
) -> Duration;

/// `Duration::as_nanos` gives a duration in whole nanoseconds. Nothing is
/// claimed of the number: to the proofs, any reading of the clock may follow
/// any other.
pub assume_specification[ Duration::as_nanos ](duration: &Duration) -> u128;

} // verus!
