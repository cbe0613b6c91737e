use vstd::prelude::*;
use std::time::{Duration, Instant};

verus! {

#[verifier::external_type_specification]
#[verifier::external_body]
pub struct ExInstant(Instant);

/// `Instant::now`: the current instant of the monotonic clock. Nothing is claimed
/// of the value, which depends on the time of the call.
#[verifier::external_body]
pub(crate) fn instant_now() -> (r: Instant) {
    Instant::now()
}

/// `Instant::elapsed`: the time that passed since `start`. Nothing is claimed of the
/// value, which depends on the time of the call.
#[verifier::external_body]
pub(crate) fn instant_elapsed(start: &Instant) -> (r: Duration) {
    start.elapsed()
}

} // verus!
