//! Trusted boundary to the monotonic clock.
//!
//! The bucket's arithmetic is verified over plain millisecond counts; these
//! wrappers are the only place where real time enters. Nothing useful can be
//! promised of a clock reading, so the verified code states what holds of
//! every value the wrappers may hand back.

use std::time::Instant;
use vstd::prelude::*;

verus! {

/// Declares `std::time::Instant` so that the bucket can hold its clock anchor.
/// The value is opaque to the verifier.
#[verifier::external_type_specification]
#[verifier::external_body]
pub struct ExInstant(Instant);

/// Relies on `Instant::now`: reads the monotonic clock. The value depends on
/// when the call happens, so nothing is promised of it.
#[verifier::external_body]
pub(crate) fn instant_now() -> Instant {
    Instant::now()
}

/// Relies on `Instant::checked_sub`: steps `t` back by `ms` milliseconds, or
/// yields `None` when the clock cannot represent a time that far in the past.
/// Which positive offsets are representable depends on the platform, so only
/// the zero step is promised: subtracting a zero duration yields `t` itself,
/// which is always representable.
#[verifier::external_body]
pub(crate) fn instant_sub_ms(t: &Instant, ms: u64) -> (r: Option<Instant>)
    ensures
        ms == 0 ==> r is Some,
{
    t.checked_sub(std::time::Duration::from_millis(ms))
}

/// Relies on `Instant::elapsed`: the whole milliseconds since `origin`,
/// saturating at `u64::MAX`. `Instant::elapsed` never panics (time since a
/// later instant saturates to zero). The value depends on when the call
/// happens, so nothing is promised of it.
#[verifier::external_body]
pub(crate) fn millis_since(origin: &Instant) -> u64 {
    u64::try_from(origin.elapsed().as_millis()).unwrap_or(u64::MAX)
}

} // verus!
