//! What the interpreter takes from its host: the wall clock and a source of
//! random bytes. The declarations here are believed, not proved; each says
//! what is assumed.

use rand::Rng;
use vstd::prelude::*;

verus! {

/// A point in time on the host's monotonic clock. Its contents are opaque
/// to the proofs.
#[verifier::external_type_specification]
#[verifier::external_body]
pub struct ExInstant(std::time::Instant);

/// `std::time::Instant::now`: the current point in time. Nothing is
/// assumed of it.
pub assume_specification[ std::time::Instant::now ]() -> (t: std::time::Instant)
;

/// `std::time::Instant::saturating_duration_since`: the time from
/// `earlier` to `t`, or zero where `earlier` is the later of the two. It
/// never fails; nothing else is assumed of it.
pub assume_specification[ std::time::Instant::saturating_duration_since ](
    t: &std::time::Instant,
    earlier: std::time::Instant,
) -> (d: core::time::Duration)
;

/// `core::time::Duration::as_nanos`: a duration as a whole number of
/// nanoseconds. Nothing is assumed of the number.
pub assume_specification[ core::time::Duration::as_nanos ](d: &core::time::Duration) -> (n: u128)
;

/// `rand::Rng::gen` on `rand::thread_rng()`: one byte from the thread's
/// random number generator, each of the 256 values equally likely. Any
/// byte may come back, so nothing is assumed of it. The generator seeds
/// itself from the operating system on first use and gives up only where
/// the system has no entropy to offer.
#[verifier::external_body]
pub(crate) fn random_byte() -> (b: u8) {
    rand::thread_rng().gen::<u8>()
}

/// The nanoseconds that have passed on the host's clock since `epoch`.
pub(crate) fn nanos_since(epoch: &std::time::Instant) -> (n: u128) {
    let now = std::time::Instant::now();
    let elapsed = now.saturating_duration_since(*epoch);
    elapsed.as_nanos()
}

} // verus!
