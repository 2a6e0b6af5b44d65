use vstd::prelude::*;

verus! {

/// The monotonic instant of `tokio::time`, carried through the logic as an
/// opaque value.
#[verifier::external_type_specification]
#[verifier::external_body]
pub struct ExInstant(tokio::time::Instant);

/// `tokio::time::Instant::now`. It reads the clock, so nothing is claimed of
/// the result.
#[verifier::external_body]
pub fn now() -> (t: tokio::time::Instant) {
    tokio::time::Instant::now()
}

/// Whole seconds elapsed since `t`: `Instant::elapsed` followed by
/// `Duration::as_secs`. It reads the clock, so nothing is claimed of the
/// result.
#[verifier::external_body]
pub fn seconds_since(t: &tokio::time::Instant) -> (secs: u64) {
    t.elapsed().as_secs()
}

} // verus!
