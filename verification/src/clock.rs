//! Readings of the clock and of the random number generator.

use rand::seq::SliceRandom;
use vstd::prelude::*;

verus! {

#[verifier::external_type_specification]
#[verifier::external_body]
pub struct ExInstant(std::time::Instant);

/// A reading of the monotonic clock (`Instant::now`); nothing is promised
/// of it here.
#[verifier::external_body]
pub(crate) fn monotonic_now() -> std::time::Instant {
    std::time::Instant::now()
}

/// Milliseconds elapsed on the monotonic clock since `origin`
/// (`Instant::elapsed`), `u64::MAX` beyond that; nothing is promised of the
/// value here.
#[verifier::external_body]
pub(crate) fn millis_since(origin: &std::time::Instant) -> u64 {
    u64::try_from(origin.elapsed().as_millis()).unwrap_or(u64::MAX)
}

/// Seconds since the Unix epoch (`SystemTime::now`); nothing is promised
/// of the value.
#[verifier::external_body]
pub(crate) fn now_secs() -> u64 {
    match std::time::SystemTime::now().duration_since(std::time::UNIX_EPOCH) {
        Ok(d) => d.as_secs(),
        Err(_) => 0,
    }
}

/// One element of `candidates` picked by `rand`'s `SliceRandom::choose`
/// with the thread-local generator: some element of the list.
#[verifier::external_body]
pub(crate) fn choose_one(candidates: &Vec<usize>) -> (r: usize)
    requires
        candidates@.len() > 0,
    ensures
        candidates@.contains(r),
{
    match candidates.choose(&mut rand::thread_rng()) {
        Some(x) => *x,
        None => 0,
    }
}

/// A value drawn by `rand::random::<usize>()`; any value may come.
#[verifier::external_body]
pub(crate) fn random_usize() -> usize {
    rand::random::<usize>()
}

/// A value drawn by `rand::random::<u64>()`; any value may come.
#[verifier::external_body]
pub(crate) fn random_u64() -> u64 {
    rand::random::<u64>()
}

} // verus!

verus! {

/// Twenty-four bytes drawn by `rand::random::<[u8; 24]>()`; any bytes may
/// come.
#[verifier::external_body]
pub(crate) fn random_key_bytes() -> [u8; 24] {
    rand::random::<[u8; 24]>()
}

} // verus!
