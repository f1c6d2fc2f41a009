//! Wall-clock reading used to seed queue shuffling.

use vstd::prelude::*;

use crate::shuffle::FALLBACK_SEED;

verus! {

#[verifier::external_type_specification]
#[verifier::external_body]
pub struct ExSystemTime(std::time::SystemTime);

/// Calls `std::time::SystemTime::now`. Nothing is promised of the reading:
/// it is the machine's clock.
#[verifier::external_body]
fn system_now() -> std::time::SystemTime {
    std::time::SystemTime::now()
}

/// Calls `SystemTime::duration_since(UNIX_EPOCH)`: the time elapsed since the
/// epoch, `None` when the reading lies before it. Nothing is promised of the
/// duration: it comes from the machine's clock.
#[verifier::external_body]
fn since_epoch(t: &std::time::SystemTime) -> Option<std::time::Duration> {
    t.duration_since(std::time::UNIX_EPOCH).ok()
}

/// Calls `Duration::as_secs`: the whole seconds of the duration. Every `u64`
/// can come back, so nothing is stated.
#[verifier::external_body]
fn whole_secs(d: &std::time::Duration) -> u64 {
    d.as_secs()
}

/// Calls `Duration::subsec_nanos`, which its documentation says is below one
/// billion.
#[verifier::external_body]
fn sub_nanos(d: &std::time::Duration) -> (r: u32)
    ensures
        r < 1_000_000_000,
{
    d.subsec_nanos()
}

/// The seed for a clock reading: the sub-second nanoseconds xor the whole
/// seconds since the epoch, or a fixed constant when the clock reads before
/// the epoch (`None`).
pub open spec fn seed_of(reading: Option<(u64, u32)>) -> u64 {
    match reading {
        Some((secs, nanos)) => (nanos as u64) ^ secs,
        None => FALLBACK_SEED,
    }
}

/// Computes [`seed_of`] for a clock reading of (whole seconds, sub-second
/// nanoseconds) since the epoch.
pub fn seed_from(reading: Option<(u64, u32)>) -> (r: u64)
    ensures
        r == seed_of(reading),
{
    match reading {
        Some((secs, nanos)) => (nanos as u64) ^ secs,
        None => FALLBACK_SEED,
    }
}

/// Seed for shuffling, taken from the machine clock (see [`seed_from`]).
pub fn clock_seed() -> (r: u64)
    ensures
        exists|reading: Option<(u64, u32)>|
            #![trigger seed_of(reading)]
            (reading matches Some(p) ==> p.1 < 1_000_000_000) && r == seed_of(reading),
{
    let now = system_now();
    let reading = match since_epoch(&now) {
        Some(d) => Some((whole_secs(&d), sub_nanos(&d))),
        None => None,
    };
    seed_from(reading)
}

} // verus!
