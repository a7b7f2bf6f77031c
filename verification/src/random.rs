//! Bounded random draws for the synthetic fallback paths.
//!
//! When a telemetry source is unavailable, the monitors synthesize bounded
//! readings.  The draw itself comes from the `rand` crate and nothing is
//! assumed about its value; the reduction into a caller-supplied range is
//! verified here.

use vstd::prelude::*;

verus! {

/// Relies on rand::random: draws one value of any type the standard
/// distribution covers.  The value depends on a per-thread generator, so
/// nothing is promised of it.
pub assume_specification<T>[ rand::random::<T> ]() -> (r: T)
    where
        rand::distributions::Standard: rand::distributions::Distribution<T>,
;

/// A random draw reduced into `[0, bound]`.
pub fn random_up_to(bound: u32) -> (r: u32)
    requires
        bound < u32::MAX,
    ensures
        r <= bound,
{
    let x: u32 = rand::random::<u32>();
    x % (bound + 1)
}

} // verus!
