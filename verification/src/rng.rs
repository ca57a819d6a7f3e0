//! The one source of randomness the game uses, behind a single trusted
//! specification; everything built on it is verified for every value the
//! generator may hand back.

use vstd::prelude::*;

verus! {

/// Relies on rand::random: it draws a value of the requested type from the
/// thread-local generator. Nothing can be promised of a random value, so
/// this states nothing of the result.
pub assume_specification<T>[ rand::random::<T> ]() -> (r: T)
    where
        rand::distributions::Standard: rand::distributions::Distribution<T>,
;

/// Draws a number below `n`. Which one comes back is not specified: callers
/// must be correct for every outcome.
pub fn sample_below(n: usize) -> (r: usize)
    requires
        n >= 1,
    ensures
        r < n,
{
    let raw: u32 = rand::random::<u32>();
    (raw as usize) % n
}

} // verus!
