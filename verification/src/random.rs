//! The source of randomness: the thread-local generator of the `rand` crate.
//!
//! What the generator returns is not proved here. The contracts below state
//! only what holds of every outcome; the drawing rules are verified for each
//! value that may come back. The generator seeds itself from the operating
//! system when a thread first uses it, and again each time it has given out
//! 64 KiB or the process has forked; it panics if the system gives it no
//! seed, at the first use or at a later one.

use rand::seq::SliceRandom;
use rand::Rng;
use vstd::prelude::*;

verus! {

/// Calls `rand::Rng::gen_range` on `rand::thread_rng()` with the range
/// `0..bound`.
///
/// Believed of it: the number returned lies in the range. The range must not
/// be empty, since `gen_range` panics on an empty one.
#[verifier::external_body]
pub(crate) fn random_index(bound: usize) -> (index: usize)
    requires
        bound > 0,
    ensures
        index < bound,
{
    rand::thread_rng().gen_range(0..bound)
}

/// Calls `rand::seq::SliceRandom::choose` on the strings of `pool`, with
/// `rand::thread_rng()`.
///
/// Believed of it: an empty pool gives `None`; any other pool gives a
/// reference to the string at one of its positions.
#[verifier::external_body]
pub(crate) fn random_item(pool: &Vec<String>) -> (item: Option<&String>)
    ensures
        match item {
            Some(string) => exists|at: int| 0 <= at < pool.len() && *string == #[trigger] pool[at],
            None => pool.len() == 0,
        },
{
    pool.choose(&mut rand::thread_rng())
}

} // verus!
