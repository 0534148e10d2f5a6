//! The dice, and the random source that they are rolled with.
//!
//! The random numbers come from the `rand` crate. What this module states
//! of `rand` is believed, not proved; each such statement says so.

use vstd::prelude::*;
use rand::distributions::{Distribution, Uniform};
use rand::rngs::ThreadRng;
use crate::pair::Pair;

verus! {

/// The least number on a die.
pub const DIE_MIN: u8 = 1;

/// The greatest number on a die.
pub const DIE_MAX: u8 = 6;

/// Whether `value` is a number that a die can show.
pub open spec fn is_die(value: u8) -> bool {
    DIE_MIN <= value <= DIE_MAX
}

/// Whether both numbers of `dice` are numbers that a die can show.
pub open spec fn is_dice(dice: Pair) -> bool {
    is_die(dice.0) && is_die(dice.1)
}

/// `rand::rngs::ThreadRng`, the handle to the thread's random number
/// generator. Nothing is known of what is inside.
#[verifier::external_type_specification]
#[verifier::external_body]
pub struct ExThreadRng(rand::rngs::ThreadRng);

/// `rand::thread_rng` hands out the handle to the thread's generator.
/// Nothing is claimed of it. (It panics where the operating system gives
/// no random seed.)
pub assume_specification[ rand::thread_rng ]() -> ThreadRng
;

/// Draws one number from `rand::distributions::Uniform::new_inclusive(low,
/// high)` with `Distribution::sample`.
///
/// Believed of `rand`: the number lies between `low` and `high`, both
/// included. Which one it is depends on chance. `new_inclusive` panics
/// where `low > high`, so that is not accepted here.
#[verifier::external_body]
pub(crate) fn sample_inclusive(rng: &mut ThreadRng, low: u8, high: u8) -> (value: u8)
    requires
        low <= high,
    ensures
        low <= value <= high,
{
    Uniform::new_inclusive(low, high).sample(rng)
}

} // verus!
