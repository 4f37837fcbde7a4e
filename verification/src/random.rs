//! The source of the random numbers that give a ball its first direction.

use rand::rngs::StdRng;
use rand::{Rng, SeedableRng};
use vstd::prelude::*;

verus! {

/// `rand::rngs::StdRng`, the generator of the `rand` crate. Nothing of its
/// state is visible here.
#[verifier::external_type_specification]
#[verifier::external_body]
pub struct ExStdRng(StdRng);

/// The source of random numbers of a game.
pub struct Random(pub StdRng);

impl Random {
    /// A source started from `seed`, by `StdRng::seed_from_u64`. Which
    /// numbers it will give is left open: `rand` does not promise the same
    /// ones from one release to the next.
    #[verifier::external_body]
    pub fn new_with_seed(seed: u64) -> (random: Random) {
        Random(StdRng::seed_from_u64(seed))
    }

    /// Draws a number from `low` up to, but not including, `high`, by
    /// `Rng::gen_range` on the half-open range of the two. The range must not
    /// be empty: `gen_range` panics on an empty one. All that is claimed of
    /// the number is that it lies in the range.
    #[verifier::external_body]
    pub(crate) fn gen_range(&mut self, low: i64, high: i64) -> (value: i64)
        requires
            low < high,
        ensures
            low <= value < high,
    {
        self.0.gen_range(low..high)
    }
}

} // verus!
