//! The die of the game.

use vstd::prelude::*;
use rand::Rng;
use crate::game::Game;

verus! {

/// Draws a number with `rand::Rng::gen_range` from the generator that
/// `rand::thread_rng` keeps for the current thread.
///
/// Believed of it, and not proved: the number drawn is at least `low` and
/// less than `high`. Which number it is depends on chance, so nothing more
/// is said of it. The call panics where `low` is not below `high`, which the
/// precondition rules out, and where the operating system cannot seed the
/// generator.
#[verifier::external_body]
fn gen_range(low: usize, high: usize) -> (drawn: usize)
    requires
        low < high,
    ensures
        low <= drawn < high,
{
    rand::thread_rng().gen_range(low, high)
}

impl Game {
    /// Throws the die: a number from 1 to 6, both included.
    pub fn roll_dice(&self) -> (thrown: usize)
        ensures
            1 <= thrown <= 6,
    {
        gen_range(1, 6 + 1)
    }
}

} // verus!
