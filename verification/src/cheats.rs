//! Switches that bend the rules while trying things out.

use vstd::prelude::*;

verus! {

/// The cheats that are switched on.
#[derive(Clone, Copy, Debug, PartialEq, Eq, Structural)]
pub struct Cheats {
    pub infinite_lives: bool,
    pub infinite_money: bool,
}

impl Cheats {
    /// The cheats with the given switches.
    pub fn new(infinite_lives: bool, infinite_money: bool) -> (c: Self)
        ensures
            c.infinite_lives == infinite_lives,
            c.infinite_money == infinite_money,
    {
        Self { infinite_lives, infinite_money }
    }
}

} // verus!
