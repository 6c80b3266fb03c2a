//! Signed board coordinates.

use vstd::prelude::*;

verus! {

/// A position on a small board. Either component may be negative, so that an
/// off-board request can be represented and rejected.
#[derive(Clone, Copy, Debug, PartialEq, Eq, Structural)]
pub struct Coordinate {
    pub x: i32,
    pub y: i32,
}

impl Coordinate {
    pub fn new(x: i32, y: i32) -> (c: Self)
        ensures
            c.x == x,
            c.y == y,
    {
        Self { x, y }
    }
}

} // verus!
