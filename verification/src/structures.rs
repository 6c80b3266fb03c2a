//! Structures that can stand on a tile.

use vstd::prelude::*;

verus! {

/// What is built on a tile; `Empty` where nothing is.
#[derive(Clone, Copy, Debug, PartialEq, Eq, Structural)]
pub enum Structure {
    Empty,
    Barricade,
}

impl Structure {
    /// Every structure, in declaration order.
    pub fn all() -> (r: [Self; 2])
        ensures
            r@ == seq![Structure::Empty, Structure::Barricade],
    {
        let r = [Structure::Empty, Structure::Barricade];
        assert(r@ =~= seq![Structure::Empty, Structure::Barricade]);
        r
    }
}

} // verus!
