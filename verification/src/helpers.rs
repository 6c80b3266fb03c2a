//! Grid coordinates.

use vstd::prelude::*;
use vstd::std_specs::convert::FromSpecImpl;
use vstd::std_specs::ops::AddSpecImpl;

verus! {

/// A cell position on the grid: column `x`, row `y`.
#[derive(Copy, Clone, PartialEq, Debug, Hash, Eq, Ord, PartialOrd, Structural)]
pub struct Coordinate {
    pub x: usize,
    pub y: usize,
}

impl From<(usize, usize)> for Coordinate {
    fn from(item: (usize, usize)) -> (r: Self) {
        Self { x: item.0, y: item.1 }
    }
}

impl FromSpecImpl<(usize, usize)> for Coordinate {
    open spec fn obeys_from_spec() -> bool {
        true
    }

    open spec fn from_spec(item: (usize, usize)) -> Self {
        Coordinate { x: item.0, y: item.1 }
    }
}

impl core::ops::Add for Coordinate {
    type Output = Self;

    fn add(self, other: Self) -> (r: Self) {
        Self { x: self.x + other.x, y: self.y + other.y }
    }
}

impl AddSpecImpl for Coordinate {
    open spec fn obeys_add_spec() -> bool {
        true
    }

    open spec fn add_req(self, other: Self) -> bool {
        self.x + other.x <= usize::MAX && self.y + other.y <= usize::MAX
    }

    open spec fn add_spec(self, other: Self) -> Self {
        Coordinate { x: (self.x + other.x) as usize, y: (self.y + other.y) as usize }
    }
}

/// The distance between two integers.
pub open spec fn gap(a: int, b: int) -> int {
    if a >= b {
        a - b
    } else {
        b - a
    }
}

/// The number of single steps along the axes that lead from `a` to `b`.
pub open spec fn manhattan(a: Coordinate, b: Coordinate) -> int {
    gap(a.x as int, b.x as int) + gap(a.y as int, b.y as int)
}

/// The neighbours of `c` along the axes that a `usize` pair can name, in the
/// order east, south, west, north (with `y` growing southwards).
pub open spec fn cardinals_of(c: Coordinate) -> Seq<Coordinate> {
    let east = if c.x < usize::MAX {
        seq![Coordinate { x: (c.x + 1) as usize, y: c.y }]
    } else {
        seq![]
    };
    let south = if c.y < usize::MAX {
        seq![Coordinate { x: c.x, y: (c.y + 1) as usize }]
    } else {
        seq![]
    };
    let west = if c.x > 0 {
        seq![Coordinate { x: (c.x - 1) as usize, y: c.y }]
    } else {
        seq![]
    };
    let north = if c.y > 0 {
        seq![Coordinate { x: c.x, y: (c.y - 1) as usize }]
    } else {
        seq![]
    };
    east + south + west + north
}

impl Coordinate {
    /// The Manhattan distance to `other`, as far as a `u32` holds it: of a
    /// greater distance the low 32 bits are kept.
    pub fn distance(&self, other: &Coordinate) -> (d: u32)
        requires
            manhattan(*self, *other) <= usize::MAX,
        ensures
            d == manhattan(*self, *other) % 0x1_0000_0000,
            manhattan(*self, *other) <= u32::MAX ==> d == manhattan(*self, *other),
    {
        let dx: usize = if self.x >= other.x {
            self.x - other.x
        } else {
            other.x - self.x
        };
        let dy: usize = if self.y >= other.y {
            self.y - other.y
        } else {
            other.y - self.y
        };
        let sum: u64 = (dx + dy) as u64;
        let d = #[verifier::truncate]
        (sum as u32);
        assert(d == sum % 0x1_0000_0000u64) by (bit_vector)
            requires
                d == sum as u32,
        ;
        d
    }

    /// The Manhattan distance to `other`, or `None` where it does not fit in
    /// a `u32`.
    pub fn checked_distance(&self, other: &Coordinate) -> (d: Option<u32>)
        ensures
            d == (if manhattan(*self, *other) <= u32::MAX {
                Some(manhattan(*self, *other) as u32)
            } else {
                None
            }),
    {
        let dx: u128 = if self.x >= other.x {
            (self.x - other.x) as u128
        } else {
            (other.x - self.x) as u128
        };
        let dy: u128 = if self.y >= other.y {
            (self.y - other.y) as u128
        } else {
            (other.y - self.y) as u128
        };
        if dx + dy <= u32::MAX as u128 {
            Some((dx + dy) as u32)
        } else {
            None
        }
    }

    /// The neighbours along the axes, without regard to any grid's bounds.
    pub fn cardinals(&self) -> (result: Vec<Self>)
        ensures
            result@ == cardinals_of(*self),
    {
        let mut result: Vec<Coordinate> = Vec::new();
        if self.x < usize::MAX {
            result.push(Coordinate { x: self.x + 1, y: self.y });
        }
        if self.y < usize::MAX {
            result.push(Coordinate { x: self.x, y: self.y + 1 });
        }
        if self.x > 0 {
            result.push(Coordinate { x: self.x - 1, y: self.y });
        }
        if self.y > 0 {
            result.push(Coordinate { x: self.x, y: self.y - 1 });
        }
        assert(result@ =~= cardinals_of(*self));
        result
    }
}

} // verus!
