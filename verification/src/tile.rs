//! Tiles: what one grid cell holds.

use crate::elements::combined;
use crate::elements::difference_of;
use crate::elements::lemma_difference_of_view;
use crate::elements::lemma_sum_of_view;
use crate::elements::reduced;
use crate::elements::sum_of;
use crate::elements::Element;
use crate::elements::ElementalAffliction;
use crate::structures::Structure;
use vstd::prelude::*;

verus! {

/// The terrain of a tile.
#[derive(Copy, Clone, PartialEq, Eq, Debug, Structural)]
pub enum TileType {
    Rock,
    Water,
    Air,
    Fire,
    Barren,
}

/// What it costs a walker to step onto a tile of type `t`.
pub open spec fn step_cost(t: TileType) -> nat {
    match t {
        TileType::Water | TileType::Fire => 100,
        TileType::Air => 9999,
        TileType::Barren => 1,
        TileType::Rock => 5,
    }
}

impl TileType {
    /// Every tile type, in declaration order.
    pub fn all() -> (r: [TileType; 5])
        ensures
            r@ == seq![
                TileType::Rock,
                TileType::Water,
                TileType::Air,
                TileType::Fire,
                TileType::Barren,
            ],
    {
        let r = [TileType::Rock, TileType::Water, TileType::Air, TileType::Fire, TileType::Barren];
        assert(r@ =~= seq![
            TileType::Rock,
            TileType::Water,
            TileType::Air,
            TileType::Fire,
            TileType::Barren,
        ]);
        r
    }

    pub open spec fn spec_display_name(t: TileType) -> Seq<char> {
        match t {
            TileType::Rock => "Rock"@,
            TileType::Water => "Water"@,
            TileType::Air => "Air"@,
            TileType::Fire => "Fire"@,
            TileType::Barren => "Barren"@,
        }
    }

    /// The label shown for the tile type.
    pub fn display_name(&self) -> (r: &'static str)
        ensures
            r@ == Self::spec_display_name(*self),
    {
        match *self {
            TileType::Rock => "Rock",
            TileType::Water => "Water",
            TileType::Air => "Air",
            TileType::Fire => "Fire",
            TileType::Barren => "Barren",
        }
    }

    /// What it costs a walker to step onto a tile of this type. Every cost is
    /// at least one; void is priced so high that a route avoids it wherever
    /// it can.
    pub fn astar_cost(&self) -> (c: u32)
        ensures
            c == step_cost(*self),
            1 <= c <= 9999,
    {
        match *self {
            TileType::Water | TileType::Fire => 100,
            TileType::Air => 9999,
            TileType::Barren => 1,
            _ => 5,
        }
    }
}

/// One grid cell: its terrain, what is built on it, and the elemental charge
/// it carries. A tile without an affliction carries no charge at all.
#[derive(Copy, Clone, Debug)]
pub struct Tile {
    pub tile_type: TileType,
    pub structure: Structure,
    pub affliction: Option<ElementalAffliction>,
}

/// The tile every cell starts as.
pub open spec fn blank_tile() -> Tile {
    Tile { tile_type: TileType::Barren, structure: Structure::Empty, affliction: None }
}

/// The affliction a tile carries; a tile without one carries the empty one.
pub open spec fn carried(t: Tile) -> ElementalAffliction {
    match t.affliction {
        Some(a) => a,
        None => ElementalAffliction::spec_empty(),
    }
}

/// The charge table of a tile.
pub open spec fn charge_of(t: Tile) -> Map<Element, nat> {
    carried(t)@
}

/// The tile after `a` was added to its charge.
pub open spec fn charged_tile(t: Tile, a: ElementalAffliction) -> Tile {
    Tile { tile_type: t.tile_type, structure: t.structure, affliction: Some(sum_of(carried(t), a)) }
}

/// The tile after `a` was taken from its charge.
pub open spec fn drained_tile(t: Tile, a: ElementalAffliction) -> Tile {
    Tile {
        tile_type: t.tile_type,
        structure: t.structure,
        affliction: Some(difference_of(carried(t), a)),
    }
}

/// Adding to a tile's charge combines the two tables; taking from it reduces
/// the tile's table. A tile without an affliction counts as empty.
pub proof fn lemma_tile_charge(t: Tile, a: ElementalAffliction)
    ensures
        charge_of(charged_tile(t, a)) == combined(charge_of(t), a@),
        charge_of(drained_tile(t, a)) == reduced(charge_of(t), a@),
        t.affliction is None ==> charge_of(t) == Map::<Element, nat>::empty(),
{
    lemma_sum_of_view(carried(t), a);
    lemma_difference_of_view(carried(t), a);
    ElementalAffliction::lemma_spec_empty();
}

impl Tile {
    /// A barren tile with nothing built on it and no charge.
    pub fn blank() -> (t: Tile)
        ensures
            t == blank_tile(),
    {
        Tile { tile_type: TileType::Barren, structure: Structure::Empty, affliction: None }
    }
}

} // verus!
