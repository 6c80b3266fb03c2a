//! Diffusion: burning tiles hand their fire to the tiles around them, one
//! unit per neighbour and never more than they hold.

use crate::elements::amount_of;
use crate::elements::Element;
use crate::elements::ElementalAffliction;
use crate::map::coord_at;
use crate::map::indices_of;
use crate::map::lemma_index_round_trip;
use crate::map::moore_neighbors;
use crate::map::GridMap;
use crate::messages::EffectBus;
use crate::messages::Message;
use crate::messages::Payload;
use crate::messages::Sender;
use crate::messages::Target;
use crate::tile::charge_of;
use crate::tile::Tile;
use crate::tile::TileType;
use vstd::prelude::*;

verus! {

/// The fire that a tile holds: what it can spend on spreading.
pub open spec fn fuel_of(t: Tile) -> nat {
    amount_of(charge_of(t), Element::Fire)
}

/// The tiles that the tile `idx` spreads to: its neighbours in the grid,
/// along the axes and the diagonals, as many of the first of them as it has
/// fuel for.
pub open spec fn spread_targets(dims: (usize, usize), cells: Seq<Tile>, idx: int) -> Seq<usize> {
    let around = indices_of(dims, moore_neighbors(dims, coord_at(dims, idx)));
    if fuel_of(cells[idx]) < around.len() {
        around.take(fuel_of(cells[idx]) as int)
    } else {
        around
    }
}

/// The message that gives one unit of fire from the tile `from` to the tile
/// `to`.
pub open spec fn spark(from: usize, to: usize) -> Message {
    Message {
        sender: Some(Sender(from)),
        target: Some(Target(to)),
        payload: Payload::ApplyElement(ElementalAffliction::spec_single(Element::Fire, 1)),
        handled: false,
    }
}

/// The message that takes the `spent` units of fire from the tile `from`
/// that it gave away.
pub open spec fn burn_off(from: usize, spent: u32) -> Message {
    Message {
        sender: Some(Sender(from)),
        target: Some(Target(from)),
        payload: Payload::RemoveElement(ElementalAffliction::spec_single(Element::Fire, spent)),
        handled: false,
    }
}

/// What the tile `idx` emits in one round: nothing unless it burns;
/// otherwise one spark per target and then one message that takes from it
/// as many units as it gave sparks.
pub open spec fn tile_emission(dims: (usize, usize), cells: Seq<Tile>, idx: int) -> Seq<Message> {
    if cells[idx].tile_type == TileType::Fire {
        let targets = spread_targets(dims, cells, idx);
        targets.map_values(|to: usize| spark(idx as usize, to)).push(
            burn_off(idx as usize, targets.len() as u32),
        )
    } else {
        seq![]
    }
}

/// What the first `n` tiles emit in one round, tile after tile.
pub open spec fn emissions(dims: (usize, usize), cells: Seq<Tile>, n: nat) -> Seq<Message>
    decreases n,
{
    if n == 0 {
        seq![]
    } else {
        emissions(dims, cells, (n - 1) as nat) + tile_emission(dims, cells, n - 1)
    }
}

/// A burning tile never gives away more than it holds nor more than it has
/// neighbours, and loses exactly what it gave: its emission is one spark for
/// each target followed by one removal of that many units.
pub proof fn lemma_emission_is_conservative(dims: (usize, usize), cells: Seq<Tile>, idx: int)
    requires
        0 <= idx < cells.len(),
        cells.len() == dims.0 * dims.1,
        cells[idx].tile_type == TileType::Fire,
    ensures
        spread_targets(dims, cells, idx).len() <= fuel_of(cells[idx]),
        spread_targets(dims, cells, idx).len() <= 8,
        tile_emission(dims, cells, idx).len() == spread_targets(dims, cells, idx).len() + 1,
        tile_emission(dims, cells, idx).last() == burn_off(
            idx as usize,
            spread_targets(dims, cells, idx).len() as u32,
        ),
        forall|k: int|
            0 <= k < spread_targets(dims, cells, idx).len() ==> #[trigger] tile_emission(
                dims,
                cells,
                idx,
            )[k] == spark(idx as usize, spread_targets(dims, cells, idx)[k]),
{
}

/// Runs one round of diffusion. Each burning tile, in the order of the
/// grid, emits one spark for each neighbour it can reach and pay for, and
/// one message that takes from it what it spent. The grid itself is not
/// touched: the bus applies the messages. On a grid without tiles nothing is
/// emitted.
pub fn spread_fire(map: &GridMap, bus: &mut EffectBus)
    requires
        map.wf(),
    ensures
        final(bus)@ == old(bus)@ + emissions(map.dims(), map.cells(), map.cells().len()),
{
    let count = map.tile_count();
    let mut idx: usize = 0;
    while idx < count
        invariant
            map.wf(),
            idx <= count,
            count == map.cells().len(),
            bus@ == old(bus)@ + emissions(map.dims(), map.cells(), idx as nat),
        decreases count - idx,
    {
        let ghost before = bus@;
        match map.tile_at_index(idx) {
            Some(tile) => {
                if is_burning(&tile) {
                    let fuel = match tile.affliction {
                        Some(a) => a.get_element_amount(Element::Fire),
                        None => {
                            proof {
                                ElementalAffliction::lemma_spec_empty();
                            }
                            0
                        },
                    };
                    proof {
                        map.lemma_wf_tile_count();
                        lemma_index_round_trip(map.dims(), idx as int);
                    }
                    let around = match map.idx_to_coord(idx) {
                        Ok(coord) => map.coord_moore_indices(coord),
                        Err(_) => Vec::new(),
                    };
                    let ghost targets = spread_targets(map.dims(), map.cells(), idx as int);
                    let mut k: usize = 0;
                    while k < around.len() && k < fuel as usize
                        invariant
                            k <= around@.len(),
                            k <= fuel,
                            fuel == fuel_of(map.cells()[idx as int]),
                            around@ == indices_of(
                                map.dims(),
                                moore_neighbors(map.dims(), coord_at(map.dims(), idx as int)),
                            ),
                            around@.len() <= 8,
                            targets == spread_targets(map.dims(), map.cells(), idx as int),
                            bus@ == before + targets.take(k as int).map_values(
                                |to: usize| spark(idx, to),
                            ),
                        decreases around@.len() - k,
                    {
                        bus.send(
                            Some(Sender(idx)),
                            Some(Target(around[k])),
                            Payload::ApplyElement(ElementalAffliction::single(Element::Fire, 1)),
                        );
                        assert(targets[k as int] == around@[k as int]);
                        assert(targets.take(k + 1).map_values(|to: usize| spark(idx, to))
                            =~= targets.take(k as int).map_values(|to: usize| spark(idx, to)).push(
                            spark(idx, around@[k as int]),
                        ));
                        k += 1;
                    }
                    assert(targets.take(k as int) =~= targets);
                    bus.send(
                        Some(Sender(idx)),
                        Some(Target(idx)),
                        Payload::RemoveElement(ElementalAffliction::single(Element::Fire, k as u32)),
                    );
                    assert(bus@ =~= before + tile_emission(map.dims(), map.cells(), idx as int));
                }
            },
            None => {},
        }
        assert(bus@ =~= old(bus)@ + emissions(map.dims(), map.cells(), (idx + 1) as nat));
        idx += 1;
    }
}

fn is_burning(tile: &Tile) -> (r: bool)
    ensures
        r == (tile.tile_type == TileType::Fire),
{
    match tile.tile_type {
        TileType::Fire => true,
        _ => false,
    }
}

} // verus!
