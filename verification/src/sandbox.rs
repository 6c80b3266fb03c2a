//! The map editor: tools that the player applies to the tile under the
//! pointer.

use crate::elements::Element;
use crate::elements::ElementalAffliction;
use crate::input::CursorState;
use crate::map::in_bounds;
use crate::map::index_of;
use crate::map::updated_tile;
use crate::map::GridMap;
use crate::messages::request;
use crate::messages::ApplyElementMessage;
use crate::messages::EffectBus;
use crate::messages::Message;
use crate::messages::Payload;
use crate::tile::TileType;
use vstd::prelude::*;

verus! {

/// The fuel that a tile gets when it is painted as fire.
pub const IGNITION_FUEL: u32 = 100;

/// A tool of the editor.
#[derive(Clone, Copy, Debug, PartialEq, Eq, Structural)]
pub enum Tool {
    /// Selects the tile.
    Select,
    /// Paints the tile with a type.
    TileBrush(TileType),
    /// Charges the tile with an element.
    ElementApplicator(Element),
}

/// What the editor keeps between frames.
#[derive(Clone, Copy, Debug, PartialEq, Eq)]
pub struct SandboxControlState {
    pub new_dimensions: (usize, usize),
    pub current_tool: Tool,
    pub selected_tile: Option<usize>,
}

impl SandboxControlState {
    /// The state the editor starts in: the select tool, nothing selected,
    /// eight by eight as the size to resize to.
    pub fn new() -> (s: Self)
        ensures
            s == (SandboxControlState {
                new_dimensions: (8usize, 8usize),
                current_tool: Tool::Select,
                selected_tile: None,
            }),
    {
        Self { new_dimensions: (8, 8), current_tool: Tool::Select, selected_tile: None }
    }
}

/// The message that charges the tile `tile` with `amount` of `element`.
pub open spec fn charge_request(element: Element, amount: u32, tile: usize) -> Message {
    request(tile, Payload::ApplyElement(ElementalAffliction::spec_single(element, amount)))
}

/// Applies the current tool to the tile under the pointer while the button
/// is held.
///
/// - The select tool selects the tile on the press of the button.
/// - The brush gives the tile its type; a tile that was not of that type
///   and is painted as fire is also sent its fuel.
/// - The applicator sends the tile `stacks` of its element, where that is
///   more than nothing.
///
/// With the button up, or the pointer off the grid, nothing happens.
pub fn use_tool(
    pressed: bool,
    just_pressed: bool,
    cursor: &CursorState,
    stacks: u32,
    control_state: &mut SandboxControlState,
    map: &mut GridMap,
    bus: &mut EffectBus,
)
    requires
        old(map).wf(),
    ensures
        final(map).wf(),
        final(map).dims() == old(map).dims(),
        final(control_state).new_dimensions == old(control_state).new_dimensions,
        final(control_state).current_tool == old(control_state).current_tool,
        match *cursor {
            CursorState::OnTile(coord) if pressed && in_bounds(old(map).dims(), coord) => {
                let idx = index_of(old(map).dims(), coord);
                match old(control_state).current_tool {
                    Tool::Select => {
                        &&& final(control_state).selected_tile == (if just_pressed {
                            Some(idx as usize)
                        } else {
                            old(control_state).selected_tile
                        })
                        &&& final(map).cells() == old(map).cells()
                        &&& final(map).dirty() == old(map).dirty()
                        &&& final(bus)@ == old(bus)@
                    },
                    Tool::TileBrush(tile_type) => {
                        &&& final(control_state).selected_tile == old(control_state).selected_tile
                        &&& final(map).cells() == old(map).cells().update(
                            idx,
                            updated_tile(old(map).cells()[idx], Some(tile_type), None),
                        )
                        &&& final(map).dirty() == old(map).dirty().push(idx as usize)
                        &&& final(bus)@ == (if tile_type == TileType::Fire && old(
                            map,
                        ).cells()[idx].tile_type != TileType::Fire {
                            old(bus)@.push(
                                charge_request(Element::Fire, IGNITION_FUEL, idx as usize),
                            )
                        } else {
                            old(bus)@
                        })
                    },
                    Tool::ElementApplicator(element) => {
                        &&& final(control_state).selected_tile == old(control_state).selected_tile
                        &&& final(map).cells() == old(map).cells()
                        &&& final(map).dirty() == old(map).dirty()
                        &&& final(bus)@ == (if stacks > 0 {
                            old(bus)@.push(charge_request(element, stacks, idx as usize))
                        } else {
                            old(bus)@
                        })
                    },
                }
            },
            _ => {
                &&& *final(control_state) == *old(control_state)
                &&& final(map).cells() == old(map).cells()
                &&& final(map).dirty() == old(map).dirty()
                &&& final(bus)@ == old(bus)@
            },
        },
{
    if !pressed {
        return ;
    }
    let coord = match *cursor {
        CursorState::OnTile(coord) => coord,
        CursorState::NoTarget => {
            return ;
        },
    };
    let idx = match map.coord_to_idx(coord) {
        Ok(idx) => idx,
        Err(_) => {
            return ;
        },
    };
    match control_state.current_tool {
        Tool::Select => {
            if just_pressed {
                control_state.selected_tile = Some(idx);
            }
        },
        Tool::TileBrush(tile_type) => {
            let was_fire = match map.tile_type_at_index(idx) {
                Some(previous) => match previous {
                    TileType::Fire => true,
                    _ => false,
                },
                None => false,
            };
            let is_fire = match tile_type {
                TileType::Fire => true,
                _ => false,
            };
            if is_fire && !was_fire {
                bus.emit(
                    ApplyElementMessage::single_element(
                        Element::Fire,
                        IGNITION_FUEL,
                        idx,
                    ).into_message(),
                );
            }
            let _ = map.set_tile(coord, Some(tile_type), None);
        },
        Tool::ElementApplicator(element) => {
            if stacks > 0 {
                bus.emit(ApplyElementMessage::single_element(element, stacks, idx).into_message());
            }
        },
    }
}

} // verus!
