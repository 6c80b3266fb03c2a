//! What the player's pointer and keys ask for.

use crate::helpers::Coordinate;
use crate::knights::status_in;
use crate::knights::KUsageStatus;
use crate::knights::Knight;
use crate::knights::KnightStatuses;
use crate::messages::notice;
use crate::messages::request;
use crate::messages::EffectBus;
use crate::messages::Payload;
use crate::messages::Reset;
use crate::messages::Target;
use crate::towers::first_tower_at;
use crate::towers::tower_at;
use crate::towers::BuildTower;
use crate::towers::PlaceKnight;
use crate::towers::Sell;
use crate::towers::Tower;
use crate::towers::TowerType;
use vstd::prelude::*;

verus! {

/// What the player has picked up in the panel and not yet dropped.
#[derive(Debug, PartialEq, Eq, Clone, Copy, Structural)]
pub enum UIAction {
    /// Nothing is picked up.
    Idle,
    /// A tower of the given type, to be built where it is dropped.
    BuildTower(TowerType),
    /// A knight, to be sent to the tower he is dropped on.
    PlaceKnight(Knight),
}

/// Where the pointer is.
#[derive(Clone, Copy, Debug, PartialEq, Eq, Structural)]
pub enum CursorState {
    NoTarget,
    OnTile(Coordinate),
}

/// The tower that is selected, by its place in the list of towers.
#[derive(Clone, Copy, Debug, PartialEq, Eq, Structural)]
pub struct SelectionTarget(pub Option<usize>);

/// What is asked for when the button is released over `cursor` with
/// `action` picked up, if anything.
pub open spec fn dropped(cursor: CursorState, action: UIAction) -> Option<Payload> {
    match (cursor, action) {
        (CursorState::OnTile(coord), UIAction::BuildTower(t_type)) => Some(
            Payload::BuildTower(BuildTower { location: coord, t_type }),
        ),
        (CursorState::OnTile(coord), UIAction::PlaceKnight(knight)) => Some(
            Payload::PlaceKnight(PlaceKnight { location: coord, knight }),
        ),
        _ => None,
    }
}

/// Turns the release of the button into a request. With the pointer on a
/// tile, a map loaded and a tower or a knight picked up, the release of the
/// button asks the map for the tower to be built, or the knight to be
/// placed, at that tile. Otherwise nothing is sent.
pub fn send_build_tower_messages(
    just_released: bool,
    cursor_state: &CursorState,
    ui_action: &UIAction,
    current_map: Option<usize>,
    bus: &mut EffectBus,
)
    ensures
        final(bus)@ == (if just_released && current_map is Some && dropped(
            *cursor_state,
            *ui_action,
        ) is Some {
            old(bus)@.push(
                request(current_map->Some_0, dropped(*cursor_state, *ui_action)->Some_0),
            )
        } else {
            old(bus)@
        }),
{
    let map = match current_map {
        Some(map) => map,
        None => {
            return ;
        },
    };
    if !just_released {
        return ;
    }
    match *cursor_state {
        CursorState::OnTile(coord) => match *ui_action {
            UIAction::BuildTower(t_type) => {
                bus.send(
                    None,
                    Some(Target(map)),
                    Payload::BuildTower(BuildTower { location: coord, t_type }),
                );
            },
            UIAction::PlaceKnight(knight) => {
                bus.send(
                    None,
                    Some(Target(map)),
                    Payload::PlaceKnight(PlaceKnight { location: coord, knight }),
                );
            },
            UIAction::Idle => {},
        },
        CursorState::NoTarget => {},
    }
}

/// Drops what was picked up once the button is no longer held.
pub fn reset_ui_action(ui_action: &mut UIAction, button_held: bool)
    ensures
        *final(ui_action) == (if button_held {
            *old(ui_action)
        } else {
            UIAction::Idle
        }),
{
    match *ui_action {
        UIAction::BuildTower(_) | UIAction::PlaceKnight(_) => {
            if !button_held {
                *ui_action = UIAction::Idle;
            }
        },
        UIAction::Idle => {},
    }
}

/// Asks for the session to start over when the key for it was pressed.
pub fn send_reset_message(key_just_pressed: bool, bus: &mut EffectBus)
    ensures
        final(bus)@ == (if key_just_pressed {
            old(bus)@.push(notice(Payload::Reset(Reset)))
        } else {
            old(bus)@
        }),
{
    if key_just_pressed {
        bus.send(None, None, Payload::Reset(Reset));
    }
}

/// Selects by a press of the button: with the pointer on a tile, the first
/// tower that stands there is selected, and nothing where none does. With
/// the pointer elsewhere, or without a press, the selection stays.
pub fn tower_selection(
    selection: &mut SelectionTarget,
    cursor_state: &CursorState,
    just_pressed: bool,
    towers: &Vec<Tower>,
)
    ensures
        *final(selection) == (match *cursor_state {
            CursorState::OnTile(coord) => if just_pressed {
                SelectionTarget(first_tower_at(towers@, coord, towers@.len()))
            } else {
                *old(selection)
            },
            CursorState::NoTarget => *old(selection),
        }),
{
    if just_pressed {
        match *cursor_state {
            CursorState::OnTile(coord) => {
                *selection = SelectionTarget(tower_at(towers, coord));
            },
            CursorState::NoTarget => {},
        }
    }
}


/// Picks up a tower of the given type from the panel while the button is
/// down on it and nothing else is picked up.
pub fn pick_up_tower(ui_action: &mut UIAction, t_type: TowerType, button_down: bool)
    ensures
        *final(ui_action) == (if button_down && *old(ui_action) == UIAction::Idle {
            UIAction::BuildTower(t_type)
        } else {
            *old(ui_action)
        }),
{
    match *ui_action {
        UIAction::Idle => {
            if button_down {
                *ui_action = UIAction::BuildTower(t_type);
            }
        },
        _ => {},
    }
}

/// Picks up a knight from the panel while the button is down on him, he is
/// ready and nothing else is picked up.
pub fn pick_up_knight(
    ui_action: &mut UIAction,
    statuses: &KnightStatuses,
    knight: Knight,
    button_down: bool,
)
    ensures
        *final(ui_action) == (if button_down && *old(ui_action) == UIAction::Idle && status_in(
            statuses@,
            knight,
        ) == KUsageStatus::Ready {
            UIAction::PlaceKnight(knight)
        } else {
            *old(ui_action)
        }),
{
    let ready = match statuses.get_status(knight) {
        KUsageStatus::Ready => true,
        _ => false,
    };
    match *ui_action {
        UIAction::Idle => {
            if button_down && ready {
                *ui_action = UIAction::PlaceKnight(knight);
            }
        },
        _ => {},
    }
}

/// Asks for the selected tower to be sold when the button for it was
/// clicked. Without a selection nothing is sent.
pub fn send_sell_message(selection: &SelectionTarget, clicked: bool, bus: &mut EffectBus)
    ensures
        final(bus)@ == (if clicked && selection.0 is Some {
            old(bus)@.push(request(selection.0->Some_0, Payload::Sell(Sell)))
        } else {
            old(bus)@
        }),
{
    if clicked {
        match selection.0 {
            Some(tower) => {
                bus.send(None, Some(Target(tower)), Payload::Sell(Sell));
            },
            None => {},
        }
    }
}

} // verus!
