//! The highest level state of the program.

use vstd::prelude::*;

verus! {

/// Where the program is: in the menu, or in a session of tower defence.
#[derive(Hash, Debug, Eq, PartialEq, Copy, Clone, Structural)]
pub enum GameState {
    MainMenu,
    TDMode,
}

/// What the player chose in the main menu.
#[derive(Debug, Eq, PartialEq, Copy, Clone, Structural)]
pub enum MenuChoice {
    /// Start a session.
    Play,
    /// Leave the program.
    Quit,
}

/// What a turn of the program's top level leads to.
#[derive(Debug, Eq, PartialEq, Copy, Clone, Structural)]
pub enum Transition {
    /// Stay in the state.
    Stay,
    /// Go to another state.
    Enter(GameState),
    /// Leave the program.
    Exit,
}

/// Where a choice in the main menu leads.
pub fn main_menu_choice(choice: MenuChoice) -> (t: Transition)
    ensures
        t == (match choice {
            MenuChoice::Play => Transition::Enter(GameState::TDMode),
            MenuChoice::Quit => Transition::Exit,
        }),
{
    match choice {
        MenuChoice::Play => Transition::Enter(GameState::TDMode),
        MenuChoice::Quit => Transition::Exit,
    }
}

/// Where the escape key leads: from a session back to the menu, and
/// nowhere from the menu or while the key is not pressed.
pub fn on_escape(state: GameState, pressed: bool) -> (t: Transition)
    ensures
        t == (if pressed && state == GameState::TDMode {
            Transition::Enter(GameState::MainMenu)
        } else {
            Transition::Stay
        }),
{
    match state {
        GameState::TDMode => if pressed {
            Transition::Enter(GameState::MainMenu)
        } else {
            Transition::Stay
        },
        GameState::MainMenu => Transition::Stay,
    }
}

} // verus!
