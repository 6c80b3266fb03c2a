//! Waves: the phases of a session and how many enemies a wave still holds.

use crate::random::random_in_range;
use vstd::prelude::*;

verus! {

/// The phase of a session.
#[derive(Hash, Debug, PartialEq, Eq, Copy, Clone, Structural)]
pub enum WaveState {
    Preparation,
    WaveInProgress,
}

/// What is left of the wave.
#[derive(Debug, PartialEq, Eq, Copy, Clone, Structural)]
pub struct WaveInfo {
    pub remaining_enemies_to_spawn: i32,
}

/// The phase a session starts in.
pub fn initialize_wavestate() -> (s: WaveState)
    ensures
        s == WaveState::Preparation,
{
    WaveState::Preparation
}

/// A new wave: between five and fourteen enemies, drawn by chance.
pub fn initialize_wave_data() -> (w: WaveInfo)
    ensures
        5 <= w.remaining_enemies_to_spawn < 15,
{
    let drawn = random_in_range(5, 15);
    WaveInfo { remaining_enemies_to_spawn: drawn as i32 }
}

/// Whether the wave is over: no enemy is left to spawn and none is alive.
pub open spec fn wave_is_over(wave: WaveInfo, enemies_alive: nat) -> bool {
    wave.remaining_enemies_to_spawn < 1 && enemies_alive == 0
}

/// The phase to go to from a wave in progress: back to preparation once
/// the wave is over, nowhere before.
pub fn end_wave(wave: &WaveInfo, enemies_alive: usize) -> (next: Option<WaveState>)
    ensures
        next == (if wave_is_over(*wave, enemies_alive as nat) {
            Some(WaveState::Preparation)
        } else {
            None
        }),
{
    if wave.remaining_enemies_to_spawn < 1 && enemies_alive == 0 {
        Some(WaveState::Preparation)
    } else {
        None
    }
}

/// The phase that the button in the preparation panel leads to.
pub fn begin_wave(state: WaveState, clicked: bool) -> (next: Option<WaveState>)
    ensures
        next == (if clicked && state == WaveState::Preparation {
            Some(WaveState::WaveInProgress)
        } else {
            None
        }),
{
    match state {
        WaveState::Preparation => if clicked {
            Some(WaveState::WaveInProgress)
        } else {
            None
        },
        WaveState::WaveInProgress => None,
    }
}

} // verus!
