//! Simulation core of a tile-based tower defence game: the grid, the elemental
//! chemistry that runs on it, the deferred message bus that drives it, the
//! search for the way of a wave, and the small games, counters and scripts
//! that sit around it.

pub mod arith;
pub mod clock;
pub mod coordinate;
pub mod helpers;
mod random;
pub mod text;

pub mod elements;
pub mod structures;
pub mod tile;
pub mod map;
pub mod messages;
pub mod chemistry;
pub mod diffusion;
pub mod pathing;

pub mod cheats;
pub mod gamestate;
pub mod gold;
pub mod life;
pub mod health;
pub mod waves;
pub mod cooldown;
pub mod power_bar;
pub mod knights;
pub mod towers;
pub mod building;
pub mod projectiles;
pub mod input;
pub mod sandbox;
pub mod system_alerts;
pub mod tilemap;

pub mod tic_tac_toe;
pub mod smoothie_mix;

pub mod vn_mode;
pub mod parser;
