//! Tick-driven simulation core for a tile-grid world.
//!
//! Entities carry positions and optional collision geometry; a shared
//! occupancy map is rebuilt every tick from that geometry; gameplay systems
//! (movement, mining, reset, spawning) read and mutate this map and a small
//! progress ledger in response to buffered input events.

use vstd::prelude::*;

pub mod geom;
pub mod grid;
pub mod resource;
pub mod channel;
pub mod components;
pub mod world;
pub mod aggregate;
pub mod movement;
pub mod mining;
pub mod reset;
pub mod spawner;

pub use crate::components::{Base, Mine, MiningMapTag, Player, Progress, Stats};
pub use crate::mining::MineRes;
pub use crate::movement::{try_move, PlayerMovementRes};
pub use crate::reset::ResetRes;

verus! {

/// Width of the terminal screen, in glyph cells (used by the render layer).
pub const SCREEN_WIDTH: u32 = 200;

/// Height of the terminal screen, in glyph cells (used by the render layer).
pub const SCREEN_HEIGHT: u32 = 65;

/// Width of the playing field, in tiles.
pub const WIDTH: u32 = 200;

/// Height of the playing field, in tiles.
pub const HEIGHT: u32 = 60;

} // verus!
