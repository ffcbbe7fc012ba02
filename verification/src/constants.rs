//! Fixed dimensions of the lane grid and of the player's controls.

use vstd::prelude::*;

verus! {

/// Longitudinal coordinate of the first chunk of a fresh world.
pub const MAP_MIN_X: i32 = -8;

/// First lateral coordinate of the band that every chunk covers.
pub const MAP_MIN_Z: i32 = -10;

/// End of the lateral band; the band itself stops one cell short of it.
pub const MAP_MAX_Z: i32 = 10;

/// Lowest lane the player may stand on.
pub const MAP_GAMEPLAY_MIN_Z: i32 = -4;

/// Highest lane the player may stand on.
pub const MAP_GAMEPLAY_MAX_Z: i32 = 4;

/// Longitudinal coordinate of the cell the player spawns on.
pub const PLAYER_SPAWN_X: i32 = 0;

/// Most jumps that may wait in a player's queue.
pub const PLAYER_MAX_JUMP_QUEUE: usize = 2;

/// Seed that every (re)initialised world starts its random stream from.
pub const MAP_SEED: u64 = 0;

/// Chunks requested when a world is initialised.
pub const INITIAL_CHUNKS: usize = 16;

} // verus!
