//! Fixed rules of the match, in ticks and units of ammunition.

use vstd::prelude::*;

verus! {

/// A dead player respawns once its respawn timer exceeds this many ticks.
pub const MAX_PLAYER_RESPAWN_TIMER: u32 = 80;

/// Rounds a player can hold at once.
pub const AMMO_MAX: u32 = 3;

/// One round is refilled once the reload timer exceeds this many ticks.
pub const RELOAD_TIMER_MAX: u32 = 60;

/// A player may fire again once its fire-rate timer exceeds this many ticks.
pub const FIRE_RATE_TIMER_MAX: u32 = 10;

/// An obstacle spawns once the spawn countdown exceeds this many ticks.
pub const MAX_OBSTACLE_SPAWN_TIMER: u32 = 80;

/// The spawn countdown restarts from a value drawn from `0..OBSTACLE_SPAWN_DELAY_END`.
pub const OBSTACLE_SPAWN_DELAY_END: u32 = 20;

} // verus!
