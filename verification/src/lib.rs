//! Simulation core of a small tile-based 2D platformer.
//!
//! The player walks and jumps across a fixed tile grid, collects coins,
//! avoids a patrolling monster and wins by standing on the goal pipe.
//! This crate owns the per-frame simulation only: physics integration,
//! axis-separated AABB collision resolution, coin and bonus-block rules,
//! the goal-pipe victory sequence and the screen-mode state machine.
//! Rendering, asset loading and input polling belong to the host around it.
//!
//! All lengths and speeds are fixed-point integers: 1000 sub-units make one
//! pixel, times are in milliseconds, speeds in sub-units per second.

use vstd::prelude::*;

pub mod entity;
pub mod geom;
pub mod level;
pub mod game;
pub mod physics;
pub mod props;
pub mod scene;
pub mod tick;

verus! {

/// Sub-units per pixel of the fixed-point world coordinates.
pub const SCALE: i64 = 1000;

/// Edge length of one solid tile.
pub const TILE: i64 = 32_000;

/// Edge length of a coin hitbox.
pub const COIN_SIZE: i64 = 16_000;

/// Downward acceleration, sub-units per second per second.
pub const GRAVITY: i64 = 1_200_000;

/// Horizontal walking speed of the player, sub-units per second.
pub const MOVE_SPEED: i64 = 200_000;

/// Vertical launch velocity of a jump (negative is upward).
pub const JUMP_V: i64 = -420_000;

/// Terminal falling speed of the fixed-point model; far beyond anything a
/// body can reach before the viewport floor grounds it.
pub const VY_MAX: i64 = 2_000_000_000;

/// Depth at which a monster in free fall stops sinking; the model's bottom
/// of the world, unreachable from any level geometry.
pub const FALL_CAP: i64 = 10_000_000_000_000;

/// Player hitbox extent.
pub const PLAYER_W: i64 = 24_000;
/// Player hitbox extent.
pub const PLAYER_H: i64 = 30_000;
/// Fixed spawn position of the player.
pub const SPAWN_X: i64 = 50_000;
/// Fixed spawn position of the player.
pub const SPAWN_Y: i64 = 50_000;

/// Monster hitbox extent (square).
pub const MONSTER_SIZE: i64 = 24_000;
/// Patrol speed of a monster, sub-units per second.
pub const MONSTER_SPEED: i64 = 60_000;
/// Half-width of the monster patrol range: three tiles.
pub const PATROL_HALF: i64 = 96_000;

/// Height of the goal pipe: one and a half tiles.
pub const PIPE_H: i64 = 48_000;
/// Height of the thin standable cap at the pipe's top.
pub const PIPE_CAP_H: i64 = 8_000;
/// How close the player's feet must be to the pipe top to start entering.
pub const PIPE_TOL: i64 = 6_000;
/// Downward drift while entering the pipe, sub-units per second.
pub const PIPE_DESCEND: i64 = 40_000;
/// The pipe entry animation ends after this many milliseconds at the latest.
pub const ENTER_LIMIT: i64 = 1200;

/// Milliseconds between two attempts to spawn a ground coin.
pub const SPAWN_INTERVAL: i64 = 5000;
/// Points awarded for one collected coin.
pub const COIN_SCORE: i64 = 10;

/// Rows of the fixed level map.
pub const ROWS: usize = 7;
/// Columns of the fixed level map.
pub const COLS: usize = 28;

/// Upper bound on a tick's time delta in milliseconds; the host clamps the
/// frame delta to it, which keeps every fixed-point blend a contraction.
pub const DT_MAX: i64 = 300;

/// Upper bound on viewport extents accepted by the simulation.
pub const WIN_MAX: i64 = 100_000_000;

/// Coordinate bound for level geometry, coins and patrol ranges.
pub const COORD_LIM: i64 = 1_000_000_000;

/// Coordinate bound for moving bodies; generous slack over [`COORD_LIM`].
pub const POS_LIM: i64 = 2_000_000_000;

/// Lowest vertical level offset the simulation accepts.
pub const OFF_MIN: i64 = -1_000_000;

} // verus!
