//! The configured values of the standard game, in world units and nanoseconds.

use vstd::prelude::*;

verus! {

// Snake
/// The distance of one step: equal to the cell size, so that the snake stays on the grid.
pub const SNAKE_SPEED: i32 = 40;

/// The side of one cell, and of the head and of each segment.
pub const SNAKE_SIZE: i32 = 40;

/// The side of the apple: it fills one cell.
pub const APPLE_SIZE: i32 = SNAKE_SIZE;

/// The interval of the movement clock.
pub const SNAKE_NANOS_PER_MOVEMENT: u64 = 200_000_000;

/// By how much the movement limits reach into the walls.
pub const LIMIT_SLACK: i32 = 10;

// Walls
pub const WALL_HEIGHT_OFFSET: i32 = -40;

pub const WALL_WIDTH_OFFSET: i32 = 0;

pub const WALL_THICKNESS: i32 = 20;

pub const WALL_LEFT: i32 = -450;

pub const WALL_RIGHT: i32 = 450;

pub const WALL_TOP: i32 = 270;

pub const WALL_BOTTOM: i32 = -270;

} // verus!
