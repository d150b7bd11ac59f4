//! The configuration of a session. Every value is fixed at compile time.

use vstd::prelude::*;
use crate::game::DebugOptions;
use crate::physics::Position;

verus! {

// Window
pub const WINDOW_WIDTH: u32 = 1200;

pub const WINDOW_HEIGHT: u32 = 845;

pub const FPS: u32 = 60;

// NextGen
/// Nanoseconds between the moment the field is found empty and its
/// regeneration: two seconds.
pub const NEXT_GENERATION_DELAY: u128 = 2_000_000_000;

// Debugging
pub const DEBUG: bool = false;

// Spaceship
pub const SPACESHIP_WIDTH: u32 = 32;

pub const SPACESHIP_HEIGHT: u32 = 42;

pub const SPACESHIP_LIFE: u8 = 100;

pub const INITIAL_SPACESHIP_X: i32 = 40;

/// The spaceship starts at mid-height: half the window's height less half
/// its own.
pub const INITIAL_SPACESHIP_Y: i32 = 401;

// Missile
pub const MISSILE_WIDTH: u32 = 15;

pub const MISSILE_HEIGHT: u32 = 10;

pub const SHOTS_PER_SECOND: u16 = 10;

// Pixels
/// Pixels in one unit of asteroid size.
pub const PIXELS_MULTIPLIER_FACTOR: u32 = 22;

// Asteroid
/// Width of the strip left of the window's right edge in which an asteroid
/// that enters calls for a new one.
pub const GENERATE_NEW_ASTEROID_AFTER: u32 = 100;

/// Whether a new asteroid may be placed over an existing one.
pub const ALLOW_INSIDE_GENERATION: bool = false;

/// How many placements are tried for one asteroid before an overlapping one
/// is accepted.
pub const MAX_GENERATION_ATTEMPTS: u32 = 64;

pub const MIN_GENERATED_ASTEROIDS: u8 = 1;

pub const MAX_GENERATED_ASTEROIDS: u8 = 1;

pub const MIN_ASTEROIDS_SPEED: u32 = 2;

pub const MAX_ASTEROIDS_SPEED: u32 = 3;

pub const MIN_ASTEROIDS_SIZE: u8 = 2;

pub const MAX_ASTEROIDS_SIZE: u8 = 3;

pub const ASTEROIDS_ROWS_PADDING: u32 = 25;

/// Number of lanes: as many as fit in the window's height when each takes
/// the largest asteroid and the padding.
pub const ASTEROIDS_ROWS: usize = 9;

/// Height of one lane: the window's height shared among the lanes.
pub const ASTEROIDS_ROWS_HEIGHT: u32 = 93;

/// Largest distance right of the nearest spawn position at which an asteroid
/// is placed.
pub const ASTEROIDS_MARGIN_X: i32 = 100;

pub const ASTEROIDS_MARGIN_Y: i32 = 0;

/// The debug options with every one of them set.
pub open spec fn every_debug_option() -> DebugOptions {
    DebugOptions {
        generation_line: true,
        rows: true,
        game_state: true,
        invincible: true,
        asteroid_generation: true,
    }
}

/// The debug options with which a game starts: all of them set.
pub fn default_debug_options() -> (options: DebugOptions)
    ensures
        options == every_debug_option(),
{
    DebugOptions {
        generation_line: true,
        rows: true,
        game_state: true,
        invincible: true,
        asteroid_generation: true,
    }
}

/// The position at which the spaceship starts.
pub fn initial_spaceship_position() -> (position: Position)
    ensures
        position == (Position { x: INITIAL_SPACESHIP_X, y: INITIAL_SPACESHIP_Y }),
{
    Position { x: INITIAL_SPACESHIP_X, y: INITIAL_SPACESHIP_Y }
}

/// The greatest distances, along the axes, between a new asteroid and the
/// nearest place at which it is out of sight.
pub fn asteroids_margin() -> (margin: Position)
    ensures
        margin == (Position { x: ASTEROIDS_MARGIN_X, y: ASTEROIDS_MARGIN_Y }),
{
    Position { x: ASTEROIDS_MARGIN_X, y: ASTEROIDS_MARGIN_Y }
}

/// The pixel length of `value` units of asteroid size.
pub fn to_pixels(value: u32) -> (pixels: u32)
    requires
        value * PIXELS_MULTIPLIER_FACTOR <= u32::MAX,
    ensures
        pixels == value * PIXELS_MULTIPLIER_FACTOR,
{
    value * PIXELS_MULTIPLIER_FACTOR
}

/// The derived settings agree with the ones they are derived from.
pub proof fn lemma_derived_settings()
    ensures
        INITIAL_SPACESHIP_Y == (WINDOW_HEIGHT as int) / 2 - (SPACESHIP_HEIGHT as int) / 2,
        ASTEROIDS_ROWS == (WINDOW_HEIGHT as int) / (MAX_ASTEROIDS_SIZE * PIXELS_MULTIPLIER_FACTOR
            + ASTEROIDS_ROWS_PADDING),
        ASTEROIDS_ROWS_HEIGHT == (WINDOW_HEIGHT as int) / (ASTEROIDS_ROWS as int),
{
    assert(MAX_ASTEROIDS_SIZE * PIXELS_MULTIPLIER_FACTOR + ASTEROIDS_ROWS_PADDING == 91);
    assert(845int / 91 == 9);
    assert(845int / 9 == 93);
}

} // verus!
