//! Playfield dimensions, passed to the simulation at construction so that
//! tests can run on alternate field sizes.

use vstd::prelude::*;

verus! {

/// Default playfield width in columns.
pub const SCREEN_WIDTH: i32 = 80;
/// Default playfield height in rows.
pub const SCREEN_HEIGHT: i32 = 50;

/// Narrowest supported playfield: spawned objects must land strictly ahead of
/// the player's three-column collision span.
pub const MIN_FIELD_WIDTH: i32 = 4;
/// Widest supported playfield; keeps spawn-position arithmetic within `i32`.
pub const MAX_FIELD_WIDTH: i32 = 1000000;
/// Shortest supported playfield: the power-up placement jitter (bounded by
/// `height / 2 - size / 2 - 1` for sizes up to 39) must stay positive.
pub const MIN_FIELD_HEIGHT: i32 = 42;
/// Tallest supported playfield; keeps vertical arithmetic within `i32`.
pub const MAX_FIELD_HEIGHT: i32 = 1000000;

/// Dimensions of the scrolling playfield.
#[derive(Clone, Copy)]
pub struct GameConfig {
    pub width: i32,
    pub height: i32,
}

impl GameConfig {
    /// The dimensions lie in the supported range.
    pub open spec fn wf(self) -> bool {
        &&& MIN_FIELD_WIDTH <= self.width <= MAX_FIELD_WIDTH
        &&& MIN_FIELD_HEIGHT <= self.height <= MAX_FIELD_HEIGHT
    }

    /// The standard 80x50 playfield.
    pub fn standard() -> (c: GameConfig)
        ensures
            c.width == SCREEN_WIDTH,
            c.height == SCREEN_HEIGHT,
            c.wf(),
    {
        GameConfig { width: SCREEN_WIDTH, height: SCREEN_HEIGHT }
    }

    /// A playfield of the given dimensions.
    pub fn new(width: i32, height: i32) -> (c: GameConfig)
        requires
            MIN_FIELD_WIDTH <= width <= MAX_FIELD_WIDTH,
            MIN_FIELD_HEIGHT <= height <= MAX_FIELD_HEIGHT,
        ensures
            c.width == width,
            c.height == height,
            c.wf(),
    {
        GameConfig { width, height }
    }
}

} // verus!
