//! A vertical gap-wall that scrolls past the player. Its gap shrinks as the
//! score grows, and the player collides with it when inside its three-column
//! span but outside the gap.

use vstd::prelude::*;

use crate::player::Player;
use crate::rng::rng_range;

verus! {

/// Columns an obstacle occupies.
pub const OBSTACLE_SPAN: i32 = 3;
/// Lowest row the gap center is drawn from (inclusive).
pub const GAP_Y_MIN: i32 = 20;
/// Row bound the gap center is drawn below (exclusive).
pub const GAP_Y_MAX: i32 = 40;
/// Gap height at score zero.
pub const BASE_GAP_SIZE: i32 = 20;
/// The gap never shrinks below this height.
pub const MIN_GAP_SIZE: i32 = 2;
/// Score points per one-cell shrink of the gap.
pub const GAP_SHRINK_STEP: i32 = 4;

/// Gap height at a given score: `max(MIN_GAP_SIZE, BASE_GAP_SIZE - score / 4)`,
/// a stepped, non-increasing difficulty curve with a floor.
pub open spec fn gap_size(score: int) -> int {
    if BASE_GAP_SIZE - score / (GAP_SHRINK_STEP as int) < MIN_GAP_SIZE {
        MIN_GAP_SIZE as int
    } else {
        BASE_GAP_SIZE - score / (GAP_SHRINK_STEP as int)
    }
}

/// Law: the gap height never falls below the floor, however large the score.
pub proof fn lemma_gap_size_at_least_min(score: int)
    ensures
        gap_size(score) >= MIN_GAP_SIZE,
{
}

/// Law: the gap height is non-increasing as the score grows.
pub proof fn lemma_gap_size_non_increasing(s1: int, s2: int)
    requires
        0 <= s1 <= s2,
    ensures
        gap_size(s2) <= gap_size(s1),
{
    vstd::arithmetic::div_mod::lemma_div_is_ordered(s1, s2, GAP_SHRINK_STEP as int);
}

/// A gap-wall at world column `x`, with a passable opening of height `size`
/// centered on row `y_gap`.
#[derive(Clone, Copy)]
pub struct Obstacle {
    /// World column of the wall's left edge.
    pub x: i32,
    /// Row of the gap's vertical center.
    pub y_gap: i32,
    /// Height of the gap.
    pub size: i32,
}

impl Obstacle {
    /// Well-formedness: the gap height is between floor and base, the gap
    /// center lies in the drawing range, and the three-column span fits in
    /// `i32`.
    pub open spec fn wf(self) -> bool {
        &&& MIN_GAP_SIZE <= self.size <= BASE_GAP_SIZE
        &&& GAP_Y_MIN <= self.y_gap < GAP_Y_MAX
        &&& self.x + OBSTACLE_SPAN - 1 <= i32::MAX
    }

    /// Spawns a wall at column `x` with a uniformly random gap center and the
    /// difficulty-scaled gap height for the given score.
    pub fn new(
        x: i32,
        score: i32,
        rng: &mut bracket_random::prelude::RandomNumberGenerator,
    ) -> (o: Obstacle)
        requires
            0 <= score,
            x + OBSTACLE_SPAN - 1 <= i32::MAX,
        ensures
            o.x == x,
            o.size == gap_size(score as int),
            GAP_Y_MIN <= o.y_gap < GAP_Y_MAX,
            o.wf(),
    {
        let y_gap = rng_range(rng, GAP_Y_MIN, GAP_Y_MAX);
        let shrunk = BASE_GAP_SIZE - score / GAP_SHRINK_STEP;
        let size = if shrunk < MIN_GAP_SIZE {
            MIN_GAP_SIZE
        } else {
            shrunk
        };
        Obstacle { x, y_gap, size }
    }

    /// The player collides when its column lies within the wall's span and its
    /// row is strictly above or strictly below the gap.
    pub open spec fn hit_spec(self, px: int, py: int) -> bool {
        let half = (self.size as int) / 2;
        &&& self.x <= px <= self.x + OBSTACLE_SPAN - 1
        &&& (py < self.y_gap - half || py > self.y_gap + half)
    }

    /// Collision test against the player's current position.
    pub fn hit_obstacle(&self, player: &Player) -> (r: bool)
        requires
            self.wf(),
        ensures
            r == self.hit_spec(player.x as int, player.y as int),
    {
        let half_size = self.size / 2;
        let does_x_match = self.x <= player.x && player.x <= self.x + (OBSTACLE_SPAN - 1);
        let is_above_gap = player.y < self.y_gap - half_size;
        let is_below_gap = player.y > self.y_gap + half_size;
        does_x_match && (is_above_gap || is_below_gap)
    }
}

/// Law: the collision band is inclusive of the gap edges. A player level with
/// the gap's top or bottom edge is not a hit; one cell beyond either edge is.
pub proof fn lemma_hit_boundary(o: Obstacle, px: int)
    requires
        o.wf(),
        o.x <= px <= o.x + OBSTACLE_SPAN - 1,
    ensures
        !o.hit_spec(px, o.y_gap - (o.size as int) / 2),
        o.hit_spec(px, o.y_gap - (o.size as int) / 2 - 1),
        !o.hit_spec(px, o.y_gap + (o.size as int) / 2),
        o.hit_spec(px, o.y_gap + (o.size as int) / 2 + 1),
{
}

} // verus!
