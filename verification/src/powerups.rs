//! Scrolling pickups. On contact each grants a freshly constructed effect of
//! its kind; placement is randomized as a vertical band that stays inside the
//! playfield.

use vstd::prelude::*;

use crate::config::{MAX_FIELD_HEIGHT, MIN_FIELD_HEIGHT};
use crate::effects::{
    Effect, GravityBuffEffect, SpeedBuffEffect, GRAVITY_BUFF_TICKS, SPEED_BUFF_TICKS,
};
use crate::player::Player;
use crate::rng::rng_range;

verus! {

/// Shortest vertical band a power-up can occupy (inclusive).
pub const POWERUP_SIZE_MIN: i32 = 5;
/// Bound the band height is drawn below (exclusive).
pub const POWERUP_SIZE_MAX: i32 = 40;

/// A power-up band is well-placed: its height is in the drawing range and it
/// lies fully inside any supported playfield's vertical extent.
pub open spec fn band_wf(y: int, size: int) -> bool {
    &&& POWERUP_SIZE_MIN <= size < POWERUP_SIZE_MAX
    &&& 2 <= y
    &&& y + size <= MAX_FIELD_HEIGHT
}

/// Draws a vertical band for a power-up: a random height in the drawing range,
/// centered on the playfield's middle with a random jitter bounded so the band
/// stays strictly inside the field.
fn sample_vertical_band(
    height: i32,
    rng: &mut bracket_random::prelude::RandomNumberGenerator,
) -> (band: (i32, i32))
    requires
        MIN_FIELD_HEIGHT <= height <= MAX_FIELD_HEIGHT,
    ensures
        POWERUP_SIZE_MIN <= band.1 < POWERUP_SIZE_MAX,
        2 <= band.0,
        band.0 + band.1 < height,
{
    let size = rng_range(rng, POWERUP_SIZE_MIN, POWERUP_SIZE_MAX);
    proof {
        vstd::arithmetic::div_mod::lemma_fundamental_div_mod(height as int, 2);
        vstd::arithmetic::div_mod::lemma_fundamental_div_mod(size as int, 2);
        vstd::arithmetic::div_mod::lemma_div_is_ordered(
            MIN_FIELD_HEIGHT as int,
            height as int,
            2,
        );
        vstd::arithmetic::div_mod::lemma_div_is_ordered(size as int, POWERUP_SIZE_MAX as int, 2);
    }
    let bound = height / 2 - size / 2 - 1;
    let mut side_move = rng_range(rng, 0, bound);
    let side_changer = rng_range(rng, 0, 2);
    if side_changer == 1 {
        side_move = -side_move;
    }
    let y = height / 2 - size / 2 + side_move;
    (y, size)
}

/// A pickup that grants a temporary horizontal speed boost.
#[derive(Clone, Copy)]
pub struct SpeedPowerUp {
    /// World column.
    pub x: i32,
    /// Top row of the band.
    pub y: i32,
    /// Height of the band.
    pub size: i32,
}

impl SpeedPowerUp {
    /// Spawns a speed pickup at column `x`, randomly placed within a playfield
    /// of the given height.
    pub fn new(
        x: i32,
        height: i32,
        rng: &mut bracket_random::prelude::RandomNumberGenerator,
    ) -> (p: SpeedPowerUp)
        requires
            MIN_FIELD_HEIGHT <= height <= MAX_FIELD_HEIGHT,
        ensures
            p.x == x,
            band_wf(p.y as int, p.size as int),
            p.y + p.size < height,
    {
        let band = sample_vertical_band(height, rng);
        SpeedPowerUp { x, y: band.0, size: band.1 }
    }
}

/// A pickup that temporarily raises the player's gravity increment.
#[derive(Clone, Copy)]
pub struct GravityDebuff {
    /// World column.
    pub x: i32,
    /// Top row of the band.
    pub y: i32,
    /// Height of the band.
    pub size: i32,
}

impl GravityDebuff {
    /// Spawns a gravity pickup at column `x`, randomly placed within a
    /// playfield of the given height.
    pub fn new(
        x: i32,
        height: i32,
        rng: &mut bracket_random::prelude::RandomNumberGenerator,
    ) -> (p: GravityDebuff)
        requires
            MIN_FIELD_HEIGHT <= height <= MAX_FIELD_HEIGHT,
        ensures
            p.x == x,
            band_wf(p.y as int, p.size as int),
            p.y + p.size < height,
    {
        let band = sample_vertical_band(height, rng);
        GravityDebuff { x, y: band.0, size: band.1 }
    }
}

/// The closed set of power-up variants, dispatched by pattern match.
#[derive(Clone, Copy)]
pub enum PowerUp {
    Speed(SpeedPowerUp),
    Gravity(GravityDebuff),
}

/// The effect a power-up grants when collected: a fresh, full-countdown effect
/// of the matching kind.
pub open spec fn effect_of(p: PowerUp) -> Effect {
    match p {
        PowerUp::Speed(_) => Effect::Speed(SpeedBuffEffect { time: SPEED_BUFF_TICKS }),
        PowerUp::Gravity(_) => Effect::Gravity(GravityBuffEffect { time: GRAVITY_BUFF_TICKS }),
    }
}

impl PowerUp {
    /// World column of the pickup.
    pub open spec fn spec_x(self) -> int {
        match self {
            PowerUp::Speed(p) => p.x as int,
            PowerUp::Gravity(p) => p.x as int,
        }
    }

    /// Top row of the pickup's band.
    pub open spec fn spec_y(self) -> int {
        match self {
            PowerUp::Speed(p) => p.y as int,
            PowerUp::Gravity(p) => p.y as int,
        }
    }

    /// Height of the pickup's band.
    pub open spec fn spec_size(self) -> int {
        match self {
            PowerUp::Speed(p) => p.size as int,
            PowerUp::Gravity(p) => p.size as int,
        }
    }

    /// Well-formedness: the band is well-placed.
    pub open spec fn wf(self) -> bool {
        band_wf(self.spec_y(), self.spec_size())
    }

    /// The player touches the pickup when exactly at its column and within its
    /// band, top row inclusive, bottom bound exclusive.
    pub open spec fn collide_spec(self, px: int, py: int) -> bool {
        &&& px == self.spec_x()
        &&& self.spec_y() <= py < self.spec_y() + self.spec_size()
    }

    /// Contact test against the player's current position.
    pub fn is_collide(&self, player: &Player) -> (r: bool)
        requires
            self.wf(),
        ensures
            r == self.collide_spec(player.x as int, player.y as int),
    {
        match self {
            PowerUp::Speed(p) => p.x == player.x && p.y <= player.y && player.y < p.y + p.size,
            PowerUp::Gravity(p) => p.x == player.x && p.y <= player.y && player.y < p.y + p.size,
        }
    }

    /// World column, for scroll-past cleanup.
    pub fn get_x(&self) -> (r: i32)
        ensures
            r as int == self.spec_x(),
    {
        match self {
            PowerUp::Speed(p) => p.x,
            PowerUp::Gravity(p) => p.x,
        }
    }

    /// The freshly constructed effect this pickup grants.
    pub fn get_effect(&self) -> (r: Effect)
        ensures
            r == effect_of(*self),
    {
        match self {
            PowerUp::Speed(_) => Effect::Speed(SpeedBuffEffect::new()),
            PowerUp::Gravity(_) => Effect::Gravity(GravityBuffEffect::new()),
        }
    }
}

} // verus!
