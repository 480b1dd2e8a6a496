//! Timed modifiers to the player's physical constants. Each effect is applied
//! once when granted, counts down once per obstacle-cleanup step, and is
//! released exactly once on expiry; the release is the additive inverse of the
//! apply.

use vstd::prelude::*;

use crate::player::Player;

verus! {

/// Ticks a speed buff stays active.
pub const SPEED_BUFF_TICKS: i32 = 10;
/// Ticks a gravity buff stays active.
pub const GRAVITY_BUFF_TICKS: i32 = 5;

/// A temporary boost of the player's horizontal scroll speed.
#[derive(Clone, Copy)]
pub struct SpeedBuffEffect {
    /// Remaining ticks; the effect expires when this reaches zero.
    pub time: i32,
}

impl SpeedBuffEffect {
    pub fn new() -> (e: SpeedBuffEffect)
        ensures
            e.time == SPEED_BUFF_TICKS,
    {
        SpeedBuffEffect { time: SPEED_BUFF_TICKS }
    }
}

/// A temporary increase of the player's per-tick gravity increment.
#[derive(Clone, Copy)]
pub struct GravityBuffEffect {
    /// Remaining ticks; the effect expires when this reaches zero.
    pub time: i32,
}

impl GravityBuffEffect {
    pub fn new() -> (e: GravityBuffEffect)
        ensures
            e.time == GRAVITY_BUFF_TICKS,
    {
        GravityBuffEffect { time: GRAVITY_BUFF_TICKS }
    }
}

/// The closed set of effect variants, dispatched by pattern match.
#[derive(Clone, Copy)]
pub enum Effect {
    Speed(SpeedBuffEffect),
    Gravity(GravityBuffEffect),
}

/// The player state after `e.apply(..)`: a speed buff adds one column per tick
/// to the horizontal speed, a gravity buff adds one half-cell to the gravity
/// increment.
pub open spec fn apply_spec(e: Effect, p: Player) -> Player {
    match e {
        Effect::Speed(_) => Player { x_speed: (p.x_speed + 1) as i32, ..p },
        Effect::Gravity(_) => Player { velocity_base: (p.velocity_base + 1) as i32, ..p },
    }
}

/// The player state after `e.release(..)`: the exact additive inverse of
/// `apply_spec`.
pub open spec fn release_spec(e: Effect, p: Player) -> Player {
    match e {
        Effect::Speed(_) => Player { x_speed: (p.x_speed - 1) as i32, ..p },
        Effect::Gravity(_) => Player { velocity_base: (p.velocity_base - 1) as i32, ..p },
    }
}

impl Effect {
    /// Remaining ticks before expiry.
    pub open spec fn time(self) -> int {
        match self {
            Effect::Speed(e) => e.time as int,
            Effect::Gravity(e) => e.time as int,
        }
    }

    /// The same effect with one tick fewer remaining.
    pub open spec fn ticked(self) -> Effect {
        match self {
            Effect::Speed(e) => Effect::Speed(SpeedBuffEffect { time: (e.time - 1) as i32 }),
            Effect::Gravity(e) => Effect::Gravity(GravityBuffEffect { time: (e.time - 1) as i32 }),
        }
    }

    /// An active effect has at least one tick left.
    pub open spec fn active(self) -> bool {
        self.time() >= 1
    }

    /// Counts the expiry clock down by one tick.
    pub fn tick_clocks(&mut self)
        requires
            old(self).time() >= 1,
        ensures
            *final(self) == old(self).ticked(),
    {
        match self {
            Effect::Speed(e) => e.time = e.time - 1,
            Effect::Gravity(e) => e.time = e.time - 1,
        }
    }

    /// An effect is finished exactly when its countdown has reached zero.
    pub fn is_finished(&self) -> (r: bool)
        ensures
            r == (self.time() == 0),
    {
        match self {
            Effect::Speed(e) => e.time == 0,
            Effect::Gravity(e) => e.time == 0,
        }
    }

    /// Grants the effect's bonus to the player.
    pub fn apply(&self, player: &mut Player)
        requires
            self is Speed ==> old(player).x_speed < i32::MAX,
            self is Gravity ==> old(player).velocity_base < i32::MAX,
        ensures
            *final(player) == apply_spec(*self, *old(player)),
    {
        match self {
            Effect::Speed(_) => player.x_speed = player.x_speed + 1,
            Effect::Gravity(_) => player.velocity_base = player.velocity_base + 1,
        }
    }

    /// Withdraws the effect's bonus from the player, undoing `apply`.
    pub fn release(&self, player: &mut Player)
        requires
            self is Speed ==> old(player).x_speed > i32::MIN,
            self is Gravity ==> old(player).velocity_base > i32::MIN,
        ensures
            *final(player) == release_spec(*self, *old(player)),
    {
        match self {
            Effect::Speed(_) => player.x_speed = player.x_speed - 1,
            Effect::Gravity(_) => player.velocity_base = player.velocity_base - 1,
        }
    }
}

/// Law: one `apply` followed by one `release` of the same effect leaves every
/// player field as it was; the net numeric change is zero.
pub proof fn lemma_apply_release_round_trip(e: Effect, p: Player)
    requires
        p.x_speed < i32::MAX,
        p.velocity_base < i32::MAX,
    ensures
        release_spec(e, apply_spec(e, p)) == p,
{
}

} // verus!
