//! The player-controlled entity: position, vertical velocity, horizontal
//! scroll speed, and the set of active timed effects.
//!
//! Vertical motion is measured in half-cells per tick so it stays in exact
//! integer arithmetic: a flap impulse of -4.0 cells is -8 halves, the fall-speed
//! cap of 2.5 cells is 5 halves, and the base gravity increment of 0.5 cells is
//! 1 half. Each tick the truncated whole-cell part of the velocity is added to
//! the vertical position.

use vstd::prelude::*;

use crate::effects::Effect;

verus! {

/// Upward impulse set by a flap, in half-cells per tick (-4.0 cells).
pub const FLAP_VELOCITY_HALVES: i32 = -8;
/// Cap on downward velocity, in half-cells per tick (2.5 cells). Gravity stops
/// accelerating the player at this speed.
pub const VELOCITY_CAP_HALVES: i32 = 5;
/// Gravity increment per tick with no active effects, in half-cells (0.5 cells).
pub const BASE_GRAVITY_HALVES: i32 = 1;

/// Number of speed-buff effects in a sequence.
pub open spec fn count_speed(s: Seq<Effect>) -> int
    decreases s.len(),
{
    if s.len() == 0 {
        0
    } else {
        count_speed(s.drop_last()) + if s.last() is Speed {
            1int
        } else {
            0int
        }
    }
}

/// Number of gravity-buff effects in a sequence.
pub open spec fn count_gravity(s: Seq<Effect>) -> int
    decreases s.len(),
{
    if s.len() == 0 {
        0
    } else {
        count_gravity(s.drop_last()) + if s.last() is Gravity {
            1int
        } else {
            0int
        }
    }
}

/// Every effect in the sequence still has ticks left.
pub open spec fn all_active(s: Seq<Effect>) -> bool {
    forall|i: int| 0 <= i < s.len() ==> s[i].active()
}

/// Each effect is either a speed or a gravity buff, so the two counts
/// partition the sequence.
pub proof fn lemma_count_bounds(s: Seq<Effect>)
    ensures
        0 <= count_speed(s),
        0 <= count_gravity(s),
        count_speed(s) + count_gravity(s) == s.len(),
    decreases s.len(),
{
    if s.len() > 0 {
        lemma_count_bounds(s.drop_last());
    }
}

/// Counting a sequence splits across any cut point.
pub proof fn lemma_count_split(s: Seq<Effect>, k: int)
    requires
        0 <= k <= s.len(),
    ensures
        count_speed(s) == count_speed(s.subrange(0, k)) + count_speed(
            s.subrange(k, s.len() as int),
        ),
        count_gravity(s) == count_gravity(s.subrange(0, k)) + count_gravity(
            s.subrange(k, s.len() as int),
        ),
    decreases s.len(),
{
    if k == s.len() {
        assert(s.subrange(0, k) =~= s);
        assert(s.subrange(k, s.len() as int) =~= Seq::<Effect>::empty());
    } else {
        let shorter = s.drop_last();
        lemma_count_split(shorter, k);
        assert(s.subrange(0, k) =~= shorter.subrange(0, k));
        let tail = s.subrange(k, s.len() as int);
        assert(tail.drop_last() =~= shorter.subrange(k, shorter.len() as int));
        assert(tail.last() == s.last());
    }
}

/// Counting distributes over concatenation.
pub proof fn lemma_count_concat(a: Seq<Effect>, b: Seq<Effect>)
    ensures
        count_speed(a + b) == count_speed(a) + count_speed(b),
        count_gravity(a + b) == count_gravity(a) + count_gravity(b),
    decreases b.len(),
{
    if b.len() == 0 {
        assert(a + b =~= a);
    } else {
        lemma_count_concat(a, b.drop_last());
        assert((a + b).drop_last() =~= a + b.drop_last());
        assert((a + b).last() == b.last());
    }
}

/// The effects that survive one countdown step, each with one tick fewer, in
/// their original order.
pub open spec fn tick_survivors(s: Seq<Effect>) -> Seq<Effect>
    decreases s.len(),
{
    if s.len() == 0 {
        Seq::empty()
    } else {
        let rest = tick_survivors(s.drop_last());
        let e = s.last().ticked();
        if e.time() != 0 {
            rest.push(e)
        } else {
            rest
        }
    }
}

/// The effects that expire on one countdown step, in their original order.
pub open spec fn tick_expired(s: Seq<Effect>) -> Seq<Effect>
    decreases s.len(),
{
    if s.len() == 0 {
        Seq::empty()
    } else {
        let rest = tick_expired(s.drop_last());
        let e = s.last().ticked();
        if e.time() == 0 {
            rest.push(e)
        } else {
            rest
        }
    }
}

/// A countdown step neither creates nor destroys effects of either kind: the
/// survivors and the expired together count exactly the original sequence.
pub proof fn lemma_tick_partition_counts(s: Seq<Effect>)
    ensures
        count_speed(tick_survivors(s)) + count_speed(tick_expired(s)) == count_speed(s),
        count_gravity(tick_survivors(s)) + count_gravity(tick_expired(s)) == count_gravity(s),
    decreases s.len(),
{
    if s.len() > 0 {
        lemma_tick_partition_counts(s.drop_last());
        let rest_s = tick_survivors(s.drop_last());
        let rest_e = tick_expired(s.drop_last());
        let e = s.last().ticked();
        assert(rest_s.push(e).drop_last() =~= rest_s);
        assert(rest_e.push(e).drop_last() =~= rest_e);
    }
}

/// Effects that survive a countdown step of an all-active sequence are still
/// active.
pub proof fn lemma_tick_survivors_active(s: Seq<Effect>)
    requires
        all_active(s),
    ensures
        all_active(tick_survivors(s)),
    decreases s.len(),
{
    if s.len() > 0 {
        let shorter = s.drop_last();
        assert forall|i: int| 0 <= i < shorter.len() implies shorter[i].active() by {
            assert(s[i].active());
        }
        lemma_tick_survivors_active(shorter);
        let rest = tick_survivors(shorter);
        let e = s.last().ticked();
        if e.time() != 0 {
            assert(s.last().active());
            assert forall|i: int| 0 <= i < rest.push(e).len() implies rest.push(e)[i].active() by {
                if i < rest.len() {
                    assert(rest[i].active());
                }
            }
        }
    }
}

/// The whole-cell part of a velocity in half-cells, truncated toward zero,
/// matching how a fractional velocity is cast to a cell offset.
pub open spec fn fall_step(v: int) -> int {
    if v >= 0 {
        v / 2
    } else {
        -((-v) / 2)
    }
}

/// The velocity after one tick of gravity: while below the cap it grows by the
/// gravity increment, clamped at the cap; at or above the cap it is unchanged.
pub open spec fn next_velocity(v: int, base: int) -> int {
    if v < VELOCITY_CAP_HALVES {
        if v + base >= VELOCITY_CAP_HALVES {
            VELOCITY_CAP_HALVES as int
        } else {
            v + base
        }
    } else {
        v
    }
}

/// The player's physical state plus its active effects, in acquisition order.
pub struct Player {
    /// Horizontal world-scroll coordinate.
    pub x: i32,
    /// Vertical position, unbounded here; the playfield bounds are enforced by
    /// the simulation's collision check, not by a silent clamp.
    pub y: i32,
    /// Vertical speed in half-cells per tick; negative is upward.
    pub velocity: i32,
    /// Per-tick gravity increment in half-cells, raised and lowered by effects.
    pub velocity_base: i32,
    /// Horizontal scroll speed in columns per tick; 0 until launched.
    pub x_speed: i32,
    /// Active effects, in the order they were granted.
    pub effects: Vec<Effect>,
}

impl Player {
    /// Horizontal speed not accounted for by speed buffs: 0 before launch,
    /// 1 afterwards.
    pub open spec fn launch_offset(self) -> int {
        self.x_speed - count_speed(self.effects@)
    }

    /// Well-formedness: the gravity increment is the base plus one per active
    /// gravity buff, the horizontal speed is the launch state plus one per
    /// active speed buff, the velocity lies between flap impulse and cap, and
    /// every held effect still has ticks left.
    pub open spec fn wf(self) -> bool {
        &&& self.velocity_base == BASE_GRAVITY_HALVES + count_gravity(self.effects@)
        &&& 0 <= self.launch_offset() <= 1
        &&& FLAP_VELOCITY_HALVES <= self.velocity <= VELOCITY_CAP_HALVES
        &&& all_active(self.effects@)
    }

    /// A freshly spawned player: at rest at the given position, base gravity,
    /// not yet launched, no effects.
    pub fn new(x: i32, y: i32) -> (p: Player)
        ensures
            p.x == x,
            p.y == y,
            p.velocity == 0,
            p.velocity_base == BASE_GRAVITY_HALVES,
            p.x_speed == 0,
            p.effects@ =~= Seq::<Effect>::empty(),
            p.wf(),
    {
        Player {
            x,
            y,
            velocity: 0,
            velocity_base: BASE_GRAVITY_HALVES,
            x_speed: 0,
            effects: Vec::new(),
        }
    }

    /// An instantaneous upward impulse: the velocity is reset to the flap
    /// constant; nothing else changes.
    pub fn flap(&mut self)
        ensures
            *final(self) == (Player { velocity: FLAP_VELOCITY_HALVES, ..*old(self) }),
    {
        self.velocity = FLAP_VELOCITY_HALVES;
    }

    /// One tick of physics. A no-op while the player is not launched
    /// (`x_speed == 0`); otherwise gravity accelerates the fall up to the cap,
    /// the truncated whole-cell velocity is added to `y`, and `x_speed` is
    /// added to `x`.
    pub fn gravity_and_move(&mut self)
        requires
            old(self).wf(),
            old(self).x_speed != 0 ==> old(self).x + old(self).x_speed <= i32::MAX,
            old(self).x_speed != 0 ==> i32::MIN + 4 <= old(self).y <= i32::MAX - 2,
        ensures
            final(self).wf(),
            final(self).velocity_base == old(self).velocity_base,
            final(self).x_speed == old(self).x_speed,
            final(self).effects@ == old(self).effects@,
            old(self).x_speed == 0 ==> *final(self) == *old(self),
            old(self).x_speed != 0 ==> final(self).velocity == next_velocity(
                old(self).velocity as int,
                old(self).velocity_base as int,
            ),
            old(self).x_speed != 0 ==> final(self).y == old(self).y + fall_step(
                final(self).velocity as int,
            ),
            old(self).x_speed != 0 ==> final(self).x == old(self).x + old(self).x_speed,
    {
        proof {
            lemma_count_bounds(self.effects@);
        }
        if self.x_speed != 0 {
            if self.velocity < VELOCITY_CAP_HALVES {
                let room = VELOCITY_CAP_HALVES - self.velocity;
                if self.velocity_base >= room {
                    self.velocity = VELOCITY_CAP_HALVES;
                } else {
                    self.velocity = self.velocity + self.velocity_base;
                }
            }
            let step = if self.velocity >= 0 {
                self.velocity / 2
            } else {
                -((-self.velocity) / 2)
            };
            self.y = self.y + step;
            self.x = self.x + self.x_speed;
        }
    }

    /// One countdown step over the active effects: every effect loses one
    /// tick; the ones that reach zero are removed, in order, and each removed
    /// effect is released exactly once, undoing its apply. Survivors keep
    /// their acquisition order.
    pub fn apply_effects(&mut self)
        requires
            old(self).wf(),
        ensures
            final(self).wf(),
            final(self).x == old(self).x,
            final(self).y == old(self).y,
            final(self).velocity == old(self).velocity,
            final(self).effects@ == tick_survivors(old(self).effects@),
            final(self).x_speed == old(self).x_speed - count_speed(
                tick_expired(old(self).effects@),
            ),
            final(self).velocity_base == old(self).velocity_base - count_gravity(
                tick_expired(old(self).effects@),
            ),
    {
        let ghost orig = self.effects@;
        let ghost x0 = self.x_speed as int;
        let ghost b0 = self.velocity_base as int;
        let n = self.effects.len();
        let mut survivors: Vec<Effect> = Vec::new();
        let mut expired: Vec<Effect> = Vec::new();
        let mut i: usize = 0;
        while i < n
            invariant
                i <= n,
                n == self.effects@.len(),
                self.effects@ == orig,
                all_active(orig),
                survivors@ == tick_survivors(orig.subrange(0, i as int)),
                expired@ == tick_expired(orig.subrange(0, i as int)),
                self.x == old(self).x,
                self.y == old(self).y,
                self.velocity == old(self).velocity,
                self.x_speed as int == x0,
                self.velocity_base as int == b0,
            decreases n - i,
        {
            let mut e = self.effects[i];
            proof {
                assert(orig[i as int].active());
            }
            e.tick_clocks();
            if e.is_finished() {
                expired.push(e);
            } else {
                survivors.push(e);
            }
            proof {
                assert(orig.subrange(0, i as int + 1).drop_last() =~= orig.subrange(0, i as int));
                assert(orig.subrange(0, i as int + 1).last() == orig[i as int]);
            }
            i = i + 1;
        }
        proof {
            assert(orig.subrange(0, n as int) =~= orig);
        }
        let ghost surviving = tick_survivors(orig);
        let ghost expiring = tick_expired(orig);
        proof {
            lemma_count_bounds(orig);
        }
        self.effects = survivors;
        let m = expired.len();
        let mut j: usize = 0;
        while j < m
            invariant
                j <= m,
                m == expiring.len(),
                expired@ == expiring,
                self.effects@ == surviving,
                self.x == old(self).x,
                self.y == old(self).y,
                self.velocity == old(self).velocity,
                self.x_speed == x0 - count_speed(expiring.subrange(0, j as int)),
                self.velocity_base == b0 - count_gravity(expiring.subrange(0, j as int)),
                0 <= x0 - count_speed(orig) <= x0,
                b0 == BASE_GRAVITY_HALVES + count_gravity(orig),
                expiring == tick_expired(orig),
                surviving == tick_survivors(orig),
            decreases m - j,
        {
            proof {
                lemma_count_split(expiring, j as int);
                lemma_count_bounds(expiring.subrange(j as int, m as int));
                lemma_count_bounds(tick_survivors(orig));
                lemma_tick_partition_counts(orig);
                assert(expiring.subrange(0, j as int + 1).drop_last() =~= expiring.subrange(
                    0,
                    j as int,
                ));
                assert(expiring.subrange(0, j as int + 1).last() == expiring[j as int]);
            }
            let e = expired[j];
            e.release(self);
            j = j + 1;
        }
        proof {
            assert(expiring.subrange(0, m as int) =~= expiring);
            lemma_tick_partition_counts(orig);
            lemma_tick_survivors_active(orig);
            lemma_count_bounds(orig);
            lemma_count_bounds(expiring);
            lemma_count_bounds(surviving);
        }
    }
}

} // verus!
