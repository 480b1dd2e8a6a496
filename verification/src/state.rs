//! The simulation that owns all entities and advances them one tick at a time:
//! physics, spawning, collision, cleanup, and scoring. The loop driver outside
//! the library feeds each tick the (already abstracted) key event and a random
//! number generator, and renders between ticks.

use vstd::prelude::*;

use crate::config::GameConfig;
use crate::effects::Effect;
use crate::obstacle::{gap_size, Obstacle, OBSTACLE_SPAN};
use crate::player::{
    all_active, count_gravity, count_speed, fall_step, lemma_count_bounds, lemma_count_concat,
    next_velocity, tick_expired, tick_survivors, Player, BASE_GRAVITY_HALVES,
    FLAP_VELOCITY_HALVES,
};
use crate::powerups::{effect_of, GravityDebuff, PowerUp, SpeedPowerUp};
use crate::rng::rng_range;

verus! {

/// Column the player starts a run at.
pub const PLAYER_START_X: i32 = 5;
/// Row the player starts a run at.
pub const PLAYER_START_Y: i32 = 25;
/// A power-up spawns on roughly one tick in this many.
pub const POWERUP_SPAWN_ROLL: i32 = 300;
/// Bound of the variant roll; at or above half the roll picks a speed power-up.
pub const POWERUP_VARIANT_ROLL: i32 = 100;

/// The three screens of the game. A run is over when the mode reaches `End`.
#[derive(Clone, Copy, PartialEq, Eq, Structural)]
pub enum GameMode {
    Menu,
    Playing,
    End,
}

/// The one discrete input a tick may carry, already decoded from the raw key:
/// flap (launches the run on its first use), quit, or - on the menu and
/// game-over screens - start a new run.
#[derive(Clone, Copy, PartialEq, Eq, Structural)]
pub enum KeyInput {
    Flap,
    Quit,
    Start,
}

/// Obstacles whose right edge has not yet scrolled behind the player's column,
/// in their original order.
pub open spec fn remaining_obstacles(obs: Seq<Obstacle>, px: int) -> Seq<Obstacle>
    decreases obs.len(),
{
    if obs.len() == 0 {
        Seq::empty()
    } else {
        let rest = remaining_obstacles(obs.drop_last(), px);
        if obs.last().x + OBSTACLE_SPAN < px {
            rest
        } else {
            rest.push(obs.last())
        }
    }
}

/// Number of obstacles whose right edge has scrolled behind the player's
/// column; each one scores a point when pruned.
pub open spec fn count_passed(obs: Seq<Obstacle>, px: int) -> int
    decreases obs.len(),
{
    if obs.len() == 0 {
        0
    } else {
        count_passed(obs.drop_last(), px) + if obs.last().x + OBSTACLE_SPAN < px {
            1int
        } else {
            0int
        }
    }
}

/// Number of obstacles strictly ahead of the player's column.
pub open spec fn count_ahead(obs: Seq<Obstacle>, px: int) -> int
    decreases obs.len(),
{
    if obs.len() == 0 {
        0
    } else {
        count_ahead(obs.drop_last(), px) + if obs.last().x > px {
            1int
        } else {
            0int
        }
    }
}

/// Ahead-counting distributes over concatenation, never goes negative, and
/// counts everything when all of a sequence lies ahead.
pub proof fn lemma_count_ahead_concat(a: Seq<Obstacle>, b: Seq<Obstacle>, px: int)
    ensures
        count_ahead(a + b, px) == count_ahead(a, px) + count_ahead(b, px),
        0 <= count_ahead(a, px),
        (forall|k: int| 0 <= k < b.len() ==> (#[trigger] b[k]).x > px) ==> count_ahead(b, px)
            == b.len(),
    decreases a.len() + b.len(),
{
    if b.len() == 0 {
        assert(a + b =~= a);
        if a.len() > 0 {
            lemma_count_ahead_concat(a.drop_last(), b, px);
        }
    } else {
        lemma_count_ahead_concat(a, b.drop_last(), px);
        assert((a + b).drop_last() =~= a + b.drop_last());
        assert((a + b).last() == b.last());
        let shorter = b.drop_last();
        if forall|k: int| 0 <= k < b.len() ==> (#[trigger] b[k]).x > px {
            assert forall|k: int| 0 <= k < shorter.len() implies (#[trigger] shorter[k]).x
                > px by {
                assert(b[k].x > px);
            }
            assert(b.last() == b[b.len() - 1]);
        }
    }
}

/// Whether any obstacle in the sequence collides with a player at the given
/// position.
pub open spec fn hit_any(obs: Seq<Obstacle>, px: int, py: int) -> bool
    decreases obs.len(),
{
    if obs.len() == 0 {
        false
    } else {
        hit_any(obs.drop_last(), px, py) || obs.last().hit_spec(px, py)
    }
}

/// Power-ups that are still at or ahead of the player's column, in order.
pub open spec fn ahead_powerups(ps: Seq<PowerUp>, px: int) -> Seq<PowerUp>
    decreases ps.len(),
{
    if ps.len() == 0 {
        Seq::empty()
    } else {
        let rest = ahead_powerups(ps.drop_last(), px);
        if ps.last().spec_x() < px {
            rest
        } else {
            rest.push(ps.last())
        }
    }
}

/// Power-ups the player does not touch at the given position, in order; the
/// touched ones are collected and leave play.
pub open spec fn surviving_powerups(ps: Seq<PowerUp>, px: int, py: int) -> Seq<PowerUp>
    decreases ps.len(),
{
    if ps.len() == 0 {
        Seq::empty()
    } else {
        let rest = surviving_powerups(ps.drop_last(), px, py);
        if ps.last().collide_spec(px, py) {
            rest
        } else {
            rest.push(ps.last())
        }
    }
}

/// The effects granted by the power-ups the player touches at the given
/// position, in collection order.
pub open spec fn granted_effects(ps: Seq<PowerUp>, px: int, py: int) -> Seq<Effect>
    decreases ps.len(),
{
    if ps.len() == 0 {
        Seq::empty()
    } else {
        let rest = granted_effects(ps.drop_last(), px, py);
        if ps.last().collide_spec(px, py) {
            rest.push(effect_of(ps.last()))
        } else {
            rest
        }
    }
}

/// Effects granted on collection are freshly constructed, so they are active,
/// and at most one is granted per power-up.
pub proof fn lemma_granted_effects_props(ps: Seq<PowerUp>, px: int, py: int)
    ensures
        all_active(granted_effects(ps, px, py)),
        granted_effects(ps, px, py).len() <= ps.len(),
    decreases ps.len(),
{
    if ps.len() > 0 {
        lemma_granted_effects_props(ps.drop_last(), px, py);
        let rest = granted_effects(ps.drop_last(), px, py);
        if ps.last().collide_spec(px, py) {
            let e = effect_of(ps.last());
            assert forall|i: int| 0 <= i < rest.push(e).len() implies rest.push(e)[i].active() by {
                if i < rest.len() {
                    assert(rest[i].active());
                }
            }
        }
    }
}

/// Passed-obstacle counting distributes over concatenation.
pub proof fn lemma_count_passed_concat(a: Seq<Obstacle>, b: Seq<Obstacle>, px: int)
    ensures
        count_passed(a + b, px) == count_passed(a, px) + count_passed(b, px),
    decreases b.len(),
{
    if b.len() == 0 {
        assert(a + b =~= a);
    } else {
        lemma_count_passed_concat(a, b.drop_last(), px);
        assert((a + b).drop_last() =~= a + b.drop_last());
        assert((a + b).last() == b.last());
    }
}

/// Obstacles whose right edge is at or ahead of the player's column count as
/// not passed.
pub proof fn lemma_count_passed_ahead(b: Seq<Obstacle>, px: int)
    requires
        forall|k: int| 0 <= k < b.len() ==> (#[trigger] b[k]).x + OBSTACLE_SPAN >= px,
    ensures
        count_passed(b, px) == 0,
    decreases b.len(),
{
    if b.len() > 0 {
        let shorter = b.drop_last();
        assert forall|k: int| 0 <= k < shorter.len() implies (#[trigger] shorter[k]).x
            + OBSTACLE_SPAN >= px by {
            assert(b[k].x + OBSTACLE_SPAN >= px);
        }
        lemma_count_passed_ahead(shorter, px);
        assert(b.last() == b[b.len() - 1]);
    }
}

/// Filtering for remaining obstacles distributes over concatenation.
pub proof fn lemma_remaining_concat(a: Seq<Obstacle>, b: Seq<Obstacle>, px: int)
    ensures
        remaining_obstacles(a + b, px) == remaining_obstacles(a, px) + remaining_obstacles(b, px),
    decreases b.len(),
{
    if b.len() == 0 {
        assert(a + b =~= a);
        assert(remaining_obstacles(a, px) + remaining_obstacles(b, px) =~= remaining_obstacles(
            a,
            px,
        ));
    } else {
        lemma_remaining_concat(a, b.drop_last(), px);
        assert((a + b).drop_last() =~= a + b.drop_last());
        assert((a + b).last() == b.last());
        if !(b.last().x + OBSTACLE_SPAN < px) {
            assert(remaining_obstacles(a, px) + remaining_obstacles(b.drop_last(), px).push(
                b.last(),
            ) =~= (remaining_obstacles(a, px) + remaining_obstacles(b.drop_last(), px)).push(
                b.last(),
            ));
        }
    }
}

/// Obstacles whose right edge is at or ahead of the player's column all remain.
pub proof fn lemma_remaining_all_kept(b: Seq<Obstacle>, px: int)
    requires
        forall|k: int| 0 <= k < b.len() ==> (#[trigger] b[k]).x + OBSTACLE_SPAN >= px,
    ensures
        remaining_obstacles(b, px) == b,
    decreases b.len(),
{
    if b.len() > 0 {
        let shorter = b.drop_last();
        assert forall|k: int| 0 <= k < shorter.len() implies (#[trigger] shorter[k]).x
            + OBSTACLE_SPAN >= px by {
            assert(b[k].x + OBSTACLE_SPAN >= px);
        }
        lemma_remaining_all_kept(shorter, px);
        assert(b.last() == b[b.len() - 1]);
        assert(shorter.push(b.last()) =~= b);
    }
}

/// An obstacle of a concatenation hits exactly when one of either part does.
pub proof fn lemma_hit_any_concat(a: Seq<Obstacle>, b: Seq<Obstacle>, px: int, py: int)
    ensures
        hit_any(a + b, px, py) == (hit_any(a, px, py) || hit_any(b, px, py)),
    decreases b.len(),
{
    if b.len() == 0 {
        assert(a + b =~= a);
    } else {
        lemma_hit_any_concat(a, b.drop_last(), px, py);
        assert((a + b).drop_last() =~= a + b.drop_last());
        assert((a + b).last() == b.last());
    }
}

/// Obstacles strictly ahead of the player's column cannot be hit.
pub proof fn lemma_hit_any_ahead(b: Seq<Obstacle>, px: int, py: int)
    requires
        forall|k: int| 0 <= k < b.len() ==> (#[trigger] b[k]).x > px,
    ensures
        !hit_any(b, px, py),
    decreases b.len(),
{
    if b.len() > 0 {
        let shorter = b.drop_last();
        assert forall|k: int| 0 <= k < shorter.len() implies (#[trigger] shorter[k]).x > px by {
            assert(b[k].x > px);
        }
        lemma_hit_any_ahead(shorter, px, py);
        assert(b.last() == b[b.len() - 1]);
    }
}

/// The player's column after one physics step: advanced by the scroll speed
/// once launched, unchanged before.
pub open spec fn moved_x(p: Player) -> int {
    if p.x_speed == 0 {
        p.x as int
    } else {
        p.x + p.x_speed
    }
}

/// The player's row after one physics step: unchanged before launch, otherwise
/// shifted by the truncated whole-cell part of the gravity-updated velocity.
pub open spec fn moved_y(p: Player) -> int {
    if p.x_speed == 0 {
        p.y as int
    } else {
        p.y + fall_step(next_velocity(p.velocity as int, p.velocity_base as int))
    }
}

/// The deterministic face of one playing-mode tick: where the player moves,
/// how the score advances, and exactly when the run ends. Spawning and
/// power-up collection are randomized and so only constrained by the
/// well-formedness the tick preserves.
pub open spec fn play_transition(pre: State, post: State, key: Option<KeyInput>) -> bool {
    let px = moved_x(pre.player);
    let py = moved_y(pre.player);
    &&& post.config == pre.config
    &&& (post.mode is Playing || post.mode is End)
    &&& post.player.x as int == px
    &&& post.player.y as int == py
    &&& post.score == pre.score + count_passed(pre.obstacle_vec@, px)
    &&& ((post.mode is End) <==> (key == Some(KeyInput::Quit) || hit_any(
        pre.obstacle_vec@,
        px,
        py,
    ) || py < 0 || py > pre.config.height))
    &&& post.obstacle_vec@.subrange(0, remaining_obstacles(pre.obstacle_vec@, px).len() as int)
        == remaining_obstacles(pre.obstacle_vec@, px)
    &&& forall|k: int|
        remaining_obstacles(pre.obstacle_vec@, px).len() <= k < post.obstacle_vec@.len() ==> {
            let o = #[trigger] post.obstacle_vec@[k];
            &&& o.wf()
            &&& o.x > px
            &&& o.size == gap_size(pre.score as int)
        }
}

/// The whole game: the player, the scrolling entities, the mode, and the
/// score, over a fixed playfield.
pub struct State {
    /// The playfield dimensions, fixed at construction.
    pub config: GameConfig,
    /// The player-controlled entity.
    pub player: Player,
    /// Obstacles in spawn order.
    pub obstacle_vec: Vec<Obstacle>,
    /// Power-ups in spawn order.
    pub powerups: Vec<PowerUp>,
    /// Which screen the game is on.
    pub mode: GameMode,
    /// Obstacles passed so far this run.
    pub score: i32,
}

impl State {
    /// Well-formedness: the playfield is supported, the player's bookkeeping
    /// invariants hold, the score is a count, and every entity is well-formed.
    pub open spec fn wf(self) -> bool {
        &&& self.config.wf()
        &&& self.player.wf()
        &&& 0 <= self.score
        &&& forall|i: int|
            0 <= i < self.obstacle_vec@.len() ==> (#[trigger] self.obstacle_vec@[i]).wf()
        &&& forall|i: int| 0 <= i < self.powerups@.len() ==> (#[trigger] self.powerups@[i]).wf()
    }

    /// While a run is in progress the player is inside the vertical playfield;
    /// leaving it ends the run on the same tick.
    pub open spec fn in_vertical_bounds(self) -> bool {
        self.mode is Playing ==> 0 <= self.player.y <= self.config.height
    }

    /// A freshly (re)started run: everything reset, mode `Playing`.
    pub open spec fn fresh_run(self, config: GameConfig) -> bool {
        &&& self.config == config
        &&& self.mode is Playing
        &&& self.score == 0
        &&& self.obstacle_vec@.len() == 0
        &&& self.powerups@.len() == 0
        &&& self.player.x == PLAYER_START_X
        &&& self.player.y == PLAYER_START_Y
        &&& self.player.velocity == 0
        &&& self.player.velocity_base == BASE_GRAVITY_HALVES
        &&& self.player.x_speed == 0
        &&& self.player.effects@.len() == 0
    }

    /// A new game on the given playfield, opening on the menu screen.
    pub fn new(config: GameConfig) -> (s: State)
        requires
            config.wf(),
        ensures
            s.wf(),
            s.in_vertical_bounds(),
            s.config == config,
            s.mode is Menu,
            s.score == 0,
            s.obstacle_vec@.len() == 0,
            s.powerups@.len() == 0,
            s.player.x == PLAYER_START_X,
            s.player.y == PLAYER_START_Y,
            s.player.x_speed == 0,
    {
        State {
            config,
            player: Player::new(PLAYER_START_X, PLAYER_START_Y),
            obstacle_vec: Vec::new(),
            powerups: Vec::new(),
            mode: GameMode::Menu,
            score: 0,
        }
    }

    /// Resets the run: fresh player, empty entity collections, zero score,
    /// mode `Playing`. The playfield is kept.
    pub fn restart(&mut self)
        requires
            old(self).config.wf(),
        ensures
            final(self).wf(),
            final(self).in_vertical_bounds(),
            final(self).fresh_run(old(self).config),
    {
        self.player = Player::new(PLAYER_START_X, PLAYER_START_Y);
        self.score = 0;
        self.obstacle_vec = Vec::new();
        self.powerups = Vec::new();
        self.mode = GameMode::Playing;
    }

    /// Applies the tick's key event: a flap launches the run if it has not
    /// started and resets the velocity to the flap impulse; quit ends a
    /// running game; anything else is ignored here.
    pub fn listen_keys(&mut self, key: Option<KeyInput>)
        requires
            old(self).wf(),
        ensures
            final(self).wf(),
            final(self).config == old(self).config,
            final(self).score == old(self).score,
            final(self).obstacle_vec@ == old(self).obstacle_vec@,
            final(self).powerups@ == old(self).powerups@,
            final(self).player.x == old(self).player.x,
            final(self).player.y == old(self).player.y,
            final(self).player.velocity_base == old(self).player.velocity_base,
            final(self).player.effects@ == old(self).player.effects@,
            key == Some(KeyInput::Flap) ==> {
                &&& final(self).player.velocity == FLAP_VELOCITY_HALVES
                &&& final(self).player.x_speed == (if old(self).player.x_speed == 0 {
                    1int
                } else {
                    old(self).player.x_speed as int
                })
                &&& final(self).mode == old(self).mode
            },
            key == Some(KeyInput::Quit) ==> {
                &&& final(self).player == old(self).player
                &&& final(self).mode == (if old(self).mode is Playing {
                    GameMode::End
                } else {
                    old(self).mode
                })
            },
            (key is None || key == Some(KeyInput::Start)) ==> *final(self) == *old(self),
    {
        match key {
            Some(KeyInput::Flap) => {
                if self.player.x_speed == 0 {
                    proof {
                        lemma_count_bounds(self.player.effects@);
                    }
                    self.player.x_speed = 1;
                }
                self.player.flap();
            },
            Some(KeyInput::Quit) => {
                match self.mode {
                    GameMode::Playing => {
                        self.mode = GameMode::End;
                    },
                    _ => {},
                }
            },
            _ => {},
        }
    }

    /// One physics step for the player (see `Player::gravity_and_move`).
    pub fn move_and_gravity(&mut self)
        requires
            old(self).wf(),
            old(self).player.x_speed != 0 ==> old(self).player.x + old(self).player.x_speed
                <= i32::MAX,
            old(self).player.x_speed != 0 ==> i32::MIN + 4 <= old(self).player.y <= i32::MAX - 2,
        ensures
            final(self).wf(),
            final(self).config == old(self).config,
            final(self).score == old(self).score,
            final(self).mode == old(self).mode,
            final(self).obstacle_vec@ == old(self).obstacle_vec@,
            final(self).powerups@ == old(self).powerups@,
            final(self).player.x as int == moved_x(old(self).player),
            final(self).player.y as int == moved_y(old(self).player),
            final(self).player.x_speed == old(self).player.x_speed,
            final(self).player.velocity_base == old(self).player.velocity_base,
            final(self).player.effects@ == old(self).player.effects@,
    {
        self.player.gravity_and_move();
    }

    /// One countdown step over the player's effects (see
    /// `Player::apply_effects`).
    pub fn update_effects(&mut self)
        requires
            old(self).wf(),
        ensures
            final(self).wf(),
            final(self).config == old(self).config,
            final(self).score == old(self).score,
            final(self).mode == old(self).mode,
            final(self).obstacle_vec@ == old(self).obstacle_vec@,
            final(self).powerups@ == old(self).powerups@,
            final(self).player.x == old(self).player.x,
            final(self).player.y == old(self).player.y,
            final(self).player.velocity == old(self).player.velocity,
            final(self).player.effects@ == tick_survivors(old(self).player.effects@),
            final(self).player.x_speed == old(self).player.x_speed - count_speed(
                tick_expired(old(self).player.effects@),
            ),
            final(self).player.velocity_base == old(self).player.velocity_base - count_gravity(
                tick_expired(old(self).player.effects@),
            ),
    {
        self.player.apply_effects();
    }

    /// Keeps the field stocked: seeds one obstacle a screen ahead when the
    /// collection is empty, tops it up with three more at half-screen spacing
    /// when it holds fewer than three, and with a roughly 1-in-300 chance per
    /// tick spawns one power-up a screen ahead, the variant chosen by a fair
    /// second roll.
    pub fn objects_spawn(&mut self, rng: &mut bracket_random::prelude::RandomNumberGenerator)
        requires
            old(self).wf(),
            old(self).player.x + 3 * old(self).config.width <= i32::MAX - (OBSTACLE_SPAN - 1),
        ensures
            final(self).wf(),
            final(self).config == old(self).config,
            final(self).player == old(self).player,
            final(self).score == old(self).score,
            final(self).mode == old(self).mode,
            final(self).obstacle_vec@.len() >= 3,
            old(self).obstacle_vec@.len() < 3 ==> count_ahead(
                final(self).obstacle_vec@,
                old(self).player.x as int,
            ) >= 3,
            old(self).obstacle_vec@.len() >= 3 ==> final(self).obstacle_vec@ == old(
                self,
            ).obstacle_vec@,
            final(self).obstacle_vec@.len() <= old(self).obstacle_vec@.len() + 4,
            final(self).obstacle_vec@.subrange(0, old(self).obstacle_vec@.len() as int) == old(
                self,
            ).obstacle_vec@,
            forall|k: int|
                old(self).obstacle_vec@.len() <= k < final(self).obstacle_vec@.len() ==> {
                    let o = #[trigger] final(self).obstacle_vec@[k];
                    &&& o.wf()
                    &&& o.x >= old(self).player.x + old(self).config.width
                    &&& o.size == gap_size(old(self).score as int)
                },
            final(self).powerups@.len() <= old(self).powerups@.len() + 1,
            final(self).powerups@.subrange(0, old(self).powerups@.len() as int) == old(
                self,
            ).powerups@,
            forall|k: int|
                old(self).powerups@.len() <= k < final(self).powerups@.len() ==> {
                    let p = #[trigger] final(self).powerups@[k];
                    &&& p.wf()
                    &&& p.spec_x() == old(self).player.x + old(self).config.width
                },
    {
        let ghost obs0 = old(self).obstacle_vec@;
        let ghost px0 = old(self).player.x as int;
        let ghost w = old(self).config.width as int;
        let chance = rng_range(rng, 0, POWERUP_SPAWN_ROLL);
        let buff_choice = rng_range(rng, 0, POWERUP_VARIANT_ROLL);
        if self.obstacle_vec.len() == 0 {
            let o = Obstacle::new(self.player.x + self.config.width, self.score, rng);
            self.obstacle_vec.push(o);
            proof {
                assert(self.obstacle_vec@.subrange(0, obs0.len() as int) =~= obs0);
            }
        }
        if self.obstacle_vec.len() < 3 {
            let ghost base_len = self.obstacle_vec@.len();
            let mut i: i32 = 1;
            while i < 4
                invariant
                    1 <= i <= 4,
                    self.config == old(self).config,
                    self.player == old(self).player,
                    self.score == old(self).score,
                    self.mode == old(self).mode,
                    self.powerups@ == old(self).powerups@,
                    self.wf(),
                    px0 + 3 * w <= i32::MAX - (OBSTACLE_SPAN - 1),
                    px0 == self.player.x as int,
                    w == self.config.width as int,
                    self.obstacle_vec@.len() == base_len + (i - 1),
                    base_len <= 4,
                    obs0.len() <= base_len,
                    self.obstacle_vec@.subrange(0, obs0.len() as int) == obs0,
                    forall|k: int|
                        obs0.len() <= k < self.obstacle_vec@.len() ==> {
                            let o = #[trigger] self.obstacle_vec@[k];
                            &&& o.wf()
                            &&& o.x >= px0 + w
                            &&& o.size == gap_size(self.score as int)
                        },
                decreases 4 - i,
            {
                proof {
                    assert(self.config.width * i <= 4 * self.config.width) by (nonlinear_arith)
                        requires
                            0 <= self.config.width,
                            i <= 4,
                    ;
                    assert(0 <= self.config.width * i) by (nonlinear_arith)
                        requires
                            0 <= self.config.width,
                            0 <= i,
                    ;
                    vstd::arithmetic::div_mod::lemma_div_is_ordered(
                        self.config.width * i,
                        4 * self.config.width,
                        2,
                    );
                    vstd::arithmetic::div_mod::lemma_div_multiples_vanish(
                        2 * self.config.width,
                        2,
                    );
                    vstd::arithmetic::div_mod::lemma_div_pos_is_pos(self.config.width * i, 2);
                }
                let o = Obstacle::new(
                    self.player.x + self.config.width + self.config.width * i / 2,
                    self.score,
                    rng,
                );
                let ghost before = self.obstacle_vec@;
                self.obstacle_vec.push(o);
                proof {
                    assert(self.obstacle_vec@.subrange(0, obs0.len() as int) =~= before.subrange(
                        0,
                        obs0.len() as int,
                    ));
                }
                i = i + 1;
            }
        }
        if chance < 1 {
            let spawn_x = self.player.x + self.config.width;
            let ghost before_ps = self.powerups@;
            if buff_choice >= POWERUP_VARIANT_ROLL / 2 {
                let p = SpeedPowerUp::new(spawn_x, self.config.height, rng);
                self.powerups.push(PowerUp::Speed(p));
            } else {
                let p = GravityDebuff::new(spawn_x, self.config.height, rng);
                self.powerups.push(PowerUp::Gravity(p));
            }
            proof {
                assert(self.powerups@.subrange(0, before_ps.len() as int) =~= before_ps);
            }
        }
        proof {
            if obs0.len() < 3 {
                let fin = self.obstacle_vec@;
                let suffix = fin.subrange(obs0.len() as int, fin.len() as int);
                assert(fin =~= obs0 + suffix);
                assert forall|k: int| 0 <= k < suffix.len() implies (#[trigger] suffix[k]).x
                    > px0 by {
                    assert(fin[obs0.len() + k].x >= px0 + w);
                }
                lemma_count_ahead_concat(obs0, suffix, px0);
            }
        }
    }

    /// Collision pass. Every power-up the player touches grants its effect
    /// (applied at once, then appended to the player's effects) and leaves
    /// play; the rest stay in order. A hit obstacle, or leaving the vertical
    /// playfield, ends the run.
    pub fn collisions_check(&mut self)
        requires
            old(self).wf(),
            old(self).player.x_speed + old(self).powerups@.len() <= i32::MAX,
            old(self).player.velocity_base + old(self).powerups@.len() <= i32::MAX,
        ensures
            final(self).wf(),
            final(self).config == old(self).config,
            final(self).score == old(self).score,
            final(self).obstacle_vec@ == old(self).obstacle_vec@,
            final(self).player.x == old(self).player.x,
            final(self).player.y == old(self).player.y,
            final(self).player.velocity == old(self).player.velocity,
            final(self).powerups@ == surviving_powerups(
                old(self).powerups@,
                old(self).player.x as int,
                old(self).player.y as int,
            ),
            final(self).player.effects@ == old(self).player.effects@ + granted_effects(
                old(self).powerups@,
                old(self).player.x as int,
                old(self).player.y as int,
            ),
            final(self).player.x_speed == old(self).player.x_speed + count_speed(
                granted_effects(
                    old(self).powerups@,
                    old(self).player.x as int,
                    old(self).player.y as int,
                ),
            ),
            final(self).player.velocity_base == old(self).player.velocity_base + count_gravity(
                granted_effects(
                    old(self).powerups@,
                    old(self).player.x as int,
                    old(self).player.y as int,
                ),
            ),
            final(self).mode == (if hit_any(
                old(self).obstacle_vec@,
                old(self).player.x as int,
                old(self).player.y as int,
            ) || old(self).player.y < 0 || old(self).player.y > old(self).config.height {
                GameMode::End
            } else {
                old(self).mode
            }),
    {
        let ghost ps0 = self.powerups@;
        let ghost e0 = self.player.effects@;
        let ghost px = self.player.x as int;
        let ghost py = self.player.y as int;
        let ghost x0 = self.player.x_speed as int;
        let ghost b0 = self.player.velocity_base as int;
        let n = self.powerups.len();
        let mut kept: Vec<PowerUp> = Vec::new();
        let mut i: usize = 0;
        while i < n
            invariant
                i <= n,
                n == ps0.len(),
                self.powerups@ == ps0,
                forall|k: int| 0 <= k < ps0.len() ==> (#[trigger] ps0[k]).wf(),
                self.config == old(self).config,
                self.score == old(self).score,
                self.mode == old(self).mode,
                self.obstacle_vec@ == old(self).obstacle_vec@,
                self.player.x == old(self).player.x,
                self.player.y == old(self).player.y,
                self.player.velocity == old(self).player.velocity,
                px == self.player.x as int,
                py == self.player.y as int,
                x0 + n <= i32::MAX,
                b0 + n <= i32::MAX,
                kept@ == surviving_powerups(ps0.subrange(0, i as int), px, py),
                forall|k: int| 0 <= k < kept@.len() ==> (#[trigger] kept@[k]).wf(),
                self.player.effects@ == e0 + granted_effects(ps0.subrange(0, i as int), px, py),
                granted_effects(ps0.subrange(0, i as int), px, py).len() <= i,
                self.player.x_speed == x0 + count_speed(
                    granted_effects(ps0.subrange(0, i as int), px, py),
                ),
                self.player.velocity_base == b0 + count_gravity(
                    granted_effects(ps0.subrange(0, i as int), px, py),
                ),
            decreases n - i,
        {
            let ghost prefix = ps0.subrange(0, i as int);
            let ghost granted = granted_effects(prefix, px, py);
            proof {
                lemma_count_bounds(granted);
                assert(ps0.subrange(0, i as int + 1).drop_last() =~= prefix);
                assert(ps0.subrange(0, i as int + 1).last() == ps0[i as int]);
            }
            let p = self.powerups[i];
            if p.is_collide(&self.player) {
                let e = p.get_effect();
                e.apply(&mut self.player);
                self.player.effects.push(e);
                proof {
                    assert(granted.push(effect_of(ps0[i as int])).drop_last() =~= granted);
                    assert(self.player.effects@ =~= e0 + granted.push(effect_of(ps0[i as int])));
                }
            } else {
                kept.push(p);
            }
            i = i + 1;
        }
        proof {
            assert(ps0.subrange(0, n as int) =~= ps0);
        }
        self.powerups = kept;
        proof {
            let granted = granted_effects(ps0, px, py);
            lemma_granted_effects_props(ps0, px, py);
            lemma_count_concat(e0, granted);
            lemma_count_bounds(granted);
            assert forall|k: int| 0 <= k < self.player.effects@.len() implies (
            #[trigger] self.player.effects@[k]).active() by {
                if k < e0.len() {
                    assert(e0[k].active());
                } else {
                    assert(granted[k - e0.len()].active());
                }
            }
        }
        let m = self.obstacle_vec.len();
        let ghost obs0 = self.obstacle_vec@;
        let mut any_hit = false;
        let mut j: usize = 0;
        while j < m
            invariant
                j <= m,
                m == obs0.len(),
                self.obstacle_vec@ == obs0,
                forall|k: int| 0 <= k < obs0.len() ==> (#[trigger] obs0[k]).wf(),
                px == self.player.x as int,
                py == self.player.y as int,
                any_hit == hit_any(obs0.subrange(0, j as int), px, py),
            decreases m - j,
        {
            proof {
                assert(obs0.subrange(0, j as int + 1).drop_last() =~= obs0.subrange(0, j as int));
                assert(obs0.subrange(0, j as int + 1).last() == obs0[j as int]);
            }
            if self.obstacle_vec[j].hit_obstacle(&self.player) {
                any_hit = true;
            }
            j = j + 1;
        }
        proof {
            assert(obs0.subrange(0, m as int) =~= obs0);
        }
        if any_hit {
            self.mode = GameMode::End;
        }
        if self.player.y > self.config.height || self.player.y < 0 {
            self.mode = GameMode::End;
        }
    }

    /// Cleanup pass. Obstacles whose right edge has scrolled behind the player
    /// are pruned, each scoring one point; if any were pruned, the effect
    /// countdowns advance one step. Power-ups behind the player leave play
    /// uncollected.
    pub fn out_of_vision_check(&mut self)
        requires
            old(self).wf(),
            old(self).score + old(self).obstacle_vec@.len() <= i32::MAX,
        ensures
            final(self).wf(),
            final(self).config == old(self).config,
            final(self).mode == old(self).mode,
            final(self).player.x == old(self).player.x,
            final(self).player.y == old(self).player.y,
            final(self).player.velocity == old(self).player.velocity,
            final(self).obstacle_vec@ == remaining_obstacles(
                old(self).obstacle_vec@,
                old(self).player.x as int,
            ),
            final(self).score == old(self).score + count_passed(
                old(self).obstacle_vec@,
                old(self).player.x as int,
            ),
            final(self).powerups@ == ahead_powerups(
                old(self).powerups@,
                old(self).player.x as int,
            ),
            count_passed(old(self).obstacle_vec@, old(self).player.x as int) == 0 ==> final(self).player == old(self).player,
            count_passed(old(self).obstacle_vec@, old(self).player.x as int) > 0 ==> {
                &&& final(self).player.effects@ == tick_survivors(old(self).player.effects@)
                &&& final(self).player.x_speed == old(self).player.x_speed - count_speed(
                    tick_expired(old(self).player.effects@),
                )
                &&& final(self).player.velocity_base == old(self).player.velocity_base
                    - count_gravity(tick_expired(old(self).player.effects@))
            },
    {
        let ghost obs0 = self.obstacle_vec@;
        let ghost px = self.player.x as int;
        let n = self.obstacle_vec.len();
        let mut kept: Vec<Obstacle> = Vec::new();
        let mut passed: i32 = 0;
        let mut i: usize = 0;
        while i < n
            invariant
                i <= n,
                n == obs0.len(),
                self.obstacle_vec@ == obs0,
                forall|k: int| 0 <= k < obs0.len() ==> (#[trigger] obs0[k]).wf(),
                px == self.player.x as int,
                obs0.len() + old(self).score <= i32::MAX,
                0 <= old(self).score,
                self.player == old(self).player,
                self.config == old(self).config,
                self.mode == old(self).mode,
                self.score == old(self).score,
                self.powerups@ == old(self).powerups@,
                kept@ == remaining_obstacles(obs0.subrange(0, i as int), px),
                forall|k: int| 0 <= k < kept@.len() ==> (#[trigger] kept@[k]).wf(),
                passed as int == count_passed(obs0.subrange(0, i as int), px),
                0 <= passed as int <= i as int,
            decreases n - i,
        {
            proof {
                assert(obs0.subrange(0, i as int + 1).drop_last() =~= obs0.subrange(0, i as int));
                assert(obs0.subrange(0, i as int + 1).last() == obs0[i as int]);
            }
            let o = self.obstacle_vec[i];
            if (o.x as i64) + (OBSTACLE_SPAN as i64) < (self.player.x as i64) {
                passed = passed + 1;
            } else {
                kept.push(o);
            }
            i = i + 1;
        }
        proof {
            assert(obs0.subrange(0, n as int) =~= obs0);
        }
        if passed > 0 {
            self.update_effects();
        }
        self.obstacle_vec = kept;
        self.score = self.score + passed;
        let ghost player_mid = self.player;
        let ghost obs_mid = self.obstacle_vec@;
        let ghost score_mid = self.score;
        let ghost ps0 = self.powerups@;
        let m = self.powerups.len();
        let mut kept_ps: Vec<PowerUp> = Vec::new();
        let mut j: usize = 0;
        while j < m
            invariant
                j <= m,
                m == ps0.len(),
                self.powerups@ == ps0,
                forall|k: int| 0 <= k < ps0.len() ==> (#[trigger] ps0[k]).wf(),
                px == self.player.x as int,
                self.player == player_mid,
                self.obstacle_vec@ == obs_mid,
                self.score == score_mid,
                self.config == old(self).config,
                self.mode == old(self).mode,
                kept_ps@ == ahead_powerups(ps0.subrange(0, j as int), px),
                forall|k: int| 0 <= k < kept_ps@.len() ==> (#[trigger] kept_ps@[k]).wf(),
            decreases m - j,
        {
            proof {
                assert(ps0.subrange(0, j as int + 1).drop_last() =~= ps0.subrange(0, j as int));
                assert(ps0.subrange(0, j as int + 1).last() == ps0[j as int]);
            }
            let p = self.powerups[j];
            if p.get_x() < self.player.x {
            } else {
                kept_ps.push(p);
            }
            j = j + 1;
        }
        proof {
            assert(ps0.subrange(0, m as int) =~= ps0);
        }
        self.powerups = kept_ps;
    }

    /// One tick of a running game, in a fixed pass order: physics, input,
    /// spawning, collisions, cleanup. (Rendering happens between the input and
    /// spawning passes, outside the library; it reads no state the later
    /// passes change.) The deterministic outcome is `play_transition`.
    pub fn play(
        &mut self,
        key: Option<KeyInput>,
        rng: &mut bracket_random::prelude::RandomNumberGenerator,
    )
        requires
            old(self).wf(),
            old(self).in_vertical_bounds(),
            old(self).mode is Playing,
            old(self).player.x + old(self).player.x_speed + 3 * old(self).config.width
                <= i32::MAX - (OBSTACLE_SPAN - 1),
            old(self).score + old(self).obstacle_vec@.len() <= i32::MAX - 4,
            old(self).player.x_speed + old(self).powerups@.len() <= i32::MAX - 2,
            old(self).player.velocity_base + old(self).powerups@.len() <= i32::MAX - 2,
        ensures
            final(self).wf(),
            final(self).in_vertical_bounds(),
            play_transition(*old(self), *final(self), key),
    {
        proof {
            lemma_count_bounds(self.player.effects@);
        }
        self.move_and_gravity();
        self.listen_keys(key);
        let ghost s2 = *self;
        self.objects_spawn(rng);
        let ghost s3 = *self;
        self.collisions_check();
        self.out_of_vision_check();
        proof {
            let pre = *old(self);
            let px = moved_x(pre.player);
            let py = moved_y(pre.player);
            let obs_mid = s3.obstacle_vec@;
            let pre_len = pre.obstacle_vec@.len() as int;
            let spawned = obs_mid.subrange(pre_len, obs_mid.len() as int);
            assert(obs_mid =~= pre.obstacle_vec@ + spawned);
            assert forall|k: int| 0 <= k < spawned.len() implies (#[trigger] spawned[k]).x
                + OBSTACLE_SPAN >= px && spawned[k].x > px by {
                assert(obs_mid[pre_len + k].x >= s2.player.x + s2.config.width);
            }
            lemma_count_passed_concat(pre.obstacle_vec@, spawned, px);
            lemma_count_passed_ahead(spawned, px);
            lemma_hit_any_concat(pre.obstacle_vec@, spawned, px, py);
            lemma_hit_any_ahead(spawned, px, py);
            let kept_pre = remaining_obstacles(pre.obstacle_vec@, px);
            lemma_remaining_concat(pre.obstacle_vec@, spawned, px);
            lemma_remaining_all_kept(spawned, px);
            assert(self.obstacle_vec@ == kept_pre + spawned);
            assert((kept_pre + spawned).subrange(0, kept_pre.len() as int) =~= kept_pre);
            assert forall|k: int| kept_pre.len() <= k < self.obstacle_vec@.len() implies {
                let o = #[trigger] self.obstacle_vec@[k];
                &&& o.wf()
                &&& o.x > px
                &&& o.size == gap_size(pre.score as int)
            } by {
                assert(self.obstacle_vec@[k] == spawned[k - kept_pre.len()]);
                assert(obs_mid[pre_len + (k - kept_pre.len())].x >= s2.player.x + s2.config.width);
                assert(obs_mid[pre_len + (k - kept_pre.len())].wf());
            }
            // The key's effect on the mode is stated per variant; split on it.
            match key {
                Some(KeyInput::Flap) => assert(key == Some(KeyInput::Flap)),
                Some(KeyInput::Quit) => assert(key == Some(KeyInput::Quit)),
                Some(KeyInput::Start) => assert(key == Some(KeyInput::Start)),
                None => assert(key is None),
            }
        }
    }

    /// Whether the renderer should clear to the alert background: exactly when
    /// the horizontal speed has been boosted past its launch value.
    pub fn background_alert(&self) -> (r: bool)
        ensures
            r == (self.player.x_speed > 1),
    {
        self.player.x_speed > 1
    }

    /// One tick of the whole game, dispatched on the mode. On the menu and
    /// game-over screens, start begins a fresh run and quit asks the driver to
    /// shut the game down (the return value); everything else is ignored.
    /// During a run the tick is a `play` step and never asks to shut down.
    pub fn tick(
        &mut self,
        key: Option<KeyInput>,
        rng: &mut bracket_random::prelude::RandomNumberGenerator,
    ) -> (quit: bool)
        requires
            old(self).wf(),
            old(self).in_vertical_bounds(),
            old(self).mode is Playing ==> {
                &&& old(self).player.x + old(self).player.x_speed + 3 * old(self).config.width
                    <= i32::MAX - (OBSTACLE_SPAN - 1)
                &&& old(self).score + old(self).obstacle_vec@.len() <= i32::MAX - 4
                &&& old(self).player.x_speed + old(self).powerups@.len() <= i32::MAX - 2
                &&& old(self).player.velocity_base + old(self).powerups@.len() <= i32::MAX - 2
            },
        ensures
            final(self).wf(),
            final(self).in_vertical_bounds(),
            final(self).config == old(self).config,
            old(self).mode is Playing ==> !quit && play_transition(
                *old(self),
                *final(self),
                key,
            ),
            !(old(self).mode is Playing) ==> {
                &&& (key == Some(KeyInput::Start) ==> !quit && final(self).fresh_run(
                    old(self).config,
                ))
                &&& (key == Some(KeyInput::Quit) ==> quit && *final(self) == *old(self))
                &&& (!(key == Some(KeyInput::Start)) && !(key == Some(KeyInput::Quit)) ==> !quit
                    && *final(self) == *old(self))
            },
    {
        match self.mode {
            GameMode::Playing => {
                self.play(key, rng);
                false
            },
            _ => {
                match key {
                    Some(KeyInput::Start) => {
                        self.restart();
                        false
                    },
                    Some(KeyInput::Quit) => true,
                    _ => false,
                }
            },
        }
    }
}

} // verus!
