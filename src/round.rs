use vstd::prelude::*;

use crate::collision::{destroyed_count, survivors, velocity_after_entities, velocity_after_paddle};
use crate::geometry::{within, Vector2};
use crate::motion::{ball_after_move, paddle_after_move, paddle_boundary};
use crate::world::{
    brick_count, entities_in_limits, viewport_in_limits, viewport_playable, Ball, Entity, GameState,
    Input, Viewport, World, BALL_HEIGHT, BRICK_POINTS, COORD_LIMIT, FRAME_LIMIT_MS,
    PADDLE_HALF_WIDTH, RESPAWN_HEIGHT, SIZE_LIMIT, VELOCITY_LIMIT, VIEWPORT_LIMIT, WALL_THICKNESS,
};

verus! {

/// The ball is entirely below the bottom of the play field.
pub open spec fn below_play_field(ball_pos: Vector2, viewport: Viewport) -> bool {
    ball_pos.y < -viewport.half_height - BALL_HEIGHT
}

/// Where a lost ball re-enters: centered, a little above the bottom.
pub open spec fn respawn_point(viewport: Viewport) -> Vector2 {
    Vector2 { x: 0, y: (RESPAWN_HEIGHT - viewport.half_height) as i64 }
}

/// One life fewer, but never below zero.
pub open spec fn lives_after_loss(lives: u32) -> u32 {
    if lives > 0 { (lives - 1) as u32 } else { 0 }
}

/// The ball after the out-of-bounds check of a tick.
pub open spec fn ball_after_reset(ball: Ball, viewport: Viewport, launch: Vector2) -> Ball {
    if below_play_field(ball.position, viewport) {
        Ball { position: respawn_point(viewport), velocity: launch }
    } else {
        ball
    }
}

/// The lives after the out-of-bounds check of a tick.
pub open spec fn lives_after_reset(ball: Ball, viewport: Viewport, lives: u32) -> u32 {
    if below_play_field(ball.position, viewport) {
        lives_after_loss(lives)
    } else {
        lives
    }
}

/// Scoring across a tick: ten points for each brick gone, and no brick added.
pub open spec fn scored_by_bricks(before: GameState, before_es: Seq<Entity>, after: GameState, after_es: Seq<Entity>) -> bool {
    &&& brick_count(after_es) <= brick_count(before_es)
    &&& after.score == before.score + BRICK_POINTS * (brick_count(before_es) - brick_count(after_es))
}

/// What one tick accepts: values whose arithmetic fits the machine integers.
pub open spec fn step_ready(world: World, state: GameState, viewport: Viewport, dt_ms: i64) -> bool {
    &&& within(world.ball.position, COORD_LIMIT as int)
    &&& within(world.ball.velocity, VELOCITY_LIMIT as int)
    &&& within(world.paddle.position, COORD_LIMIT as int)
    &&& entities_in_limits(world.entities@)
    &&& viewport_playable(viewport)
    &&& 0 <= dt_ms <= FRAME_LIMIT_MS
    &&& state.score + BRICK_POINTS * world.entities@.len() <= u32::MAX
}

fn in_limits(v: Vector2, bound: i64) -> (r: bool)
    requires
        bound >= 0,
    ensures
        r == within(v, bound as int),
{
    -bound <= v.x && v.x <= bound && -bound <= v.y && v.y <= bound
}

impl World {
    /// When the ball has left the play field below, puts it back at the
    /// re-entry point with velocity `launch` and takes one life, never going
    /// below zero.
    pub fn reset_ball(&mut self, state: &mut GameState, viewport: Viewport, launch: Vector2)
        requires
            viewport_in_limits(viewport),
        ensures
            final(self).ball == ball_after_reset(old(self).ball, viewport, launch),
            final(state).lives == lives_after_reset(old(self).ball, viewport, old(state).lives),
            final(state).lives <= old(state).lives,
            old(state).lives == 0 ==> final(state).lives == 0,
            final(state).score == old(state).score,
            final(self).paddle == old(self).paddle,
            final(self).entities@ == old(self).entities@,
            final(self).next_id == old(self).next_id,
    {
        if self.ball.position.y < -viewport.half_height - BALL_HEIGHT {
            self.ball.velocity = launch;
            self.ball.position = Vector2 { x: 0, y: RESPAWN_HEIGHT - viewport.half_height };
            if state.lives > 0 {
                state.lives = state.lives - 1;
            }
        }
    }

    /// Whether a tick with these values stays within the machine integers.
    pub fn step_ready(&self, state: &GameState, viewport: Viewport, dt_ms: i64) -> (r: bool)
        ensures
            r == step_ready(*self, *state, viewport, dt_ms),
    {
        if !(in_limits(self.ball.position, COORD_LIMIT) && in_limits(self.ball.velocity, VELOCITY_LIMIT)
            && in_limits(self.paddle.position, COORD_LIMIT)) {
            return false;
        }
        if !(0 <= viewport.half_width && viewport.half_width <= VIEWPORT_LIMIT && 0
            <= viewport.half_height && viewport.half_height <= VIEWPORT_LIMIT && viewport.half_width
            - PADDLE_HALF_WIDTH - WALL_THICKNESS >= 0) {
            return false;
        }
        if !(0 <= dt_ms && dt_ms <= FRAME_LIMIT_MS) {
            return false;
        }
        let n: usize = self.entities.len();
        if n as u64 > (u32::MAX - state.score) as u64 / (BRICK_POINTS as u64) {
            return false;
        }
        let mut i: usize = 0;
        while i < n
            invariant
                n == self.entities@.len(),
                i <= n,
                entities_in_limits(self.entities@.subrange(0, i as int)),
            decreases n - i,
        {
            let e = self.entities[i];
            if !(in_limits(e.position, COORD_LIMIT) && 0 <= e.size.x && e.size.x <= SIZE_LIMIT && 0
                <= e.size.y && e.size.y <= SIZE_LIMIT) {
                proof {
                    assert(self.entities@[i as int] == e);
                    assert(!entities_in_limits(self.entities@));
                }
                return false;
            }
            proof {
                assert forall|j: int| 0 <= j < i + 1 implies {
                    &&& #[trigger] within(self.entities@.subrange(0, i + 1)[j].position, COORD_LIMIT as int)
                    &&& 0 <= self.entities@.subrange(0, i + 1)[j].size.x <= SIZE_LIMIT
                    &&& 0 <= self.entities@.subrange(0, i + 1)[j].size.y <= SIZE_LIMIT
                } by {
                    if j < i {
                        assert(self.entities@.subrange(0, i + 1)[j] == self.entities@.subrange(0, i as int)[j]);
                    }
                }
            }
            i = i + 1;
        }
        proof {
            assert(self.entities@.subrange(0, n as int) =~= self.entities@);
        }
        true
    }

    /// One tick: the paddle moves, the ball moves, the ball's contacts are
    /// resolved, and a ball that left the play field below is relaunched with
    /// velocity `launch`.
    pub fn step(&mut self, state: &mut GameState, input: Input, viewport: Viewport, dt_ms: i64, launch: Vector2)
        requires
            step_ready(*old(self), *old(state), viewport, dt_ms),
        ensures
            ({
                let paddle = paddle_after_move(old(self).paddle, input, viewport, dt_ms as int);
                let moved = ball_after_move(old(self).ball, dt_ms as int);
                let hit = Ball {
                    position: moved.position,
                    velocity: velocity_after_entities(
                        moved.position,
                        velocity_after_paddle(moved, paddle),
                        old(self).entities@,
                    ),
                };
                &&& final(self).paddle == paddle
                &&& final(self).entities@ == survivors(moved.position, old(self).entities@)
                &&& final(self).ball == ball_after_reset(hit, viewport, launch)
                &&& final(state).score == old(state).score + BRICK_POINTS * destroyed_count(
                    moved.position,
                    old(self).entities@,
                )
                &&& final(state).lives == lives_after_reset(hit, viewport, old(state).lives)
            }),
            -paddle_boundary(viewport) <= final(self).paddle.position.x <= paddle_boundary(viewport),
            final(state).score == old(state).score + BRICK_POINTS * (brick_count(old(self).entities@)
                - brick_count(final(self).entities@)),
            final(state).score >= old(state).score,
            scored_by_bricks(*old(state), old(self).entities@, *final(state), final(self).entities@),
            final(state).lives <= old(state).lives,
            old(state).lives == 0 ==> final(state).lives == 0,
            final(self).next_id == old(self).next_id,
    {
        self.move_paddle(input, viewport, dt_ms);
        self.move_ball(dt_ms);
        self.resolve_collisions(state);
        self.reset_ball(state, viewport, launch);
    }
}

/// Over a round of ticks that each score by the bricks they remove, the score
/// never decreases, and its total increase is `BRICK_POINTS` times the number
/// of bricks gone between the first and the last tick.
pub proof fn lemma_round_score(states: Seq<GameState>, bricks: Seq<Seq<Entity>>)
    requires
        states.len() == bricks.len(),
        states.len() > 0,
        forall|i: int|
            0 <= i < states.len() - 1 ==> #[trigger] scored_by_bricks(
                states[i],
                bricks[i],
                states[i + 1],
                bricks[i + 1],
            ),
    ensures
        states.last().score == states[0].score + BRICK_POINTS * (brick_count(bricks[0])
            - brick_count(bricks.last())),
        brick_count(bricks.last()) <= brick_count(bricks[0]),
        forall|i: int, j: int| 0 <= i <= j < states.len() ==> states[i].score <= states[j].score,
    decreases states.len(),
{
    if states.len() > 1 {
        let n = states.len();
        lemma_round_score(states.drop_last(), bricks.drop_last());
        let k = n - 2;
        assert(scored_by_bricks(states[k], bricks[k], states[k + 1], bricks[k + 1]));
        assert(bricks.drop_last().last() == bricks[k]);
        assert(states.drop_last().last() == states[n - 2]);
        assert forall|i: int, j: int| 0 <= i <= j < states.len() implies states[i].score <= states[j].score by {
            if j < n - 1 {
                assert(states.drop_last()[i] == states[i] && states.drop_last()[j] == states[j]);
            } else if i < n - 1 {
                assert(states.drop_last()[i] == states[i]);
                assert(states.drop_last()[i].score <= states.drop_last()[n - 2].score);
            }
        }
    }
}

} // verus!
