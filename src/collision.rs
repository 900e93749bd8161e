use vstd::prelude::*;

use vstd::arithmetic::div_mod::lemma_div_is_ordered;

use crate::geometry::{floor_sqrt, isqrt, lemma_floor_sqrt, overlaps, overlaps_spec, within, Vector2};
use crate::world::{
    ball_size, brick_count, entities_in_limits, lemma_brick_count_push, paddle_size, Ball, Entity,
    GameState, Paddle, Role, World, BALL_HEIGHT, BALL_WIDTH, BRICK_POINTS, COORD_LIMIT,
    PADDLE_HALF_WIDTH, PADDLE_HEIGHT, PADDLE_WIDTH, VELOCITY_LIMIT,
};

verus! {

pub open spec fn magnitude(a: int) -> int {
    if a >= 0 { a } else { -a }
}

/// Division rounded toward zero, for a positive divisor.
pub open spec fn trunc_div(a: int, b: int) -> int {
    if a >= 0 { a / b } else { -((-a) / b) }
}

/// Length of a velocity, rounded down.
pub open spec fn speed_of(v: Vector2) -> int {
    floor_sqrt((v.x * v.x + v.y * v.y) as nat) as int
}

/// Velocity after a paddle hit `offset` units right of the paddle's center:
/// the offset in half paddle widths, times the current speed, across; the
/// vertical component made upward.
pub open spec fn paddle_bounce(v: Vector2, offset: int) -> Vector2 {
    Vector2 {
        x: trunc_div(offset * speed_of(v), PADDLE_HALF_WIDTH as int) as i64,
        y: magnitude(v.y as int) as i64,
    }
}

pub open spec fn hits_paddle(ball_pos: Vector2, paddle_pos: Vector2) -> bool {
    overlaps_spec(ball_pos, ball_size(), paddle_pos, paddle_size())
}

pub open spec fn velocity_after_paddle(ball: Ball, paddle: Paddle) -> Vector2 {
    if hits_paddle(ball.position, paddle.position) {
        paddle_bounce(ball.velocity, ball.position.x - paddle.position.x)
    } else {
        ball.velocity
    }
}

pub open spec fn hits(ball_pos: Vector2, e: Entity) -> bool {
    overlaps_spec(ball_pos, ball_size(), e.position, e.size)
}

/// A wall taller than it is wide stands at a side of the field.
pub open spec fn is_side_wall(size: Vector2) -> bool {
    size.y > size.x
}

/// Velocity after touching a brick or a wall.
pub open spec fn bounce_off(v: Vector2, e: Entity) -> Vector2 {
    match e.role {
        Role::Brick => Vector2 { x: v.x, y: (-v.y) as i64 },
        Role::Wall => if is_side_wall(e.size) {
            Vector2 { x: (-v.x) as i64, y: v.y }
        } else {
            Vector2 { x: v.x, y: (-v.y) as i64 }
        },
    }
}

/// Velocity after resolving, in order, the contacts of a ball at `ball_pos`
/// with each entity of `es`.
pub open spec fn velocity_after_entities(ball_pos: Vector2, v: Vector2, es: Seq<Entity>) -> Vector2
    decreases es.len(),
{
    if es.len() == 0 {
        v
    } else {
        let w = velocity_after_entities(ball_pos, v, es.drop_last());
        if hits(ball_pos, es.last()) {
            bounce_off(w, es.last())
        } else {
            w
        }
    }
}

pub open spec fn destroyed(ball_pos: Vector2, e: Entity) -> bool {
    e.role == Role::Brick && hits(ball_pos, e)
}

/// The entities of `es` that a ball at `ball_pos` leaves standing, in order.
pub open spec fn survivors(ball_pos: Vector2, es: Seq<Entity>) -> Seq<Entity>
    decreases es.len(),
{
    if es.len() == 0 {
        Seq::empty()
    } else {
        let s = survivors(ball_pos, es.drop_last());
        if destroyed(ball_pos, es.last()) {
            s
        } else {
            s.push(es.last())
        }
    }
}

/// How many bricks of `es` a ball at `ball_pos` destroys.
pub open spec fn destroyed_count(ball_pos: Vector2, es: Seq<Entity>) -> nat
    decreases es.len(),
{
    if es.len() == 0 {
        0
    } else {
        destroyed_count(ball_pos, es.drop_last()) + if destroyed(ball_pos, es.last()) {
            1nat
        } else {
            0nat
        }
    }
}

/// Every brick a ball destroys is one brick fewer.
pub proof fn lemma_bricks_removed(ball_pos: Vector2, es: Seq<Entity>)
    ensures
        brick_count(es) == brick_count(survivors(ball_pos, es)) + destroyed_count(ball_pos, es),
        destroyed_count(ball_pos, es) <= es.len(),
    decreases es.len(),
{
    if es.len() > 0 {
        lemma_bricks_removed(ball_pos, es.drop_last());
        let s = survivors(ball_pos, es.drop_last());
        if !destroyed(ball_pos, es.last()) {
            lemma_brick_count_push(s, es.last());
        }
    }
}
/// Velocity after a paddle hit `offset` units right of the paddle's center.
pub fn paddle_bounce_velocity(v: Vector2, offset: i64) -> (r: Vector2)
    requires
        within(v, VELOCITY_LIMIT as int),
        -(PADDLE_WIDTH + BALL_WIDTH) < 2 * offset < PADDLE_WIDTH + BALL_WIDTH,
    ensures
        r == paddle_bounce(v, offset as int),
        within(r, 2 * VELOCITY_LIMIT),
{
    assert(v.x * v.x <= 1_000_000_000_000_000_000) by (nonlinear_arith)
        requires -1_000_000_000 <= v.x <= 1_000_000_000;
    assert(v.y * v.y <= 1_000_000_000_000_000_000) by (nonlinear_arith)
        requires -1_000_000_000 <= v.y <= 1_000_000_000;
    assert(v.x * v.x >= 0 && v.y * v.y >= 0) by (nonlinear_arith);
    let squared: i64 = v.x * v.x + v.y * v.y;
    let speed: u64 = isqrt(squared as u64);
    proof {
        lemma_floor_sqrt(squared as nat);
        if speed > 1_500_000_000 {
            assert(speed * speed > 2_000_000_000_000_000_000) by (nonlinear_arith)
                requires speed > 1_500_000_000;
        }
    }
    let mag: u64 = if offset >= 0 { offset as u64 } else { (-offset) as u64 };
    assert(mag * speed <= 70_000 * 1_500_000_000) by (nonlinear_arith)
        requires mag <= 70_000, speed <= 1_500_000_000;
    let q: u64 = mag * speed / (PADDLE_HALF_WIDTH as u64);
    proof {
        lemma_div_is_ordered((mag * speed) as int, 105_000_000_000_000, 60_000);
        assert(105_000_000_000_000int / 60_000 == 1_750_000_000);
    }
    let x: i64 = if offset >= 0 { q as i64 } else { -(q as i64) };
    let y: i64 = if v.y >= 0 { v.y } else { -v.y };
    proof {
        if offset < 0 {
            assert(offset * speed == -(mag * speed)) by (nonlinear_arith)
                requires mag == -offset;
        }
    }
    Vector2 { x, y }
}

impl World {
    /// Resolves the ball's contacts for one tick: first with the paddle, then
    /// with each brick and wall in order. Bricks that the ball touches are
    /// removed, each for `BRICK_POINTS`.
    pub fn resolve_collisions(&mut self, state: &mut GameState)
        requires
            within(old(self).ball.position, 2 * COORD_LIMIT),
            within(old(self).ball.velocity, VELOCITY_LIMIT as int),
            within(old(self).paddle.position, COORD_LIMIT as int),
            entities_in_limits(old(self).entities@),
            old(state).score + BRICK_POINTS * old(self).entities@.len() <= u32::MAX,
        ensures
            final(self).paddle == old(self).paddle,
            final(self).ball.position == old(self).ball.position,
            final(self).ball.velocity == velocity_after_entities(
                old(self).ball.position,
                velocity_after_paddle(old(self).ball, old(self).paddle),
                old(self).entities@,
            ),
            final(self).entities@ == survivors(old(self).ball.position, old(self).entities@),
            final(self).next_id == old(self).next_id,
            final(state).score == old(state).score + BRICK_POINTS * destroyed_count(
                old(self).ball.position,
                old(self).entities@,
            ),
            final(state).score == old(state).score + BRICK_POINTS * (brick_count(old(self).entities@)
                - brick_count(final(self).entities@)),
            final(state).lives == old(state).lives,
    {
        let pos = self.ball.position;
        let ball_extent = Vector2 { x: BALL_WIDTH, y: BALL_HEIGHT };
        let mut v = self.ball.velocity;
        if overlaps(pos, ball_extent, self.paddle.position, Vector2 { x: PADDLE_WIDTH, y: PADDLE_HEIGHT }) {
            v = paddle_bounce_velocity(v, pos.x - self.paddle.position.x);
        }
        let ghost v0 = v;
        let mut kept: Vec<Entity> = Vec::new();
        let n: usize = self.entities.len();
        let mut i: usize = 0;
        while i < n
            invariant
                *self == *old(self),
                pos == self.ball.position,
                ball_extent == ball_size(),
                n == self.entities@.len(),
                i <= n,
                v0 == velocity_after_paddle(self.ball, self.paddle),
                within(v, 2 * VELOCITY_LIMIT),
                within(pos, 2 * COORD_LIMIT),
                entities_in_limits(self.entities@),
                v == velocity_after_entities(pos, v0, self.entities@.subrange(0, i as int)),
                kept@ == survivors(pos, self.entities@.subrange(0, i as int)),
                state.score == old(state).score + BRICK_POINTS * destroyed_count(
                    pos,
                    self.entities@.subrange(0, i as int),
                ),
                destroyed_count(pos, self.entities@.subrange(0, i as int)) <= i,
                state.lives == old(state).lives,
                old(state).score + BRICK_POINTS * n <= u32::MAX,
            decreases n - i,
        {
            let e = self.entities[i];
            proof {
                assert(within(self.entities@[i as int].position, COORD_LIMIT as int));
                assert(self.entities@.subrange(0, i + 1).drop_last() =~= self.entities@.subrange(
                    0,
                    i as int,
                ));
                assert(self.entities@.subrange(0, i + 1).last() == e);
            }
            if overlaps(pos, ball_extent, e.position, e.size) {
                match e.role {
                    Role::Brick => {
                        state.score = state.score + BRICK_POINTS;
                        v = Vector2 { x: v.x, y: -v.y };
                    },
                    Role::Wall => {
                        if e.size.y > e.size.x {
                            v = Vector2 { x: -v.x, y: v.y };
                        } else {
                            v = Vector2 { x: v.x, y: -v.y };
                        }
                        kept.push(e);
                    },
                }
            } else {
                kept.push(e);
            }
            i = i + 1;
        }
        proof {
            assert(self.entities@.subrange(0, n as int) =~= self.entities@);
            lemma_bricks_removed(pos, self.entities@);
        }
        self.entities = kept;
        self.ball.velocity = v;
    }
}

/// A ball that meets the paddle exactly at its center leaves straight up, at
/// the magnitude of its previous vertical velocity.
pub proof fn lemma_dead_center_bounce(ball: Ball, paddle: Paddle)
    requires
        within(ball.velocity, VELOCITY_LIMIT as int),
        hits_paddle(ball.position, paddle.position),
        ball.position.x == paddle.position.x,
    ensures
        velocity_after_paddle(ball, paddle).x == 0,
        velocity_after_paddle(ball, paddle).y == magnitude(ball.velocity.y as int),
{
    assert(0 * speed_of(ball.velocity) == 0);
}

/// Bouncing off a brick or a wall keeps the size of each velocity component,
/// and so the speed.
pub proof fn lemma_bounce_keeps_speed(v: Vector2, e: Entity)
    requires
        within(v, 2 * VELOCITY_LIMIT),
    ensures
        magnitude(bounce_off(v, e).x as int) == magnitude(v.x as int),
        magnitude(bounce_off(v, e).y as int) == magnitude(v.y as int),
        speed_of(bounce_off(v, e)) == speed_of(v),
{
    let w = bounce_off(v, e);
    assert(w.x * w.x == v.x * v.x) by (nonlinear_arith)
        requires w.x == v.x || w.x == -v.x;
    assert(w.y * w.y == v.y * v.y) by (nonlinear_arith)
        requires w.y == v.y || w.y == -v.y;
}

/// A side wall negates the horizontal velocity alone; any other wall negates
/// the vertical velocity alone.
pub proof fn lemma_wall_reflection(v: Vector2, wall: Entity)
    requires
        wall.role == Role::Wall,
        within(v, 2 * VELOCITY_LIMIT),
    ensures
        is_side_wall(wall.size) ==> bounce_off(v, wall).x == -v.x && bounce_off(v, wall).y == v.y,
        !is_side_wall(wall.size) ==> bounce_off(v, wall).x == v.x && bounce_off(v, wall).y == -v.y,
{
}

} // verus!
