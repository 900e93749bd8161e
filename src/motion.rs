use vstd::prelude::*;

use crate::geometry::{within, Vector2};
use crate::world::{
    viewport_playable, Ball, Input, Paddle, Viewport, World, COORD_LIMIT, FRAME_LIMIT_MS,
    PADDLE_HALF_WIDTH, PADDLE_SPEED, VELOCITY_LIMIT, WALL_THICKNESS,
};

verus! {

/// Net horizontal intent: -1 for left alone, 1 for right alone, else 0.
pub open spec fn input_direction(input: Input) -> int {
    (if input.right { 1int } else { 0int }) - (if input.left { 1int } else { 0int })
}

/// Largest distance of the paddle's center from x = 0.
pub open spec fn paddle_boundary(viewport: Viewport) -> int {
    viewport.half_width - PADDLE_HALF_WIDTH - WALL_THICKNESS
}

pub open spec fn clamp(x: int, lo: int, hi: int) -> int {
    if x < lo { lo } else if x > hi { hi } else { x }
}

/// The paddle after moving for `dt_ms` milliseconds, clamped between the walls.
pub open spec fn paddle_after_move(paddle: Paddle, input: Input, viewport: Viewport, dt_ms: int) -> Paddle {
    Paddle {
        position: Vector2 {
            x: clamp(
                paddle.position.x + input_direction(input) * PADDLE_SPEED * dt_ms,
                -paddle_boundary(viewport),
                paddle_boundary(viewport),
            ) as i64,
            y: paddle.position.y,
        },
    }
}

/// The ball after travelling at its velocity for `dt_ms` milliseconds.
pub open spec fn ball_after_move(ball: Ball, dt_ms: int) -> Ball {
    Ball {
        position: Vector2 {
            x: (ball.position.x + ball.velocity.x * dt_ms) as i64,
            y: (ball.position.y + ball.velocity.y * dt_ms) as i64,
        },
        velocity: ball.velocity,
    }
}

/// The ball is entirely below the bottom of the play field.
impl World {
    /// Moves the paddle by the held keys for `dt_ms` milliseconds and keeps
    /// its center within the boundary between the walls.
    pub fn move_paddle(&mut self, input: Input, viewport: Viewport, dt_ms: i64)
        requires
            viewport_playable(viewport),
            0 <= dt_ms <= FRAME_LIMIT_MS,
            within(old(self).paddle.position, COORD_LIMIT as int),
        ensures
            final(self).paddle == paddle_after_move(old(self).paddle, input, viewport, dt_ms as int),
            -paddle_boundary(viewport) <= final(self).paddle.position.x <= paddle_boundary(viewport),
            final(self).ball == old(self).ball,
            final(self).entities@ == old(self).entities@,
            final(self).next_id == old(self).next_id,
    {
        let boundary: i64 = viewport.half_width - PADDLE_HALF_WIDTH - WALL_THICKNESS;
        let mut direction: i64 = 0;
        if input.left {
            direction = direction - 1;
        }
        if input.right {
            direction = direction + 1;
        }
        assert(direction * PADDLE_SPEED * dt_ms <= 500_000_000 && direction * PADDLE_SPEED * dt_ms
            >= -500_000_000) by (nonlinear_arith)
            requires -1 <= direction <= 1, 0 <= dt_ms <= 1_000_000;
        let mut x: i64 = self.paddle.position.x + direction * PADDLE_SPEED * dt_ms;
        if x < -boundary {
            x = -boundary;
        } else if x > boundary {
            x = boundary;
        }
        self.paddle.position.x = x;
    }

    /// Advances the ball by its velocity for `dt_ms` milliseconds.
    pub fn move_ball(&mut self, dt_ms: i64)
        requires
            within(old(self).ball.position, COORD_LIMIT as int),
            within(old(self).ball.velocity, VELOCITY_LIMIT as int),
            0 <= dt_ms <= FRAME_LIMIT_MS,
        ensures
            final(self).ball == ball_after_move(old(self).ball, dt_ms as int),
            within(final(self).ball.position, 2 * COORD_LIMIT),
            final(self).paddle == old(self).paddle,
            final(self).entities@ == old(self).entities@,
            final(self).next_id == old(self).next_id,
    {
        let v = self.ball.velocity;
        assert(-1_000_000_000_000_000 <= v.x * dt_ms <= 1_000_000_000_000_000) by (nonlinear_arith)
            requires -1_000_000_000 <= v.x <= 1_000_000_000, 0 <= dt_ms <= 1_000_000;
        assert(-1_000_000_000_000_000 <= v.y * dt_ms <= 1_000_000_000_000_000) by (nonlinear_arith)
            requires -1_000_000_000 <= v.y <= 1_000_000_000, 0 <= dt_ms <= 1_000_000;
        self.ball.position.x = self.ball.position.x + v.x * dt_ms;
        self.ball.position.y = self.ball.position.y + v.y * dt_ms;
    }
}

/// The paddle after moving by each of `moves` (held keys and frame time) in
/// turn.
pub open spec fn paddle_after_moves(paddle: Paddle, moves: Seq<(Input, int)>, viewport: Viewport) -> Paddle
    decreases moves.len(),
{
    if moves.len() == 0 {
        paddle
    } else {
        let p = paddle_after_moves(paddle, moves.drop_last(), viewport);
        paddle_after_move(p, moves.last().0, viewport, moves.last().1)
    }
}

/// After any non-empty sequence of moves, the paddle's center lies within
/// the boundary between the walls.
pub proof fn lemma_paddle_stays_in_bounds(paddle: Paddle, moves: Seq<(Input, int)>, viewport: Viewport)
    requires
        viewport_playable(viewport),
        moves.len() > 0,
    ensures
        -paddle_boundary(viewport) <= paddle_after_moves(paddle, moves, viewport).position.x
            <= paddle_boundary(viewport),
{
}

} // verus!
