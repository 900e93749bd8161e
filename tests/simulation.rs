use brickbreaker::collision::paddle_bounce_velocity;
use brickbreaker::geometry::Vector2;
use brickbreaker::world::{
    Ball, Entity, GameState, Input, Role, Viewport, World, BRICK_HEIGHT, BRICK_WIDTH,
    STARTING_LIVES, WALL_THICKNESS,
};

fn v(x: i64, y: i64) -> Vector2 {
    Vector2 { x, y }
}

/// A 1280 by 720 pixel play field.
fn viewport() -> Viewport {
    Viewport { half_width: 640_000, half_height: 360_000 }
}

const NO_KEYS: Input = Input { left: false, right: false };

fn empty_world() -> World {
    World {
        paddle: brickbreaker::world::Paddle { position: v(0, -310_000) },
        ball: Ball { position: v(0, 0), velocity: v(0, 0) },
        entities: Vec::new(),
        next_id: 0,
    }
}

#[test]
fn new_world_layout() {
    let w = World::new(viewport(), v(0, 400));
    assert_eq!(w.entities.len(), 43);
    assert_eq!(w.brick_count(), 40);
    assert_eq!(w.next_id, 43);
    assert_eq!(w.paddle.position, v(0, -310_000));
    assert_eq!(w.ball.position, v(0, -260_000));
    assert_eq!(w.ball.velocity, v(0, 400));
    // Top-left brick: columns centered, top row a third of the height up.
    assert_eq!(w.entities[0].position, v(-405_000, 240_000));
    assert_eq!(w.entities[0].size, v(BRICK_WIDTH, BRICK_HEIGHT));
    assert_eq!(w.entities[0].role, Role::Brick);
    // Row 1, column 3.
    assert_eq!(w.entities[13].position, v(-135_000, 200_000));
    // Bottom-right brick.
    assert_eq!(w.entities[39].position, v(405_000, 120_000));
    let left = w.entities[40];
    assert_eq!(left.role, Role::Wall);
    assert_eq!(left.position, v(-645_000, 0));
    assert_eq!(left.size, v(WALL_THICKNESS, 720_000));
    assert_eq!(w.entities[41].position, v(645_000, 0));
    assert_eq!(w.entities[42].position, v(0, 365_000));
    assert_eq!(w.entities[42].size, v(1_300_000, WALL_THICKNESS));
}

#[test]
fn game_state_starts_with_three_lives() {
    let s = GameState::new();
    assert_eq!(s.score, 0);
    assert_eq!(s.lives, STARTING_LIVES);
    assert_eq!(s.lives, 3);
}

#[test]
fn one_brick_hit_in_full_grid() {
    let mut w = World::new(viewport(), v(0, 400));
    let mut s = GameState::new();
    let target = w.entities[5].position;
    w.ball.position = target;
    w.ball.velocity = v(0, 300);
    w.resolve_collisions(&mut s);
    assert_eq!(w.brick_count(), 39);
    assert_eq!(w.entities.len(), 42);
    assert_eq!(s.score, 10);
    assert_eq!(s.lives, 3);
    assert_eq!(w.ball.velocity, v(0, -300));
    assert!(w.entities.iter().all(|e| e.id != 5));
}

#[test]
fn ball_between_two_bricks_destroys_both() {
    let mut w = World::new(viewport(), v(0, 400));
    let mut s = GameState::new();
    // Halfway between the centers of bricks 0 and 1, inside the gap.
    w.ball.position = v(-360_000, 240_000);
    w.ball.velocity = v(100, 300);
    w.resolve_collisions(&mut s);
    assert_eq!(w.brick_count(), 38);
    assert_eq!(s.score, 20);
    // Two vertical flips cancel.
    assert_eq!(w.ball.velocity, v(100, 300));
}

#[test]
fn dead_center_paddle_hit_goes_straight_up() {
    let mut w = empty_world();
    let mut s = GameState::new();
    w.ball.position = v(0, -295_000);
    w.ball.velocity = v(200, -300);
    w.resolve_collisions(&mut s);
    assert_eq!(w.ball.velocity, v(0, 300));
    assert_eq!(s.score, 0);
}

#[test]
fn off_center_paddle_hit_steers() {
    // Speed 500, half a half-width to the right: 250 across.
    assert_eq!(paddle_bounce_velocity(v(300, -400), 30_000), v(250, 400));
    assert_eq!(paddle_bounce_velocity(v(300, -400), -30_000), v(-250, 400));
    // Rounded toward zero.
    assert_eq!(paddle_bounce_velocity(v(0, -400), -59_999), v(-399, 400));
    assert_eq!(paddle_bounce_velocity(v(0, -400), 1), v(0, 400));
    // Beyond the paddle's half width the factor exceeds one.
    assert_eq!(paddle_bounce_velocity(v(0, -600), 69_000), v(690, 600));
    // Upward already: stays upward.
    assert_eq!(paddle_bounce_velocity(v(0, 400), 0), v(0, 400));
}

#[test]
fn side_wall_flips_horizontal_velocity() {
    let mut w = empty_world();
    w.paddle.position = v(0, -1_000_000);
    w.spawn(v(-645_000, 0), v(WALL_THICKNESS, 720_000), Role::Wall);
    w.ball.position = v(-632_000, 0);
    w.ball.velocity = v(-300, 200);
    let mut s = GameState::new();
    w.resolve_collisions(&mut s);
    assert_eq!(w.ball.velocity, v(300, 200));
    assert_eq!(w.entities.len(), 1);
}

#[test]
fn top_wall_flips_vertical_velocity() {
    let mut w = empty_world();
    w.paddle.position = v(0, -1_000_000);
    w.spawn(v(0, 365_000), v(1_300_000, WALL_THICKNESS), Role::Wall);
    w.ball.position = v(100_000, 352_000);
    w.ball.velocity = v(-300, 200);
    let mut s = GameState::new();
    w.resolve_collisions(&mut s);
    assert_eq!(w.ball.velocity, v(-300, -200));
    assert_eq!(w.entities.len(), 1);
}

#[test]
fn ball_moves_by_velocity_for_one_second() {
    let mut w = empty_world();
    w.ball.position = v(12_000, 50_000);
    w.ball.velocity = v(0, -300);
    w.move_ball(1000);
    assert_eq!(w.ball.position, v(12_000, -250_000));
    assert_eq!(w.ball.velocity, v(0, -300));
}

#[test]
fn one_second_of_ticks_without_collisions() {
    let mut w = World::new(viewport(), v(0, 400));
    let mut s = GameState::new();
    w.ball.position = v(300_000, 0);
    w.ball.velocity = v(0, -300);
    for _ in 0..10 {
        assert!(w.step_ready(&s, viewport(), 100));
        w.step(&mut s, NO_KEYS, viewport(), 100, v(0, 400));
    }
    assert_eq!(w.ball.position, v(300_000, -300_000));
    assert_eq!(w.ball.velocity, v(0, -300));
    assert_eq!(s, GameState::new());
    assert_eq!(w.brick_count(), 40);
}

#[test]
fn ball_below_field_respawns_and_costs_a_life() {
    let mut w = World::new(viewport(), v(0, 400));
    let mut s = GameState::new();
    // One pixel below the threshold of half the height plus the ball's height.
    w.ball.position = v(77_000, -360_000 - 20_000 - 1_000);
    w.ball.velocity = v(50, -400);
    w.reset_ball(&mut s, viewport(), v(-100, 387));
    assert_eq!(w.ball.position, v(0, -260_000));
    assert_eq!(w.ball.velocity, v(-100, 387));
    assert_eq!(s.lives, 2);
    assert_eq!(s.score, 0);
}

#[test]
fn ball_at_threshold_stays() {
    let mut w = World::new(viewport(), v(0, 400));
    let mut s = GameState::new();
    w.ball.position = v(77_000, -380_000);
    w.reset_ball(&mut s, viewport(), v(-100, 387));
    assert_eq!(w.ball.position, v(77_000, -380_000));
    assert_eq!(s.lives, 3);
}

#[test]
fn lives_stop_at_zero() {
    let mut w = World::new(viewport(), v(0, 400));
    let mut s = GameState::new();
    for expected in [2, 1, 0, 0, 0] {
        w.ball.position = v(0, -1_000_000);
        w.reset_ball(&mut s, viewport(), v(0, 400));
        assert_eq!(s.lives, expected);
    }
}

#[test]
fn paddle_clamps_at_boundary() {
    let mut w = World::new(viewport(), v(0, 400));
    let right = Input { left: false, right: true };
    let left = Input { left: true, right: false };
    // Half a second right: 250 pixels.
    w.move_paddle(right, viewport(), 500);
    assert_eq!(w.paddle.position, v(250_000, -310_000));
    // Boundary: 640 - 60 - 10 = 570 pixels.
    for _ in 0..5 {
        w.move_paddle(right, viewport(), 500);
        assert!(w.paddle.position.x <= 570_000);
    }
    assert_eq!(w.paddle.position.x, 570_000);
    for _ in 0..10 {
        w.move_paddle(left, viewport(), 700);
        assert!(w.paddle.position.x >= -570_000);
    }
    assert_eq!(w.paddle.position.x, -570_000);
}

#[test]
fn both_keys_cancel() {
    let mut w = World::new(viewport(), v(0, 400));
    w.move_paddle(Input { left: true, right: true }, viewport(), 500);
    assert_eq!(w.paddle.position, v(0, -310_000));
    w.move_paddle(NO_KEYS, viewport(), 500);
    assert_eq!(w.paddle.position, v(0, -310_000));
}

#[test]
fn step_scores_a_brick() {
    let mut w = World::new(viewport(), v(0, 400));
    let mut s = GameState::new();
    // Under the bottom-left brick, moving up 200 pixels per second.
    w.ball.position = v(-405_000, 85_000);
    w.ball.velocity = v(0, 200);
    w.step(&mut s, NO_KEYS, viewport(), 100, v(0, 400));
    assert_eq!(w.ball.position, v(-405_000, 105_000));
    assert_eq!(s.score, 10);
    assert_eq!(w.brick_count(), 39);
    assert!(w.entities.iter().all(|e| e.id != 30));
    assert_eq!(w.ball.velocity, v(0, -200));
}

#[test]
fn step_respawns_a_lost_ball() {
    let mut w = World::new(viewport(), v(0, 400));
    let mut s = GameState::new();
    w.ball.position = v(300_000, -375_000);
    w.ball.velocity = v(0, -100);
    w.step(&mut s, NO_KEYS, viewport(), 100, v(7, 399));
    assert_eq!(w.ball.position, v(0, -260_000));
    assert_eq!(w.ball.velocity, v(7, 399));
    assert_eq!(s.lives, 2);
}

#[test]
fn spawn_and_despawn() {
    let mut w = empty_world();
    let a = w.spawn(v(1, 2), v(3, 4), Role::Brick);
    let b = w.spawn(v(5, 6), v(7, 8), Role::Wall);
    assert_eq!((a, b), (0, 1));
    assert_eq!(w.brick_count(), 1);
    w.despawn(a);
    assert_eq!(w.entities, vec![Entity { id: 1, position: v(5, 6), size: v(7, 8), role: Role::Wall }]);
    w.despawn(42);
    assert_eq!(w.entities.len(), 1);
}

#[test]
fn step_refuses_values_beyond_limits() {
    let mut w = World::new(viewport(), v(0, 400));
    let s = GameState::new();
    assert!(w.step_ready(&s, viewport(), 16));
    assert!(!w.step_ready(&s, viewport(), -1));
    assert!(!w.step_ready(&s, Viewport { half_width: 60_000, half_height: 360_000 }, 16));
    w.ball.velocity = v(2_000_000_000, 0);
    assert!(!w.step_ready(&s, viewport(), 16));
    let rich = GameState { score: u32::MAX - 5, lives: 3 };
    w.ball.velocity = v(0, 400);
    assert!(!w.step_ready(&rich, viewport(), 16));
}

#[test]
fn round_score_counts_bricks_gone() {
    let mut w = World::new(viewport(), v(0, 400));
    let mut s = GameState::new();
    let start = w.brick_count();
    // Aim the ball up through the bottom-left column, one tick at a time.
    w.ball.position = v(-405_000, 85_000);
    w.ball.velocity = v(0, 200);
    let mut last_score = s.score;
    for _ in 0..40 {
        w.step(&mut s, NO_KEYS, viewport(), 100, v(0, 400));
        assert!(s.score >= last_score);
        last_score = s.score;
        // Keep it going upward so it reaches the next row.
        w.ball.velocity = v(0, 200);
    }
    let gone = (start - w.brick_count()) as u32;
    assert!(gone >= 2);
    assert_eq!(s.score, 10 * gone);
}
