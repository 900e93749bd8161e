use vstd::prelude::*;

use crate::geometry::{within, Vector2};
use crate::motion::paddle_boundary;
use crate::round::respawn_point;

verus! {

/// Lengths and positions are counted in thousandths of a pixel; velocities
/// in pixels per second; frame times in milliseconds. A velocity times a
/// frame time is therefore a displacement in thousandths of a pixel, exactly.
pub const UNITS_PER_PIXEL: i64 = 1000;

pub const PADDLE_WIDTH: i64 = 120_000;
pub const PADDLE_HEIGHT: i64 = 20_000;
/// Half the paddle's width: the unit in which a hit's offset from the
/// paddle's center is measured.
pub const PADDLE_HALF_WIDTH: i64 = 60_000;
/// Paddle speed in pixels per second.
pub const PADDLE_SPEED: i64 = 500;
/// Height of the paddle's center above the bottom of the play field.
pub const PADDLE_START_HEIGHT: i64 = 50_000;

pub const BALL_WIDTH: i64 = 20_000;
pub const BALL_HEIGHT: i64 = 20_000;
/// Launch speed of the ball in pixels per second.
pub const BALL_SPEED: i64 = 400;
/// Height of the ball's re-entry point above the bottom of the play field.
pub const RESPAWN_HEIGHT: i64 = 100_000;

pub const BRICK_WIDTH: i64 = 80_000;
pub const BRICK_HEIGHT: i64 = 30_000;
pub const BRICK_SPACING: i64 = 10_000;
pub const BRICK_ROWS: usize = 4;
pub const BRICK_COLUMNS: usize = 10;
/// Center of the leftmost brick column: the row of columns, with their gaps,
/// is centered on x = 0.
pub const BRICK_START_X: i64 = -405_000;

pub const WALL_THICKNESS: i64 = 10_000;

pub const BRICK_POINTS: u32 = 10;
pub const STARTING_LIVES: u32 = 3;

/// Largest coordinate magnitude of a stored entity, paddle or ball.
pub const COORD_LIMIT: i64 = 1_000_000_000_000_000;
/// Largest half width or half height of a play field.
pub const VIEWPORT_LIMIT: i64 = 100_000_000_000_000;
/// Largest extent of a stored entity.
pub const SIZE_LIMIT: i64 = 4_000_000_000_000_000;
/// Largest velocity component, in pixels per second, that a tick accepts.
pub const VELOCITY_LIMIT: i64 = 1_000_000_000;
/// Longest frame, in milliseconds, that a tick accepts.
pub const FRAME_LIMIT_MS: i64 = 1_000_000;

/// What an entity other than the paddle and the ball is.
#[derive(Clone, Copy, Debug, PartialEq, Eq, Structural)]
pub enum Role {
    Brick,
    Wall,
}

/// A collidable entity: its identifier, center, full extent and role.
#[derive(Clone, Copy, Debug, PartialEq, Eq, Structural)]
pub struct Entity {
    pub id: u64,
    pub position: Vector2,
    pub size: Vector2,
    pub role: Role,
}

/// The paddle; its extent is `PADDLE_WIDTH` by `PADDLE_HEIGHT`.
#[derive(Clone, Copy, Debug, PartialEq, Eq, Structural)]
pub struct Paddle {
    pub position: Vector2,
}

/// The ball; its extent is `BALL_WIDTH` by `BALL_HEIGHT`.
#[derive(Clone, Copy, Debug, PartialEq, Eq, Structural)]
pub struct Ball {
    pub position: Vector2,
    pub velocity: Vector2,
}

/// Score and remaining lives.
#[derive(Clone, Copy, Debug, PartialEq, Eq, Structural)]
pub struct GameState {
    pub score: u32,
    pub lives: u32,
}

/// The two movement keys held during a frame.
#[derive(Clone, Copy, Debug, PartialEq, Eq, Structural)]
pub struct Input {
    pub left: bool,
    pub right: bool,
}

/// Half the width and half the height of the visible play field, which is
/// centered on the origin.
#[derive(Clone, Copy, Debug, PartialEq, Eq, Structural)]
pub struct Viewport {
    pub half_width: i64,
    pub half_height: i64,
}

/// The simulation: exactly one paddle, exactly one ball, and the bricks and
/// walls, in the order in which collisions with them are resolved.
#[derive(Debug)]
pub struct World {
    pub paddle: Paddle,
    pub ball: Ball,
    pub entities: Vec<Entity>,
    pub next_id: u64,
}

pub open spec fn paddle_size() -> Vector2 {
    Vector2 { x: PADDLE_WIDTH, y: PADDLE_HEIGHT }
}

pub open spec fn ball_size() -> Vector2 {
    Vector2 { x: BALL_WIDTH, y: BALL_HEIGHT }
}

pub open spec fn brick_count(es: Seq<Entity>) -> nat
    decreases es.len(),
{
    if es.len() == 0 {
        0
    } else {
        brick_count(es.drop_last()) + if es.last().role == Role::Brick {
            1nat
        } else {
            0nat
        }
    }
}

pub proof fn lemma_brick_count_push(s: Seq<Entity>, e: Entity)
    ensures
        brick_count(s.push(e)) == brick_count(s) + if e.role == Role::Brick {
            1nat
        } else {
            0nat
        },
{
    assert(s.push(e).drop_last() =~= s);
}

pub open spec fn entities_in_limits(es: Seq<Entity>) -> bool {
    forall|i: int|
        0 <= i < es.len() ==> {
            &&& #[trigger] within(es[i].position, COORD_LIMIT as int)
            &&& 0 <= es[i].size.x <= SIZE_LIMIT
            &&& 0 <= es[i].size.y <= SIZE_LIMIT
        }
}
pub open spec fn viewport_in_limits(viewport: Viewport) -> bool {
    &&& 0 <= viewport.half_width <= VIEWPORT_LIMIT
    &&& 0 <= viewport.half_height <= VIEWPORT_LIMIT
}

/// A viewport wide enough for the paddle to fit between the walls.
pub open spec fn viewport_playable(viewport: Viewport) -> bool {
    &&& viewport_in_limits(viewport)
    &&& paddle_boundary(viewport) >= 0
}
/// Center of the brick in `row` (counted downward) and `column` (counted
/// rightward): the top row sits a third of the play field's height above
/// its center.
pub open spec fn brick_position(row: int, column: int, viewport: Viewport) -> Vector2 {
    Vector2 {
        x: (BRICK_START_X + column * (BRICK_WIDTH + BRICK_SPACING)) as i64,
        y: ((2 * viewport.half_height) / 3 - row * (BRICK_HEIGHT + BRICK_SPACING)) as i64,
    }
}

/// The `k`-th brick of the grid, filled row by row.
pub open spec fn grid_brick(k: int, viewport: Viewport) -> Entity {
    Entity {
        id: k as u64,
        position: brick_position(k / BRICK_COLUMNS as int, k % BRICK_COLUMNS as int, viewport),
        size: Vector2 { x: BRICK_WIDTH, y: BRICK_HEIGHT },
        role: Role::Brick,
    }
}

pub open spec fn left_wall(id: u64, viewport: Viewport) -> Entity {
    Entity {
        id,
        position: Vector2 { x: (-viewport.half_width - WALL_THICKNESS / 2) as i64, y: 0 },
        size: Vector2 { x: WALL_THICKNESS, y: (2 * viewport.half_height) as i64 },
        role: Role::Wall,
    }
}

pub open spec fn right_wall(id: u64, viewport: Viewport) -> Entity {
    Entity {
        id,
        position: Vector2 { x: (viewport.half_width + WALL_THICKNESS / 2) as i64, y: 0 },
        size: Vector2 { x: WALL_THICKNESS, y: (2 * viewport.half_height) as i64 },
        role: Role::Wall,
    }
}

pub open spec fn top_wall(id: u64, viewport: Viewport) -> Entity {
    Entity {
        id,
        position: Vector2 { x: 0, y: (viewport.half_height + WALL_THICKNESS / 2) as i64 },
        size: Vector2 { x: (2 * viewport.half_width + 2 * WALL_THICKNESS) as i64, y: WALL_THICKNESS },
        role: Role::Wall,
    }
}

impl GameState {
    /// No points and `STARTING_LIVES` lives.
    pub fn new() -> (r: GameState)
        ensures
            r.score == 0,
            r.lives == STARTING_LIVES,
    {
        GameState { score: 0, lives: STARTING_LIVES }
    }
}

impl World {
    /// The world at the start of a round: the paddle near the bottom, the ball
    /// at the re-entry point with velocity `launch`, the grid of
    /// `BRICK_ROWS` by `BRICK_COLUMNS` bricks, then the left, right and top
    /// walls.
    pub fn new(viewport: Viewport, launch: Vector2) -> (r: World)
        requires
            viewport_in_limits(viewport),
        ensures
            r.paddle.position == (Vector2 { x: 0, y: (PADDLE_START_HEIGHT - viewport.half_height) as i64 }),
            r.ball == (Ball { position: respawn_point(viewport), velocity: launch }),
            r.entities@.len() == BRICK_ROWS * BRICK_COLUMNS + 3,
            forall|k: int| 0 <= k < BRICK_ROWS * BRICK_COLUMNS ==> r.entities@[k] == grid_brick(k, viewport),
            r.entities@[40] == left_wall(40, viewport),
            r.entities@[41] == right_wall(41, viewport),
            r.entities@[42] == top_wall(42, viewport),
            r.next_id == 43,
            brick_count(r.entities@) == BRICK_ROWS * BRICK_COLUMNS,
            entities_in_limits(r.entities@),
    {
        let hh = viewport.half_height;
        let hw = viewport.half_width;
        let mut world = World {
            paddle: Paddle { position: Vector2 { x: 0, y: PADDLE_START_HEIGHT - hh } },
            ball: Ball { position: Vector2 { x: 0, y: RESPAWN_HEIGHT - hh }, velocity: launch },
            entities: Vec::new(),
            next_id: 0,
        };
        let top_y: i64 = (2 * hh) / 3;
        let total: usize = BRICK_ROWS * BRICK_COLUMNS;
        let mut k: usize = 0;
        while k < total
            invariant
                total == BRICK_ROWS * BRICK_COLUMNS,
                k <= total,
                world.entities@.len() == k,
                world.next_id == k,
                top_y == (2 * hh) / 3,
                0 <= hh <= VIEWPORT_LIMIT,
                viewport.half_height == hh,
                forall|j: int| 0 <= j < k ==> world.entities@[j] == grid_brick(j, viewport),
                brick_count(world.entities@) == k,
                entities_in_limits(world.entities@),
                world.paddle.position == (Vector2 { x: 0, y: (PADDLE_START_HEIGHT - viewport.half_height) as i64 }),
                world.ball == (Ball { position: respawn_point(viewport), velocity: launch }),
            decreases total - k,
        {
            let row: usize = k / BRICK_COLUMNS;
            let column: usize = k % BRICK_COLUMNS;
            let position = Vector2 {
                x: BRICK_START_X + (column as i64) * (BRICK_WIDTH + BRICK_SPACING),
                y: top_y - (row as i64) * (BRICK_HEIGHT + BRICK_SPACING),
            };
            let ghost before = world.entities@;
            world.spawn(position, Vector2 { x: BRICK_WIDTH, y: BRICK_HEIGHT }, Role::Brick);
            proof {
                lemma_brick_count_push(before, world.entities@.last());
                assert(world.entities@.last() == grid_brick(k as int, viewport));
                assert forall|i: int| 0 <= i < world.entities@.len() implies {
                    &&& #[trigger] within(world.entities@[i].position, COORD_LIMIT as int)
                    &&& 0 <= world.entities@[i].size.x <= SIZE_LIMIT
                    &&& 0 <= world.entities@[i].size.y <= SIZE_LIMIT
                } by {
                    if i < k {
                        assert(world.entities@[i] == before[i]);
                    }
                }
            }
            k = k + 1;
        }
        let side_extent = Vector2 { x: WALL_THICKNESS, y: 2 * hh };
        World::push_wall(&mut world, Vector2 { x: -hw - WALL_THICKNESS / 2, y: 0 }, side_extent);
        World::push_wall(&mut world, Vector2 { x: hw + WALL_THICKNESS / 2, y: 0 }, side_extent);
        World::push_wall(
            &mut world,
            Vector2 { x: 0, y: hh + WALL_THICKNESS / 2 },
            Vector2 { x: 2 * hw + 2 * WALL_THICKNESS, y: WALL_THICKNESS },
        );
        world
    }

    fn push_wall(&mut self, position: Vector2, size: Vector2)
        requires
            old(self).next_id < 100,
            within(position, COORD_LIMIT as int),
            0 <= size.x <= SIZE_LIMIT,
            0 <= size.y <= SIZE_LIMIT,
            entities_in_limits(old(self).entities@),
        ensures
            final(self).entities@ == old(self).entities@.push(
                (Entity { id: old(self).next_id, position, size, role: Role::Wall }),
            ),
            brick_count(final(self).entities@) == brick_count(old(self).entities@),
            entities_in_limits(final(self).entities@),
            final(self).next_id == old(self).next_id + 1,
            final(self).paddle == old(self).paddle,
            final(self).ball == old(self).ball,
    {
        let ghost before = self.entities@;
        self.spawn(position, size, Role::Wall);
        proof {
            lemma_brick_count_push(before, self.entities@.last());
            assert forall|i: int| 0 <= i < self.entities@.len() implies {
                &&& #[trigger] within(self.entities@[i].position, COORD_LIMIT as int)
                &&& 0 <= self.entities@[i].size.x <= SIZE_LIMIT
                &&& 0 <= self.entities@[i].size.y <= SIZE_LIMIT
            } by {
                if i < before.len() {
                    assert(self.entities@[i] == before[i]);
                }
            }
        }
    }

    /// Adds an entity at the end of the collision order and returns its new
    /// identifier.
    pub fn spawn(&mut self, position: Vector2, size: Vector2, role: Role) -> (id: u64)
        requires
            old(self).next_id < u64::MAX,
        ensures
            id == old(self).next_id,
            final(self).entities@ == old(self).entities@.push((Entity { id, position, size, role })),
            final(self).next_id == old(self).next_id + 1,
            final(self).paddle == old(self).paddle,
            final(self).ball == old(self).ball,
    {
        let id = self.next_id;
        self.entities.push(Entity { id, position, size, role });
        self.next_id = id + 1;
        id
    }

    /// Removes every entity with identifier `id`, keeping the others in order.
    pub fn despawn(&mut self, id: u64)
        ensures
            final(self).entities@ == old(self).entities@.filter(|e: Entity| e.id != id),
            final(self).next_id == old(self).next_id,
            final(self).paddle == old(self).paddle,
            final(self).ball == old(self).ball,
    {
        let mut kept: Vec<Entity> = Vec::new();
        let n: usize = self.entities.len();
        let mut i: usize = 0;
        while i < n
            invariant
                *self == *old(self),
                n == self.entities@.len(),
                i <= n,
                kept@ == self.entities@.subrange(0, i as int).filter(|e: Entity| e.id != id),
            decreases n - i,
        {
            let e = self.entities[i];
            proof {
                assert(self.entities@.subrange(0, i + 1).drop_last() =~= self.entities@.subrange(
                    0,
                    i as int,
                ));
                reveal(Seq::filter);
            }
            if e.id != id {
                kept.push(e);
            }
            i = i + 1;
        }
        proof {
            assert(self.entities@.subrange(0, n as int) =~= self.entities@);
        }
        self.entities = kept;
    }

    /// Number of bricks still standing.
    pub fn brick_count(&self) -> (r: usize)
        ensures
            r == brick_count(self.entities@),
    {
        let n: usize = self.entities.len();
        let mut count: usize = 0;
        let mut i: usize = 0;
        while i < n
            invariant
                n == self.entities@.len(),
                i <= n,
                count == brick_count(self.entities@.subrange(0, i as int)),
                count <= i,
            decreases n - i,
        {
            proof {
                assert(self.entities@.subrange(0, i + 1).drop_last() =~= self.entities@.subrange(
                    0,
                    i as int,
                ));
            }
            if self.entities[i].role == Role::Brick {
                count = count + 1;
            }
            i = i + 1;
        }
        proof {
            assert(self.entities@.subrange(0, n as int) =~= self.entities@);
        }
        count
    }

}

} // verus!
