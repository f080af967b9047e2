//! World setup: the bodies that stand on the playfield when the game starts.
//!
//! Lengths and positions are whole pixels. Scales that the physics world takes
//! as fractions are kept in hundredths.

use vstd::prelude::*;
use crate::brick::{Brick, INITIAL_HIT_POINTS};
use crate::paddle::{Paddle, PADDLE_STEP, PADDLE_Y};

verus! {

/// The slowest and fastest horizontal speed the ball may start with.
pub const BALL_MIN_SPEED_X: i32 = -100;

pub const BALL_MAX_SPEED_X: i32 = 100;

/// The ball starts downwards: its vertical speed lies between these two.
pub const BALL_MIN_SPEED_Y: i32 = -30;

pub const BALL_MAX_SPEED_Y: i32 = -5;

/// How far above the field's centre the grid of bricks is centred.
pub const BRICK_GRID_BASE_Y: i64 = 50;

/// The sprites of the playfield's bodies, as asset paths.
#[derive(Clone, Copy, Debug, PartialEq, Eq)]
pub struct GamePhysicsPlugin {
    pub paddle_sprite: &'static str,
    pub ball_sprite: &'static str,
    pub horizontal_bound_sprite: &'static str,
    pub vertical_bound_sprite: &'static str,
    pub brick_sprite: &'static str,
}

/// How the physics world moves a body.
#[derive(Clone, Copy, Debug, PartialEq, Eq, Structural)]
pub enum BodyKind {
    /// Never moves.
    Static,
    /// Moves only where the game puts it.
    Kinematic,
    /// Moves under forces and contacts.
    Dynamic,
}

/// The outline that a body collides with.
#[derive(Clone, Copy, Debug, PartialEq, Eq, Structural)]
pub enum Shape {
    Cuboid { half_width: i32, half_height: i32 },
    Ball { radius: i32 },
}

/// What a body is to the game.
#[derive(Clone, Copy, Debug, PartialEq, Eq)]
pub enum Role {
    Paddle(Paddle),
    Ball,
    Boundary,
    Brick(Brick),
}

/// One body to place: where, of what kind and shape, and how it looks.
#[derive(Clone, Copy, Debug, PartialEq, Eq)]
pub struct BodyPlan {
    pub kind: BodyKind,
    pub x: i64,
    pub y: i64,
    pub shape: Shape,
    pub lock_rotations: bool,
    pub can_sleep: bool,
    /// Gravity scale, in hundredths.
    pub gravity_scale: i32,
    pub velocity_x: i32,
    pub velocity_y: i32,
    /// Friction, in hundredths.
    pub friction: i32,
    /// Restitution, in hundredths.
    pub restitution: i32,
    pub sprite: &'static str,
    pub role: Role,
}

/// A body at rest with the physics world's usual settings and no friction.
pub open spec fn still_body(
    kind: BodyKind,
    x: int,
    y: int,
    shape: Shape,
    sprite: &'static str,
    role: Role,
) -> BodyPlan {
    BodyPlan {
        kind,
        x: x as i64,
        y: y as i64,
        shape,
        lock_rotations: false,
        can_sleep: true,
        gravity_scale: 100,
        velocity_x: 0,
        velocity_y: 0,
        friction: 0,
        restitution: 0,
        sprite,
        role,
    }
}

/// The paddle: kinematic, upright, centred at the bottom of the field.
pub open spec fn paddle_plan(sprites: GamePhysicsPlugin, paddle: Paddle) -> BodyPlan {
    BodyPlan {
        lock_rotations: true,
        ..still_body(
            BodyKind::Kinematic,
            0,
            PADDLE_Y as int,
            Shape::Cuboid { half_width: 35, half_height: 5 },
            sprites.paddle_sprite,
            Role::Paddle(paddle),
        )
    }
}

/// The ball: dynamic, round, bouncing off with more speed than it came with,
/// at the top centre of the field with the given velocity.
pub open spec fn ball_plan(sprites: GamePhysicsPlugin, velocity_x: i32, velocity_y: i32) -> BodyPlan {
    BodyPlan {
        gravity_scale: 981,
        velocity_x,
        velocity_y,
        restitution: 201,
        ..still_body(
            BodyKind::Dynamic,
            0,
            300,
            Shape::Ball { radius: 10 },
            sprites.ball_sprite,
            Role::Ball,
        )
    }
}

/// A wall: static, at the given place and of the given size.
pub open spec fn wall_plan(x: int, y: int, half_width: i32, half_height: i32, sprite: &'static str) -> BodyPlan {
    still_body(BodyKind::Static, x, y, Shape::Cuboid { half_width, half_height }, sprite, Role::Boundary)
}

/// The three walls that close the field: above, to the left, to the right.
pub open spec fn boundary_plans(sprites: GamePhysicsPlugin) -> Seq<BodyPlan> {
    seq![
        wall_plan(0, 300, 400, 35, sprites.horizontal_bound_sprite),
        wall_plan(-400, 0, 35, 400, sprites.vertical_bound_sprite),
        wall_plan(400, 0, 35, 400, sprites.vertical_bound_sprite),
    ]
}

/// A brick: kinematic, with all its hit-points.
pub open spec fn brick_plan(sprites: GamePhysicsPlugin, x: int, y: int) -> BodyPlan {
    still_body(
        BodyKind::Kinematic,
        x,
        y,
        Shape::Cuboid { half_width: 25, half_height: 5 },
        sprites.brick_sprite,
        Role::Brick(Brick(INITIAL_HIT_POINTS)),
    )
}

/// How many whole numbers lie between `-reach` and `reach`, both counted.
pub open spec fn span(reach: int) -> nat {
    if reach >= 0 {
        (2 * reach + 1) as nat
    } else {
        0
    }
}

/// The first `count` bricks of the line at height `y`: they start `rows` cells
/// to the left of the centre and stand one cell apart.
pub open spec fn brick_line(
    sprites: GamePhysicsPlugin,
    rows: int,
    padding_x: int,
    y: int,
    count: nat,
) -> Seq<BodyPlan> {
    Seq::new(count, |i: int| brick_plan(sprites, (i - rows) * padding_x, y))
}

/// The first `count` lines of the grid, lowest first: the lines start `columns`
/// cells below the grid's base height and lie one cell apart, and each runs
/// from `rows` cells left of the centre to `rows` cells right of it.
pub open spec fn brick_lines(
    sprites: GamePhysicsPlugin,
    rows: int,
    columns: int,
    padding_x: int,
    padding_y: int,
    count: nat,
) -> Seq<BodyPlan>
    decreases count,
{
    if count == 0 {
        Seq::empty()
    } else {
        brick_lines(sprites, rows, columns, padding_x, padding_y, (count - 1) as nat) + brick_line(
            sprites,
            rows,
            padding_x,
            (count - 1 - columns) * padding_y + BRICK_GRID_BASE_Y,
            span(rows),
        )
    }
}

/// The whole grid of bricks.
pub open spec fn brick_grid(
    sprites: GamePhysicsPlugin,
    rows: int,
    columns: int,
    padding_x: int,
    padding_y: int,
) -> Seq<BodyPlan> {
    brick_lines(sprites, rows, columns, padding_x, padding_y, span(columns))
}

/// Draws a whole number from `low` to `high`, both included, with
/// `rand::Rng::gen_range` on the thread's generator. Nothing is claimed of the
/// number but that it lies in the range; the range must not be empty.
#[verifier::external_body]
fn random_between(low: i32, high: i32) -> (value: i32)
    requires
        low <= high,
    ensures
        low <= value <= high,
{
    rand::Rng::gen_range(&mut rand::thread_rng(), low..=high)
}

fn place(kind: BodyKind, x: i64, y: i64, shape: Shape, sprite: &'static str, role: Role) -> (plan:
    BodyPlan)
    ensures
        plan == still_body(kind, x as int, y as int, shape, sprite, role),
{
    BodyPlan {
        kind,
        x,
        y,
        shape,
        lock_rotations: false,
        can_sleep: true,
        gravity_scale: 100,
        velocity_x: 0,
        velocity_y: 0,
        friction: 0,
        restitution: 0,
        sprite,
        role,
    }
}

/// Plans the paddle.
pub fn spawn_paddle(sprites: &GamePhysicsPlugin) -> (plan: BodyPlan)
    ensures
        plan.role matches Role::Paddle(paddle) && paddle.step() == PADDLE_STEP && plan
            == paddle_plan(*sprites, paddle),
{
    let mut plan = place(
        BodyKind::Kinematic,
        0,
        PADDLE_Y,
        Shape::Cuboid { half_width: 35, half_height: 5 },
        sprites.paddle_sprite,
        Role::Paddle(Paddle::new()),
    );
    plan.lock_rotations = true;
    plan
}

/// Plans the ball with a velocity that the caller has chosen.
pub fn ball_with_velocity(sprites: &GamePhysicsPlugin, velocity_x: i32, velocity_y: i32) -> (plan:
    BodyPlan)
    ensures
        plan == ball_plan(*sprites, velocity_x, velocity_y),
{
    let mut plan = place(
        BodyKind::Dynamic,
        0,
        300,
        Shape::Ball { radius: 10 },
        sprites.ball_sprite,
        Role::Ball,
    );
    plan.gravity_scale = 981;
    plan.velocity_x = velocity_x;
    plan.velocity_y = velocity_y;
    plan.restitution = 201;
    plan
}

/// Plans the ball with a velocity drawn at random: horizontally anywhere
/// between the two speed bounds, vertically always downwards.
pub fn spawn_ball(sprites: &GamePhysicsPlugin) -> (plan: BodyPlan)
    ensures
        BALL_MIN_SPEED_X <= plan.velocity_x <= BALL_MAX_SPEED_X,
        BALL_MIN_SPEED_Y <= plan.velocity_y <= BALL_MAX_SPEED_Y,
        plan == ball_plan(*sprites, plan.velocity_x, plan.velocity_y),
{
    let velocity_x = random_between(BALL_MIN_SPEED_X, BALL_MAX_SPEED_X);
    let velocity_y = random_between(BALL_MIN_SPEED_Y, BALL_MAX_SPEED_Y);
    ball_with_velocity(sprites, velocity_x, velocity_y)
}

/// Plans the three walls: the upper one first, then the left, then the right.
pub fn spawn_boundaries(sprites: &GamePhysicsPlugin) -> (plans: Vec<BodyPlan>)
    ensures
        plans@ == boundary_plans(*sprites),
{
    let mut plans: Vec<BodyPlan> = Vec::new();
    plans.push(
        place(
            BodyKind::Static,
            0,
            300,
            Shape::Cuboid { half_width: 400, half_height: 35 },
            sprites.horizontal_bound_sprite,
            Role::Boundary,
        ),
    );
    plans.push(
        place(
            BodyKind::Static,
            -400,
            0,
            Shape::Cuboid { half_width: 35, half_height: 400 },
            sprites.vertical_bound_sprite,
            Role::Boundary,
        ),
    );
    plans.push(
        place(
            BodyKind::Static,
            400,
            0,
            Shape::Cuboid { half_width: 35, half_height: 400 },
            sprites.vertical_bound_sprite,
            Role::Boundary,
        ),
    );
    assert(plans@ =~= boundary_plans(*sprites));
    plans
}

/// Plans the grid of bricks, line by line from the lowest, each line from left
/// to right. A line reaches `rows` cells to either side of the centre, and the
/// lines reach `columns` cells below and above the grid's base height; a
/// negative reach leaves the grid empty. Cells are `padding_x` wide and
/// `padding_y` high.
pub fn spawn_bricks(
    rows: i8,
    columns: i8,
    padding_x: i32,
    padding_y: i32,
    sprites: &GamePhysicsPlugin,
) -> (plans: Vec<BodyPlan>)
    ensures
        plans@ == brick_grid(*sprites, rows as int, columns as int, padding_x as int, padding_y as int),
{
    let mut plans: Vec<BodyPlan> = Vec::new();
    let ghost grid = |count: nat|
        brick_lines(*sprites, rows as int, columns as int, padding_x as int, padding_y as int, count);
    let mut column: i64 = -(columns as i64);
    while column <= columns as i64
        invariant
            -columns <= column <= columns + 1 || (columns < 0 && column == -columns),
            grid == (|count: nat|
                brick_lines(
                    *sprites,
                    rows as int,
                    columns as int,
                    padding_x as int,
                    padding_y as int,
                    count,
                )),
            columns >= 0 ==> plans@ == grid((column + columns) as nat),
            columns < 0 ==> plans@ == grid(0),
        decreases columns + 1 - column,
    {
        assert(-0x40_0000_0000 <= column * padding_y <= 0x40_0000_0000) by (nonlinear_arith)
            requires
                -128 <= column <= 128,
                -0x8000_0000 <= padding_y < 0x8000_0000,
        ;
        let y: i64 = column * (padding_y as i64) + BRICK_GRID_BASE_Y;
        let ghost done = plans@;
        let mut row: i64 = -(rows as i64);
        while row <= rows as i64
            invariant
                -rows <= row <= rows + 1 || (rows < 0 && row == -rows),
                y == column * padding_y + BRICK_GRID_BASE_Y,
                -128 <= column <= 128,
                rows >= 0 ==> plans@ == done + brick_line(
                    *sprites,
                    rows as int,
                    padding_x as int,
                    y as int,
                    (row + rows) as nat,
                ),
                rows < 0 ==> plans@ == done,
            decreases rows + 1 - row,
        {
            assert(-0x40_0000_0000 <= row * padding_x <= 0x40_0000_0000) by (nonlinear_arith)
                requires
                    -128 <= row <= 128,
                    -0x8000_0000 <= padding_x < 0x8000_0000,
            ;
            let x: i64 = row * (padding_x as i64);
            plans.push(
                place(
                    BodyKind::Kinematic,
                    x,
                    y,
                    Shape::Cuboid { half_width: 25, half_height: 5 },
                    sprites.brick_sprite,
                    Role::Brick(Brick::new()),
                ),
            );
            assert(plans@ =~= done + brick_line(
                *sprites,
                rows as int,
                padding_x as int,
                y as int,
                (row + rows + 1) as nat,
            ));
            row += 1;
        }
        assert(plans@ =~= done + brick_line(
            *sprites,
            rows as int,
            padding_x as int,
            y as int,
            span(rows as int),
        ));
        assert(grid((column + columns + 1) as nat) == grid((column + columns) as nat) + brick_line(
            *sprites,
            rows as int,
            padding_x as int,
            (column + columns + 1 - 1 - columns) * padding_y + BRICK_GRID_BASE_Y,
            span(rows as int),
        ));
        column += 1;
    }
    plans
}

/// Plans the whole playfield: the paddle, the ball, the three walls, and a grid
/// of bricks that reaches three cells to the sides and two up and down, in
/// cells 100 wide and 65 high.
pub fn setup_physics(sprites: &GamePhysicsPlugin) -> (plans: Vec<BodyPlan>)
    ensures
        plans.len() >= 2,
        plans[0].role matches Role::Paddle(paddle) && paddle.step() == PADDLE_STEP && plans@
            == seq![
            paddle_plan(*sprites, paddle),
            ball_plan(*sprites, plans[1].velocity_x, plans[1].velocity_y),
        ] + boundary_plans(*sprites) + brick_grid(*sprites, 3, 2, 100, 65),
        BALL_MIN_SPEED_X <= plans[1].velocity_x <= BALL_MAX_SPEED_X,
        BALL_MIN_SPEED_Y <= plans[1].velocity_y <= BALL_MAX_SPEED_Y,
{
    let mut plans: Vec<BodyPlan> = Vec::new();
    plans.push(spawn_paddle(sprites));
    plans.push(spawn_ball(sprites));
    let mut walls = spawn_boundaries(sprites);
    plans.append(&mut walls);
    let mut bricks = spawn_bricks(3, 2, 100, 65, sprites);
    plans.append(&mut bricks);
    plans
}

/// The first `count` lines of the grid hold one brick for each cell.
pub proof fn lemma_brick_lines_len(
    sprites: GamePhysicsPlugin,
    rows: int,
    columns: int,
    padding_x: int,
    padding_y: int,
    count: nat,
)
    ensures
        brick_lines(sprites, rows, columns, padding_x, padding_y, count).len() == count * span(rows),
    decreases count,
{
    if count > 0 {
        lemma_brick_lines_len(sprites, rows, columns, padding_x, padding_y, (count - 1) as nat);
        assert((count - 1) * span(rows) + span(rows) == count * span(rows)) by (nonlinear_arith);
    } else {
        assert(0 * span(rows) == 0) by (nonlinear_arith);
    }
}

/// Where each brick of the first `count` lines stands: brick `i` of line
/// `line`, both counted from zero, is `i - rows` cells right of the centre and
/// `line - columns` cells above the grid's base height.
pub proof fn lemma_brick_lines_cell(
    sprites: GamePhysicsPlugin,
    rows: int,
    columns: int,
    padding_x: int,
    padding_y: int,
    count: nat,
    line: int,
    i: int,
)
    requires
        0 <= line < count,
        0 <= i < span(rows),
    ensures
        0 <= line * span(rows) + i < brick_lines(
            sprites,
            rows,
            columns,
            padding_x,
            padding_y,
            count,
        ).len(),
        brick_lines(sprites, rows, columns, padding_x, padding_y, count)[line * span(rows) + i]
            == brick_plan(
            sprites,
            (i - rows) * padding_x,
            (line - columns) * padding_y + BRICK_GRID_BASE_Y,
        ),
    decreases count,
{
    let width = span(rows);
    let below = brick_lines(sprites, rows, columns, padding_x, padding_y, (count - 1) as nat);
    lemma_brick_lines_len(sprites, rows, columns, padding_x, padding_y, (count - 1) as nat);
    lemma_brick_lines_len(sprites, rows, columns, padding_x, padding_y, count);
    assert(0 <= line * width && line * width + width <= count * width) by (nonlinear_arith)
        requires
            0 <= line < count,
            0 <= width,
    ;
    if line < count - 1 {
        lemma_brick_lines_cell(
            sprites,
            rows,
            columns,
            padding_x,
            padding_y,
            (count - 1) as nat,
            line,
            i,
        );
    } else {
        assert(line * width == below.len());
    }
}

/// The grid holds one brick for each cell, and the brick of the cell `row`
/// cells right of the centre and `column` cells above the base height stands
/// exactly there.
pub proof fn lemma_brick_grid_cell(
    sprites: GamePhysicsPlugin,
    rows: int,
    columns: int,
    padding_x: int,
    padding_y: int,
    row: int,
    column: int,
)
    requires
        -rows <= row <= rows,
        -columns <= column <= columns,
    ensures
        brick_grid(sprites, rows, columns, padding_x, padding_y).len() == span(rows) * span(columns),
        0 <= (column + columns) * span(rows) + (row + rows) < span(rows) * span(columns),
        brick_grid(sprites, rows, columns, padding_x, padding_y)[(column + columns) * span(rows) + (
        row + rows)] == brick_plan(sprites, row * padding_x, column * padding_y + BRICK_GRID_BASE_Y),
{
    lemma_brick_lines_len(sprites, rows, columns, padding_x, padding_y, span(columns));
    lemma_brick_lines_cell(
        sprites,
        rows,
        columns,
        padding_x,
        padding_y,
        span(columns),
        column + columns,
        row + rows,
    );
    assert(span(columns) * span(rows) == span(rows) * span(columns)) by (nonlinear_arith);
}

/// A grid with a negative reach to the sides or upwards holds no brick.
pub proof fn lemma_brick_grid_empty(
    sprites: GamePhysicsPlugin,
    rows: int,
    columns: int,
    padding_x: int,
    padding_y: int,
)
    requires
        rows < 0 || columns < 0,
    ensures
        brick_grid(sprites, rows, columns, padding_x, padding_y).len() == 0,
{
    lemma_brick_lines_len(sprites, rows, columns, padding_x, padding_y, span(columns));
    assert(span(columns) * span(rows) == 0) by (nonlinear_arith)
        requires
            span(columns) == 0 || span(rows) == 0,
    ;
}

} // verus!
