//! The records of the playfield: the ball, the paddle and the blocks.
use vstd::prelude::*;

use crate::config::{
    BALL_START_SPEED, BLOCK_COLUMNS, BLOCK_COOLDOWN, BLOCK_COUNT, BLOCK_HEIGHT, BLOCK_ROWS,
    BLOCK_ROW_GAP, BLOCK_SPACING, BLOCK_START_X, BLOCK_TOP_Y, BUMP_DURATION, BUMP_HEIGHT,
    ESCAPE_DISTANCE, HALF_FIELD_HEIGHT, HALF_FIELD_WIDTH, PADDLE_MAX_X, PADDLE_MIN_X, PADDLE_REST_Y,
};
use crate::speed::{in_speed_band, launch_velocity};
use crate::vector::Vector;

verus! {

/// Largest distance from the center, on either axis, that a ball reaches within a frame.
pub const POSITION_LIMIT: i64 = 5_000_000_000;

/// The ball.
#[derive(Clone, Copy, Debug, PartialEq, Eq, Structural)]
pub struct Ball {
    /// Center of the ball.
    pub position: Vector,
    /// Velocity, in sub-units per second.
    pub velocity: Vector,
    /// Microseconds left before the ball may destroy another block.
    pub cooldown: u32,
}

/// The paddle, with the state of its bump.
#[derive(Clone, Copy, Debug, PartialEq, Eq, Structural)]
pub struct Paddle {
    /// Horizontal position of the center.
    pub x: i64,
    /// Vertical position of the center.
    pub y: i64,
    /// Height to return to when a bump ends.
    pub original_y: i64,
    /// Microseconds left in the current bump.
    pub bounce_timer: u32,
    /// A bump is under way.
    pub bouncing: bool,
}

/// A block of the grid, by its center.
#[derive(Clone, Copy, Debug, PartialEq, Eq, Structural)]
pub struct Block {
    pub x: i64,
    pub y: i64,
}

/// What the player asks for in one frame.
#[derive(Clone, Copy, Debug, PartialEq, Eq, Structural)]
pub struct FrameInput {
    /// A move-left key is held.
    pub left: bool,
    /// A move-right key is held.
    pub right: bool,
    /// The action key went down in this frame.
    pub action: bool,
}

impl Ball {
    /// State of a ball between frames: its speed is legal, it is near the field and
    /// its cooldown is at most one block's.
    pub open spec fn wf(self) -> bool {
        &&& in_speed_band(self.velocity)
        &&& self.position.bounded(ESCAPE_DISTANCE as int)
        &&& self.cooldown <= BLOCK_COOLDOWN
    }

    /// A freshly launched ball.
    pub open spec fn launched() -> Ball {
        Ball { position: Vector { x: 0, y: 0 }, velocity: launch_velocity(), cooldown: 0 }
    }

    /// Creates a ball at the center of the field with the launch velocity.
    pub fn launch() -> (r: Ball)
        ensures
            r == Ball::launched(),
            r.wf(),
    {
        proof {
            crate::speed::lemma_band_constants();
        }
        Ball {
            position: Vector { x: 0, y: 0 },
            velocity: Vector { x: BALL_START_SPEED, y: BALL_START_SPEED },
            cooldown: 0,
        }
    }
}

impl Paddle {
    /// State of a paddle: within the field, at rest or lifted by a bump.
    pub open spec fn wf(self) -> bool {
        &&& PADDLE_MIN_X <= self.x <= PADDLE_MAX_X
        &&& self.original_y == PADDLE_REST_Y
        &&& self.bounce_timer <= BUMP_DURATION
        &&& if self.bouncing {
            self.y == PADDLE_REST_Y + BUMP_HEIGHT
        } else {
            self.y == PADDLE_REST_Y
        }
    }

    /// A paddle at rest in the middle of the field.
    pub open spec fn centered() -> Paddle {
        Paddle { x: 0, y: PADDLE_REST_Y, original_y: PADDLE_REST_Y, bounce_timer: 0, bouncing: false }
    }

    /// Creates the paddle at rest in the middle of the field.
    pub fn spawn() -> (r: Paddle)
        ensures
            r == Paddle::centered(),
            r.wf(),
    {
        Paddle { x: 0, y: PADDLE_REST_Y, original_y: PADDLE_REST_Y, bounce_timer: 0, bouncing: false }
    }
}

impl Block {
    /// The block lies on the field.
    pub open spec fn wf(self) -> bool {
        &&& -HALF_FIELD_WIDTH <= self.x <= HALF_FIELD_WIDTH
        &&& -HALF_FIELD_HEIGHT <= self.y <= HALF_FIELD_HEIGHT
    }
}

/// Every block of a sequence lies on the field.
pub open spec fn blocks_wf(blocks: Seq<Block>) -> bool {
    forall|i: int| 0 <= i < blocks.len() ==> (#[trigger] blocks[i]).wf()
}

/// The block at index `i` of the full grid: rows from the top, each row from the left.
pub open spec fn grid_block(i: int) -> Block {
    Block {
        x: (BLOCK_START_X + (i % (BLOCK_COLUMNS as int)) * BLOCK_SPACING) as i64,
        y: (BLOCK_TOP_Y - (i / (BLOCK_COLUMNS as int)) * (BLOCK_HEIGHT + BLOCK_ROW_GAP)) as i64,
    }
}

/// The full grid of blocks.
pub open spec fn full_grid() -> Seq<Block> {
    Seq::new(BLOCK_COUNT as nat, |i: int| grid_block(i))
}

/// Lays out the full grid of blocks: `BLOCK_ROWS` rows of `BLOCK_COLUMNS` blocks,
/// centered across the field and anchored below its top.
pub fn block_grid() -> (r: Vec<Block>)
    ensures
        r@ == full_grid(),
        blocks_wf(r@),
{
    let mut blocks: Vec<Block> = Vec::new();
    let mut row: i64 = 0;
    while row < BLOCK_ROWS
        invariant
            0 <= row <= BLOCK_ROWS,
            blocks@.len() == row * BLOCK_COLUMNS,
            forall|i: int| 0 <= i < blocks@.len() ==> blocks@[i] == grid_block(i),
            blocks_wf(blocks@),
        decreases BLOCK_ROWS - row,
    {
        let y: i64 = BLOCK_TOP_Y - row * (BLOCK_HEIGHT + BLOCK_ROW_GAP);
        let mut col: i64 = 0;
        while col < BLOCK_COLUMNS
            invariant
                0 <= row < BLOCK_ROWS,
                0 <= col <= BLOCK_COLUMNS,
                y == BLOCK_TOP_Y - row * (BLOCK_HEIGHT + BLOCK_ROW_GAP),
                blocks@.len() == row * BLOCK_COLUMNS + col,
                forall|i: int| 0 <= i < blocks@.len() ==> blocks@[i] == grid_block(i),
                blocks_wf(blocks@),
            decreases BLOCK_COLUMNS - col,
        {
            let x: i64 = BLOCK_START_X + col * BLOCK_SPACING;
            proof {
                assert(-600_000 <= x <= 600_000) by (nonlinear_arith)
                    requires
                        x == -600_000 + col * 80_000,
                        0 <= col < 16,
                ;
                assert(220_000 <= y <= 310_000) by (nonlinear_arith)
                    requires
                        y == 310_000 - row * 30_000,
                        0 <= row < 4,
                ;
                let i = row * BLOCK_COLUMNS + col;
                assert(i % 16 == col && i / 16 == row) by (nonlinear_arith)
                    requires
                        i == row * 16 + col,
                        0 <= col < 16,
                        0 <= row,
                ;
            }
            blocks.push(Block { x, y });
            col = col + 1;
        }
        row = row + 1;
    }
    assert(blocks@ =~= full_grid());
    blocks
}

} // verus!
