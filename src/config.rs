//! Fixed dimensions and tuning of the game.
//!
//! Lengths are integers in thousandths of a world unit, speeds in thousandths of
//! a unit per second and durations in microseconds, so that every rule of the
//! game is exact integer arithmetic.
use vstd::prelude::*;

verus! {

/// Sub-units per world unit.
pub const UNIT: i64 = 1000;

/// Microseconds per second.
pub const MICROS_PER_SECOND: i64 = 1_000_000;

/// Width of the playing field.
pub const FIELD_WIDTH: i64 = 1280 * UNIT;

/// Height of the playing field.
pub const FIELD_HEIGHT: i64 = 720 * UNIT;

/// Half of the field width: the side walls stand at plus and minus this.
pub const HALF_FIELD_WIDTH: i64 = 640 * UNIT;

/// Half of the field height: the bottom and top walls stand at plus and minus this.
pub const HALF_FIELD_HEIGHT: i64 = 360 * UNIT;

/// Width of the paddle.
pub const PADDLE_WIDTH: i64 = 100 * UNIT;

/// Height of the paddle.
pub const PADDLE_HEIGHT: i64 = 20 * UNIT;

/// Half of the paddle width.
pub const HALF_PADDLE_WIDTH: i64 = 50 * UNIT;

/// Half of the paddle height.
pub const HALF_PADDLE_HEIGHT: i64 = 10 * UNIT;

/// Distance of the paddle's lower edge from the bottom of the field, before the lift.
pub const PADDLE_MARGIN: i64 = 30 * UNIT;

/// Extra height at which the paddle rests above its margin.
pub const PADDLE_LIFT: i64 = 100 * UNIT;

/// Resting height of the paddle's center.
pub const PADDLE_REST_Y: i64 = -HALF_FIELD_HEIGHT + PADDLE_MARGIN + HALF_PADDLE_HEIGHT + PADDLE_LIFT;

/// Horizontal step of the paddle per frame while a direction is held.
pub const PADDLE_SPEED: i64 = 12 * UNIT;

/// Leftmost legal paddle center.
pub const PADDLE_MIN_X: i64 = -HALF_FIELD_WIDTH + HALF_PADDLE_WIDTH;

/// Rightmost legal paddle center.
pub const PADDLE_MAX_X: i64 = HALF_FIELD_WIDTH - HALF_PADDLE_WIDTH;

/// Visual size of the ball; also its hit box against blocks.
pub const BALL_SIZE: i64 = 46 * UNIT;

/// Margin added on each side of the ball for hits against walls and the paddle.
pub const BALL_COLLISION_MARGIN: i64 = 10 * UNIT;

/// Half of the ball's visual size.
pub const HALF_BALL: i64 = 23 * UNIT;

/// Half of the ball's effective size (visual size plus both margins).
pub const HALF_EFFECTIVE_BALL: i64 = HALF_BALL + BALL_COLLISION_MARGIN;

/// Lowest legal ball speed, and each component of the launch velocity.
pub const BALL_START_SPEED: i64 = 200 * UNIT;

/// Highest legal ball speed.
pub const BALL_SPEED_MAX: i64 = 1000 * UNIT;

/// Horizontal speed given to a ball that leaves the paddle off center (0.8 of the start speed).
pub const AIM_SPEED: i64 = 160 * UNIT;

/// Offset from the paddle center beyond which a hit is off center (10% of the half width).
pub const AIM_DEAD_ZONE: i64 = 5 * UNIT;

/// Horizontal distance between neighbouring block centers.
pub const BLOCK_SPACING: i64 = 80 * UNIT;

/// Width of a block's hit box.
pub const BLOCK_WIDTH: i64 = 75 * UNIT;

/// Height of a block.
pub const BLOCK_HEIGHT: i64 = 20 * UNIT;

/// Half of a block's width.
pub const HALF_BLOCK_WIDTH: i64 = 37_500;

/// Half of a block's height.
pub const HALF_BLOCK_HEIGHT: i64 = 10 * UNIT;

/// Vertical gap between rows of blocks.
pub const BLOCK_ROW_GAP: i64 = 10 * UNIT;

/// Distance of the top row's center below the top of the field.
pub const BLOCK_TOP_OFFSET: i64 = 50 * UNIT;

/// Number of rows of blocks.
pub const BLOCK_ROWS: i64 = 4;

/// Number of blocks in a row: as many as fit across the field at the block spacing.
pub const BLOCK_COLUMNS: i64 = 16;

/// Number of blocks in a full grid.
pub const BLOCK_COUNT: i64 = BLOCK_ROWS * BLOCK_COLUMNS;

/// Center of the leftmost column, which centers the row on the field.
pub const BLOCK_START_X: i64 = -600 * UNIT;

/// Center of the top row.
pub const BLOCK_TOP_Y: i64 = HALF_FIELD_HEIGHT - BLOCK_TOP_OFFSET;

/// Time after a block hit during which no other block can be destroyed.
pub const BLOCK_COOLDOWN: u32 = 100_000;

/// Duration of a paddle bump.
pub const BUMP_DURATION: u32 = 200_000;

/// Height by which a bump lifts the paddle.
pub const BUMP_HEIGHT: i64 = 15 * UNIT;

/// Distance from the center on either axis beyond which the ball counts as escaped.
pub const ESCAPE_DISTANCE: i64 = HALF_FIELD_WIDTH + 100 * UNIT;

/// Largest velocity component that the speed governor accepts.
pub const VELOCITY_LIMIT: i64 = 1_000_000_000;

} // verus!
