//! Motion: the paddle steps left or right each frame, the ball follows its velocity.
use vstd::prelude::*;

use crate::config::{
    BALL_SPEED_MAX, ESCAPE_DISTANCE, MICROS_PER_SECOND, PADDLE_MAX_X, PADDLE_MIN_X, PADDLE_SPEED,
};
use crate::entities::{Ball, FrameInput, Paddle, POSITION_LIMIT};
use crate::vector::{abs, div_toward_zero, Vector};

verus! {

/// `v` held within `[lo, hi]`.
pub open spec fn clamp(v: int, lo: int, hi: int) -> int {
    if v < lo {
        lo
    } else if v > hi {
        hi
    } else {
        v
    }
}

/// Net horizontal direction asked for: holding both keys cancels out.
pub open spec fn steer_direction(input: FrameInput) -> int {
    (if input.right {
        1int
    } else {
        0int
    }) - (if input.left {
        1int
    } else {
        0int
    })
}

/// The paddle after one frame of steering: one step in the asked direction, kept on the field.
pub open spec fn steered(p: Paddle, input: FrameInput) -> Paddle {
    Paddle {
        x: clamp(
            p.x + steer_direction(input) * PADDLE_SPEED,
            PADDLE_MIN_X as int,
            PADDLE_MAX_X as int,
        ) as i64,
        ..p
    }
}

/// Distance covered along one axis at velocity `v` in `dt` microseconds, rounded toward zero.
pub open spec fn displacement(v: int, dt: int) -> int {
    div_toward_zero(v * dt, MICROS_PER_SECOND as int)
}

/// The ball after moving for `dt` microseconds.
pub open spec fn advanced(b: Ball, dt: u32) -> Ball {
    Ball {
        position: Vector {
            x: (b.position.x + displacement(b.velocity.x as int, dt as int)) as i64,
            y: (b.position.y + displacement(b.velocity.y as int, dt as int)) as i64,
        },
        ..b
    }
}

/// Moves the paddle one step in the direction asked for, then keeps it on the field.
/// The step is per frame, not scaled by the frame time.
pub fn steer_paddle(paddle: &mut Paddle, input: &FrameInput)
    requires
        i64::MIN + PADDLE_SPEED <= old(paddle).x <= i64::MAX - PADDLE_SPEED,
    ensures
        *final(paddle) == steered(*old(paddle), *input),
        PADDLE_MIN_X <= final(paddle).x <= PADDLE_MAX_X,
{
    let mut x: i64 = paddle.x;
    if input.left {
        x = x - PADDLE_SPEED;
    }
    if input.right {
        x = x + PADDLE_SPEED;
    }
    if x < PADDLE_MIN_X {
        x = PADDLE_MIN_X;
    } else if x > PADDLE_MAX_X {
        x = PADDLE_MAX_X;
    }
    paddle.x = x;
}

/// Distance covered along one axis at velocity `v` in `dt` microseconds.
fn axis_displacement(v: i64, dt: u32) -> (r: i64)
    requires
        abs(v as int) <= BALL_SPEED_MAX,
    ensures
        r == displacement(v as int, dt as int),
        abs(r as int) <= 4_300_000_000,
{
    let a: u64 = if v < 0 { (-v) as u64 } else { v as u64 };
    assert(a * (dt as u64) <= 1_000_000 * 4_294_967_295) by (nonlinear_arith)
        requires
            a <= 1_000_000,
            dt <= 4_294_967_295,
    ;
    let q: u64 = a * (dt as u64) / 1_000_000;
    assert((-v) * dt == -(v * dt)) by (nonlinear_arith);
    assert(v < 0 && dt > 0 ==> v * dt < 0) by (nonlinear_arith);
    assert(v >= 0 ==> v * dt >= 0) by (nonlinear_arith);
    if v < 0 {
        -(q as i64)
    } else {
        q as i64
    }
}

/// Moves the ball along its velocity for `dt` microseconds, on each axis independently.
pub fn advance_ball(ball: &mut Ball, dt: u32)
    requires
        old(ball).position.bounded(ESCAPE_DISTANCE as int),
        old(ball).velocity.bounded(BALL_SPEED_MAX as int),
    ensures
        *final(ball) == advanced(*old(ball), dt),
        final(ball).position.bounded(POSITION_LIMIT as int),
{
    let dx = axis_displacement(ball.velocity.x, dt);
    let dy = axis_displacement(ball.velocity.y, dt);
    ball.position = Vector { x: ball.position.x + dx, y: ball.position.y + dy };
}

} // verus!
