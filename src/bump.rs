//! The paddle bump and the bounds watchdog, which run after the collision resolver.
use vstd::prelude::*;

use crate::collision::{counted_down, spans_paddle_x, spans_paddle_y};
use crate::config::{
    BALL_SPEED_MAX, BALL_START_SPEED, BUMP_DURATION, BUMP_HEIGHT, ESCAPE_DISTANCE,
    HALF_EFFECTIVE_BALL, HALF_PADDLE_HEIGHT, HALF_PADDLE_WIDTH,
};
use crate::entities::{Ball, Paddle, POSITION_LIMIT};
use crate::speed::{
    govern, governed, in_speed_band, launch_velocity, lemma_band_constants, norm_sq_u64,
    restart_speed, restarted,
};
use crate::vector::{abs, Vector};

verus! {

/// The ball's effective box overlaps the paddle's box.
pub open spec fn overlaps_paddle(pos: Vector, p: Paddle) -> bool {
    spans_paddle_x(pos, p) && spans_paddle_y(pos, p)
}

/// The paddle when the bump key goes down: a paddle at rest remembers its height,
/// starts the bump timer and lifts; one already lifted stays as it is.
pub open spec fn bump_started(p: Paddle) -> Paddle {
    if p.bouncing {
        p
    } else {
        Paddle {
            original_y: p.y,
            bouncing: true,
            bounce_timer: BUMP_DURATION,
            y: (p.y + BUMP_HEIGHT) as i64,
            ..p
        }
    }
}

/// The paddle after `dt` microseconds of a bump: the timer runs down, and once it is
/// out the paddle drops back to the height it remembered.
pub open spec fn bump_settled(p: Paddle, dt: u32) -> Paddle {
    if p.bouncing {
        let t = counted_down(p.bounce_timer, dt);
        if t == 0 {
            Paddle { y: p.original_y, bouncing: false, bounce_timer: 0, ..p }
        } else {
            Paddle { bounce_timer: t, ..p }
        }
    } else {
        p
    }
}

/// The paddle after one frame of the bump animator.
pub open spec fn bumped_paddle(p: Paddle, action: bool, dt: u32) -> Paddle {
    bump_settled(
        if action {
            bump_started(p)
        } else {
            p
        },
        dt,
    )
}

/// The ball after one frame of the bump animator: a bump timed while the ball overlaps
/// the paddle speeds it up by half, within the speed band.
pub open spec fn bumped_ball(b: Ball, p: Paddle, action: bool) -> Ball {
    if action && overlaps_paddle(b.position, p) {
        Ball { velocity: governed(b.velocity.scaled(3, 2)), ..b }
    } else {
        b
    }
}

/// The ball is far outside the field on either axis.
pub open spec fn escaped(pos: Vector) -> bool {
    abs(pos.x as int) > ESCAPE_DISTANCE || abs(pos.y as int) > ESCAPE_DISTANCE
}

/// The ball after the watchdog: an escaped ball is put back at the center with the
/// launch velocity, and a ball slower than half the start speed is brought to the
/// start speed.
pub open spec fn watched(b: Ball) -> Ball {
    let b1 = if escaped(b.position) {
        Ball { position: Vector { x: 0, y: 0 }, velocity: launch_velocity(), ..b }
    } else {
        b
    };
    if 4 * b1.velocity.norm_sq() < BALL_START_SPEED * BALL_START_SPEED {
        Ball { velocity: restarted(b1.velocity), ..b1 }
    } else {
        b1
    }
}

/// Runs the bump animator for one frame. `action` tells whether the bump key went down.
pub fn bump(paddle: &mut Paddle, ball: &mut Ball, action: bool, dt: u32)
    requires
        old(paddle).wf(),
        old(ball).position.bounded(POSITION_LIMIT as int),
        old(ball).velocity.bounded(BALL_SPEED_MAX as int),
    ensures
        *final(paddle) == bumped_paddle(*old(paddle), action, dt),
        *final(ball) == bumped_ball(*old(ball), *old(paddle), action),
        final(paddle).wf(),
        in_speed_band(old(ball).velocity) ==> in_speed_band(final(ball).velocity),
{
    if action {
        let h = HALF_EFFECTIVE_BALL;
        let pos = ball.position;
        let overlap = pos.x + h > paddle.x - HALF_PADDLE_WIDTH && pos.x - h < paddle.x
            + HALF_PADDLE_WIDTH && pos.y + h > paddle.y - HALF_PADDLE_HEIGHT && pos.y - h
            < paddle.y + HALF_PADDLE_HEIGHT;
        if !paddle.bouncing {
            paddle.original_y = paddle.y;
            paddle.bouncing = true;
            paddle.bounce_timer = BUMP_DURATION;
            paddle.y = paddle.y + BUMP_HEIGHT;
        }
        if overlap {
            ball.velocity = govern(ball.velocity.scale(3, 2));
        }
    }
    if paddle.bouncing {
        if paddle.bounce_timer > dt {
            paddle.bounce_timer = paddle.bounce_timer - dt;
        } else {
            paddle.y = paddle.original_y;
            paddle.bouncing = false;
            paddle.bounce_timer = 0;
        }
    }
}

/// The watchdog: recovers a ball that escaped the field or stalled.
pub fn check_bounds(ball: &mut Ball)
    requires
        old(ball).position.bounded(POSITION_LIMIT as int),
        old(ball).velocity.bounded(BALL_SPEED_MAX as int),
    ensures
        *final(ball) == watched(*old(ball)),
        final(ball).position.bounded(ESCAPE_DISTANCE as int),
        in_speed_band(old(ball).velocity) ==> in_speed_band(final(ball).velocity),
        !escaped(old(ball).position) && 4 * old(ball).velocity.norm_sq() < BALL_START_SPEED
            * BALL_START_SPEED ==> {
            &&& in_speed_band(final(ball).velocity)
            &&& final(ball).position == old(ball).position
            &&& (old(ball).velocity.x != 0 ==> final(ball).velocity.x * old(ball).velocity.x > 0)
            &&& (old(ball).velocity.y != 0 ==> final(ball).velocity.y * old(ball).velocity.y > 0)
            &&& (old(ball).velocity.norm_sq() != 0 ==> final(ball).velocity.norm_sq() <= (
            BALL_START_SPEED + 2) * (BALL_START_SPEED + 2))
            &&& (old(ball).velocity.norm_sq() == 0 ==> final(ball).velocity.norm_sq()
                == BALL_START_SPEED * BALL_START_SPEED)
        },
{
    proof {
        lemma_band_constants();
    }
    let x = ball.position.x;
    let y = ball.position.y;
    if x > ESCAPE_DISTANCE || x < -ESCAPE_DISTANCE || y > ESCAPE_DISTANCE || y < -ESCAPE_DISTANCE {
        ball.position = Vector { x: 0, y: 0 };
        ball.velocity = Vector { x: BALL_START_SPEED, y: BALL_START_SPEED };
    }
    let m = norm_sq_u64(ball.velocity);
    if 4 * m < (BALL_START_SPEED * BALL_START_SPEED) as u64 {
        ball.velocity = restart_speed(ball.velocity);
    }
}

} // verus!
