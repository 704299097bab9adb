//! The collision resolver: the ball against the walls, the paddle and the blocks.
//!
//! Walls and the paddle are hit with the ball's effective size (its visual size
//! plus a margin on each side); blocks are hit with its plain visual size.
use vstd::prelude::*;

use crate::config::{
    AIM_DEAD_ZONE, AIM_SPEED, BALL_SPEED_MAX, VELOCITY_LIMIT, BLOCK_COOLDOWN, HALF_BALL, HALF_BLOCK_HEIGHT,
    HALF_BLOCK_WIDTH, HALF_EFFECTIVE_BALL, HALF_FIELD_HEIGHT, HALF_FIELD_WIDTH,
    HALF_PADDLE_HEIGHT, HALF_PADDLE_WIDTH,
};
use crate::entities::{blocks_wf, Ball, Block, Paddle, POSITION_LIMIT};
use crate::speed::{govern, governed, in_speed_band, lemma_governed_in_band};
use crate::vector::{abs, keeps_sign, lemma_scaled_keeps_signs, Vector};

verus! {

/// Horizontal velocity given by a paddle hit at offset `rel_x` from the paddle's center:
/// off center to the right sends the ball right, off center to the left sends it left,
/// and the middle band sends it straight.
pub open spec fn aimed_x(rel_x: int) -> i64 {
    if rel_x > AIM_DEAD_ZONE {
        AIM_SPEED
    } else if rel_x < -AIM_DEAD_ZONE {
        (-AIM_SPEED) as i64
    } else {
        0
    }
}

/// Velocity after a hit on a face of the paddle: vertical velocity `vy`, horizontal
/// velocity by aim, then sped up, more for a hit below the paddle's center.
pub open spec fn face_response(vy: int, rel_x: int, rel_y: int) -> Vector {
    let v = Vector { x: aimed_x(rel_x), y: vy as i64 };
    if rel_y < 0 {
        v.scaled(13, 10)
    } else {
        v.scaled(23, 20)
    }
}

/// The ball after the walls: a side wall turns it back inward and puts its edge on the
/// wall; the bottom or the top wall turns it back inward and slows it by a tenth.
pub open spec fn wall_bounced(b: Ball) -> Ball {
    let h = HALF_EFFECTIVE_BALL as int;
    let pos = b.position;
    let v = b.velocity;
    let (x, vx) = if pos.x + h > HALF_FIELD_WIDTH {
        (HALF_FIELD_WIDTH - h, -abs(v.x as int))
    } else if pos.x - h < -HALF_FIELD_WIDTH {
        (-HALF_FIELD_WIDTH + h, abs(v.x as int))
    } else {
        (pos.x as int, v.x as int)
    };
    let v1 = Vector { x: vx as i64, y: v.y };
    let v2 = if pos.y - h < -HALF_FIELD_HEIGHT {
        Vector { x: v1.x, y: abs(v1.y as int) as i64 }.scaled(9, 10)
    } else {
        v1
    };
    let v3 = if pos.y + h > HALF_FIELD_HEIGHT {
        Vector { x: v2.x, y: (-abs(v2.y as int)) as i64 }.scaled(9, 10)
    } else {
        v2
    };
    Ball { position: Vector { x: x as i64, y: pos.y }, velocity: v3, ..b }
}

/// The ball spans the paddle horizontally.
pub open spec fn spans_paddle_x(pos: Vector, p: Paddle) -> bool {
    &&& pos.x + HALF_EFFECTIVE_BALL > p.x - HALF_PADDLE_WIDTH
    &&& pos.x - HALF_EFFECTIVE_BALL < p.x + HALF_PADDLE_WIDTH
}

/// The ball spans the paddle vertically.
pub open spec fn spans_paddle_y(pos: Vector, p: Paddle) -> bool {
    &&& pos.y + HALF_EFFECTIVE_BALL > p.y - HALF_PADDLE_HEIGHT
    &&& pos.y - HALF_EFFECTIVE_BALL < p.y + HALF_PADDLE_HEIGHT
}

/// A falling ball whose lower edge is within the paddle's height: a hit on the top face.
pub open spec fn hits_top_face(pos: Vector, v: Vector, p: Paddle) -> bool {
    &&& v.y < 0
    &&& pos.y - HALF_EFFECTIVE_BALL <= p.y + HALF_PADDLE_HEIGHT
    &&& pos.y - HALF_EFFECTIVE_BALL >= p.y - HALF_PADDLE_HEIGHT
    &&& spans_paddle_x(pos, p)
}

/// A rising ball whose upper edge is within the paddle's height: a hit on the bottom face.
pub open spec fn hits_bottom_face(pos: Vector, v: Vector, p: Paddle) -> bool {
    &&& v.y > 0
    &&& pos.y + HALF_EFFECTIVE_BALL >= p.y - HALF_PADDLE_HEIGHT
    &&& pos.y + HALF_EFFECTIVE_BALL <= p.y + HALF_PADDLE_HEIGHT
    &&& spans_paddle_x(pos, p)
}

/// The ball straddles the paddle's left edge.
pub open spec fn hits_left_side(pos: Vector, p: Paddle) -> bool {
    &&& pos.x + HALF_EFFECTIVE_BALL >= p.x - HALF_PADDLE_WIDTH
    &&& pos.x - HALF_EFFECTIVE_BALL <= p.x - HALF_PADDLE_WIDTH
    &&& spans_paddle_y(pos, p)
}

/// The ball straddles the paddle's right edge.
pub open spec fn hits_right_side(pos: Vector, p: Paddle) -> bool {
    &&& pos.x - HALF_EFFECTIVE_BALL <= p.x + HALF_PADDLE_WIDTH
    &&& pos.x + HALF_EFFECTIVE_BALL >= p.x + HALF_PADDLE_WIDTH
    &&& spans_paddle_y(pos, p)
}

/// The ball's velocity after the paddle: the top face, then the bottom face, then the
/// left and right edges, each tested on the velocity left by the one before.
pub open spec fn paddle_response(b: Ball, p: Paddle) -> Vector {
    let pos = b.position;
    let rel_x = pos.x - p.x;
    let rel_y = pos.y - p.y;
    let v1 = if hits_top_face(pos, b.velocity, p) {
        face_response(abs(b.velocity.y as int), rel_x, rel_y)
    } else {
        b.velocity
    };
    let v2 = if hits_bottom_face(pos, v1, p) {
        face_response(-abs(v1.y as int), rel_x, rel_y)
    } else {
        v1
    };
    let v3 = if hits_left_side(pos, p) {
        Vector { x: (-abs(v2.x as int)) as i64, y: v2.y }
    } else {
        v2
    };
    if hits_right_side(pos, p) {
        Vector { x: abs(v3.x as int) as i64, y: v3.y }
    } else {
        v3
    }
}

/// The ball's effective box lies wholly above or wholly below the paddle, so that
/// no face or edge of the paddle can touch it.
pub open spec fn clear_of_paddle_y(pos: Vector, p: Paddle) -> bool {
    pos.y - HALF_EFFECTIVE_BALL > p.y + HALF_PADDLE_HEIGHT || pos.y + HALF_EFFECTIVE_BALL < p.y
        - HALF_PADDLE_HEIGHT
}

/// The ball's plain box overlaps the block's box.
pub open spec fn overlaps_block(pos: Vector, blk: Block) -> bool {
    &&& pos.x + HALF_BALL > blk.x - HALF_BLOCK_WIDTH
    &&& pos.x - HALF_BALL < blk.x + HALF_BLOCK_WIDTH
    &&& pos.y + HALF_BALL > blk.y - HALF_BLOCK_HEIGHT
    &&& pos.y - HALF_BALL < blk.y + HALF_BLOCK_HEIGHT
}

/// Index of the first block from index `i` on that the ball overlaps.
pub open spec fn first_overlap_from(pos: Vector, blocks: Seq<Block>, i: int) -> Option<int>
    decreases blocks.len() - i,
{
    if i < 0 || i >= blocks.len() {
        None
    } else if overlaps_block(pos, blocks[i]) {
        Some(i)
    } else {
        first_overlap_from(pos, blocks, i + 1)
    }
}

/// The block that the ball destroys, if any: the first one it overlaps, and only once
/// its cooldown has run out.
pub open spec fn block_hit(b: Ball, blocks: Seq<Block>) -> Option<int> {
    if b.cooldown == 0 {
        first_overlap_from(b.position, blocks, 0)
    } else {
        None
    }
}

/// Velocity after destroying a block: the vertical component negated, then sped up by a tenth.
pub open spec fn block_response(v: Vector) -> Vector {
    Vector { x: v.x, y: (-v.y) as i64 }.scaled(11, 10)
}

/// A countdown after `dt` microseconds, stopping at zero.
pub open spec fn counted_down(c: u32, dt: u32) -> u32 {
    if c > dt {
        (c - dt) as u32
    } else {
        0
    }
}

/// The ball after the walls and the paddle.
pub open spec fn collided(b: Ball, p: Paddle) -> Ball {
    let b1 = wall_bounced(b);
    Ball { velocity: paddle_response(b1, p), ..b1 }
}

/// The ball at the end of the resolver: after the walls, the paddle and the blocks,
/// with its cooldown run down and its speed governed.
pub open spec fn resolved(b: Ball, p: Paddle, blocks: Seq<Block>, dt: u32) -> Ball {
    let b1 = collided(b, p);
    let b2 = match block_hit(b1, blocks) {
        Some(_) => Ball { velocity: block_response(b1.velocity), cooldown: BLOCK_COOLDOWN, ..b1 },
        None => b1,
    };
    Ball { velocity: governed(b2.velocity), cooldown: counted_down(b2.cooldown, dt), ..b2 }
}

/// The blocks left after the resolver.
pub open spec fn remaining_blocks(b: Ball, p: Paddle, blocks: Seq<Block>) -> Seq<Block> {
    match block_hit(collided(b, p), blocks) {
        Some(i) => blocks.remove(i),
        None => blocks,
    }
}

/// Absolute value of a component.
fn abs_i64(v: i64) -> (r: i64)
    requires
        v > i64::MIN,
    ensures
        r == abs(v as int),
{
    if v < 0 {
        -v
    } else {
        v
    }
}

/// Turns the ball back from the walls.
pub fn bounce_off_walls(ball: &mut Ball)
    requires
        old(ball).position.bounded(POSITION_LIMIT as int),
        old(ball).velocity.bounded(BALL_SPEED_MAX as int),
    ensures
        *final(ball) == wall_bounced(*old(ball)),
        final(ball).velocity.bounded(BALL_SPEED_MAX as int),
        final(ball).position.bounded(POSITION_LIMIT as int),
        abs(final(ball).position.x as int) <= HALF_FIELD_WIDTH - HALF_EFFECTIVE_BALL,
{
    let h = HALF_EFFECTIVE_BALL;
    let mut x = ball.position.x;
    let y = ball.position.y;
    let mut v = ball.velocity;
    if x + h > HALF_FIELD_WIDTH {
        v.x = -abs_i64(v.x);
        x = HALF_FIELD_WIDTH - h;
    } else if x - h < -HALF_FIELD_WIDTH {
        v.x = abs_i64(v.x);
        x = -HALF_FIELD_WIDTH + h;
    }
    if y - h < -HALF_FIELD_HEIGHT {
        v.y = abs_i64(v.y);
        v = v.scale(9, 10);
    }
    if y + h > HALF_FIELD_HEIGHT {
        v.y = -abs_i64(v.y);
        v = v.scale(9, 10);
    }
    ball.position = Vector { x, y };
    ball.velocity = v;
}

/// Horizontal velocity given by a paddle hit at offset `rel_x` from the paddle's center.
pub fn aim_velocity_x(rel_x: i64) -> (r: i64)
    ensures
        r == aimed_x(rel_x as int),
{
    if rel_x > AIM_DEAD_ZONE {
        AIM_SPEED
    } else if rel_x < -AIM_DEAD_ZONE {
        -AIM_SPEED
    } else {
        0
    }
}

/// Velocity after a hit on a face of the paddle.
fn paddle_face_velocity(vy: i64, rel_x: i64, rel_y: i64) -> (r: Vector)
    requires
        abs(vy as int) <= 2 * BALL_SPEED_MAX,
    ensures
        r == face_response(vy as int, rel_x as int, rel_y as int),
        abs(r.y as int) <= abs(vy as int) * 13 / 10,
        abs(r.x as int) <= AIM_SPEED * 13 / 10,
{
    let v = Vector { x: aim_velocity_x(rel_x), y: vy };
    if rel_y < 0 {
        v.scale(13, 10)
    } else {
        v.scale(23, 20)
    }
}

/// Turns the ball back from the paddle and aims it by where it struck.
pub fn bounce_off_paddle(ball: &mut Ball, paddle: &Paddle)
    requires
        old(ball).position.bounded(POSITION_LIMIT as int),
        old(ball).velocity.bounded(BALL_SPEED_MAX as int),
        paddle.wf(),
    ensures
        *final(ball) == (Ball { velocity: paddle_response(*old(ball), *paddle), ..*old(ball) }),
        final(ball).velocity.bounded(2 * BALL_SPEED_MAX),
{
    let h = HALF_EFFECTIVE_BALL;
    let pos = ball.position;
    let mut v = ball.velocity;
    let rel_x = pos.x - paddle.x;
    let rel_y = pos.y - paddle.y;
    let spans_x = pos.x + h > paddle.x - HALF_PADDLE_WIDTH && pos.x - h < paddle.x
        + HALF_PADDLE_WIDTH;
    let spans_y = pos.y + h > paddle.y - HALF_PADDLE_HEIGHT && pos.y - h < paddle.y
        + HALF_PADDLE_HEIGHT;
    if v.y < 0 && pos.y - h <= paddle.y + HALF_PADDLE_HEIGHT && pos.y - h >= paddle.y
        - HALF_PADDLE_HEIGHT && spans_x {
        v = paddle_face_velocity(abs_i64(v.y), rel_x, rel_y);
    }
    if v.y > 0 && pos.y + h >= paddle.y - HALF_PADDLE_HEIGHT && pos.y + h <= paddle.y
        + HALF_PADDLE_HEIGHT && spans_x {
        v = paddle_face_velocity(-abs_i64(v.y), rel_x, rel_y);
    }
    if pos.x + h >= paddle.x - HALF_PADDLE_WIDTH && pos.x - h <= paddle.x - HALF_PADDLE_WIDTH
        && spans_y {
        v.x = -abs_i64(v.x);
    }
    if pos.x - h <= paddle.x + HALF_PADDLE_WIDTH && pos.x + h >= paddle.x + HALF_PADDLE_WIDTH
        && spans_y {
        v.x = abs_i64(v.x);
    }
    ball.velocity = v;
}

/// Finds the first block that the ball at `pos` overlaps.
pub fn find_block_hit(pos: Vector, blocks: &Vec<Block>) -> (r: Option<usize>)
    requires
        pos.bounded(POSITION_LIMIT as int),
        blocks_wf(blocks@),
    ensures
        r matches Some(i) ==> i < blocks@.len() && first_overlap_from(pos, blocks@, 0) == Some(
            i as int,
        ),
        r is None ==> first_overlap_from(pos, blocks@, 0) is None,
{
    let mut i: usize = 0;
    while i < blocks.len()
        invariant
            0 <= i <= blocks@.len(),
            first_overlap_from(pos, blocks@, 0) == first_overlap_from(pos, blocks@, i as int),
            pos.bounded(POSITION_LIMIT as int),
            blocks_wf(blocks@),
        decreases blocks@.len() - i,
    {
        let blk = blocks[i];
        if pos.x + HALF_BALL > blk.x - HALF_BLOCK_WIDTH && pos.x - HALF_BALL < blk.x
            + HALF_BLOCK_WIDTH && pos.y + HALF_BALL > blk.y - HALF_BLOCK_HEIGHT && pos.y
            - HALF_BALL < blk.y + HALF_BLOCK_HEIGHT {
            return Some(i);
        }
        i = i + 1;
    }
    None
}

/// An index handed out by an exec function, as a mathematical integer.
pub open spec fn as_index(r: Option<usize>) -> Option<int> {
    match r {
        Some(i) => Some(i as int),
        None => None,
    }
}

/// Destroys the first block that the ball overlaps, once its cooldown has run out:
/// the block leaves the set, the score goes up by one, the vertical velocity is
/// negated, the ball speeds up by a tenth and the cooldown starts. Returns the index
/// of the destroyed block.
pub fn hit_blocks(ball: &mut Ball, blocks: &mut Vec<Block>, score: &mut u32) -> (destroyed:
    Option<usize>)
    requires
        old(ball).position.bounded(POSITION_LIMIT as int),
        old(ball).velocity.bounded(2 * BALL_SPEED_MAX),
        blocks_wf(old(blocks)@),
        *old(score) < u32::MAX,
    ensures
        as_index(destroyed) == block_hit(*old(ball), old(blocks)@),
        destroyed matches Some(i) ==> i < old(blocks)@.len(),
        match block_hit(*old(ball), old(blocks)@) {
            Some(i) => {
                &&& final(blocks)@ == old(blocks)@.remove(i)
                &&& *final(score) == *old(score) + 1
                &&& *final(ball) == (Ball {
                    velocity: block_response(old(ball).velocity),
                    cooldown: BLOCK_COOLDOWN,
                    ..*old(ball)
                })
            },
            None => {
                &&& final(blocks)@ == old(blocks)@
                &&& *final(score) == *old(score)
                &&& *final(ball) == *old(ball)
            },
        },
        blocks_wf(final(blocks)@),
        final(ball).velocity.bounded(3 * BALL_SPEED_MAX),
{
    if ball.cooldown != 0 {
        return None;
    }
    let found = find_block_hit(ball.position, blocks);
    match found {
        Some(i) => {
            blocks.remove(i);
            assert(blocks_wf(blocks@)) by {
                assert forall|j: int| 0 <= j < blocks@.len() implies (#[trigger] blocks@[j]).wf() by {
                    if j < i {
                        assert(blocks@[j] == old(blocks)@[j]);
                    } else {
                        assert(blocks@[j] == old(blocks)@[j + 1]);
                    }
                }
            }
            *score = *score + 1;
            let v = Vector { x: ball.velocity.x, y: -ball.velocity.y };
            ball.velocity = v.scale(11, 10);
            ball.cooldown = BLOCK_COOLDOWN;
            Some(i)
        },
        None => None,
    }
}

/// Resolves one frame of collisions: the walls, the paddle, then the blocks; runs the
/// cooldown down by `dt` microseconds and governs the speed. Returns the index that the
/// destroyed block had, if one was.
pub fn resolve_collisions(
    ball: &mut Ball,
    paddle: &Paddle,
    blocks: &mut Vec<Block>,
    score: &mut u32,
    dt: u32,
) -> (destroyed: Option<usize>)
    requires
        old(ball).position.bounded(POSITION_LIMIT as int),
        old(ball).velocity.bounded(BALL_SPEED_MAX as int),
        old(ball).cooldown <= BLOCK_COOLDOWN,
        paddle.wf(),
        blocks_wf(old(blocks)@),
        *old(score) < u32::MAX,
    ensures
        *final(ball) == resolved(*old(ball), *paddle, old(blocks)@, dt),
        final(blocks)@ == remaining_blocks(*old(ball), *paddle, old(blocks)@),
        as_index(destroyed) == block_hit(collided(*old(ball), *paddle), old(blocks)@),
        destroyed matches Some(i) ==> i < old(blocks)@.len(),
        final(blocks)@.len() == old(blocks)@.len() - (if destroyed is Some { 1int } else { 0int }),
        *final(score) == *old(score) + (if destroyed is Some { 1int } else { 0int }),
        in_speed_band(final(ball).velocity),
        blocks_wf(final(blocks)@),
        abs(final(ball).position.x as int) <= HALF_FIELD_WIDTH - HALF_EFFECTIVE_BALL,
        final(ball).position.bounded(POSITION_LIMIT as int),
        final(ball).cooldown <= BLOCK_COOLDOWN,
        keeps_sign(collided(*old(ball), *paddle).velocity.x as int, final(ball).velocity.x as int),
        destroyed is None ==> keeps_sign(
            collided(*old(ball), *paddle).velocity.y as int,
            final(ball).velocity.y as int,
        ),
        destroyed is Some ==> keeps_sign(
            -collided(*old(ball), *paddle).velocity.y,
            final(ball).velocity.y as int,
        ),
        old(ball).cooldown > 0 ==> destroyed is None,
        old(ball).velocity.x < 0 && old(ball).position.x - HALF_EFFECTIVE_BALL < -HALF_FIELD_WIDTH
            && clear_of_paddle_y(old(ball).position, *paddle) ==> final(ball).velocity.x > 0
            && final(ball).position.x == -HALF_FIELD_WIDTH + HALF_EFFECTIVE_BALL,
{
    let ghost b0 = *ball;
    proof {
        if b0.velocity.x < 0 && b0.position.x - HALF_EFFECTIVE_BALL < -HALF_FIELD_WIDTH {
            lemma_left_wall_turns_ball(b0);
        }
    }
    bounce_off_walls(ball);
    bounce_off_paddle(ball, paddle);
    let ghost bc = *ball;
    let destroyed = hit_blocks(ball, blocks, score);
    proof {
        if destroyed is Some {
            lemma_scaled_keeps_signs(Vector { x: bc.velocity.x, y: (-bc.velocity.y) as i64 }, 11, 10);
        }
        lemma_governed_in_band(ball.velocity);
    }
    ball.cooldown = if ball.cooldown > dt {
        ball.cooldown - dt
    } else {
        0
    };
    ball.velocity = govern(ball.velocity);
    destroyed
}

/// A ball moving left whose effective edge is past the left wall leaves the walls
/// moving right, with that edge put exactly on the wall.
pub proof fn lemma_left_wall_turns_ball(b: Ball)
    requires
        b.velocity.bounded(BALL_SPEED_MAX as int),
        b.velocity.x < 0,
        b.position.x - HALF_EFFECTIVE_BALL < -HALF_FIELD_WIDTH,
    ensures
        wall_bounced(b).velocity.x > 0,
        wall_bounced(b).position.x == -HALF_FIELD_WIDTH + HALF_EFFECTIVE_BALL,
{
    let v = b.velocity;
    let v1 = Vector { x: abs(v.x as int) as i64, y: v.y };
    lemma_scaled_keeps_signs(Vector { x: v1.x, y: abs(v1.y as int) as i64 }, 9, 10);
    let v2 = if b.position.y - HALF_EFFECTIVE_BALL < -HALF_FIELD_HEIGHT {
        Vector { x: v1.x, y: abs(v1.y as int) as i64 }.scaled(9, 10)
    } else {
        v1
    };
    lemma_scaled_keeps_signs(Vector { x: v2.x, y: (-abs(v2.y as int)) as i64 }, 9, 10);
}

/// A ball clear of the paddle, above or below it, is not turned by it.
pub proof fn lemma_clear_of_paddle(b: Ball, p: Paddle)
    requires
        clear_of_paddle_y(b.position, p),
    ensures
        paddle_response(b, p) == b.velocity,
{
}

/// While the cooldown runs, the blocks are untouched: none is destroyed, and the
/// resolver hands on the velocity that the walls and the paddle left, governed, with
/// the sign of each nonzero component kept; in particular the vertical velocity is
/// not flipped.
pub proof fn lemma_cooldown_protects_blocks(b: Ball, p: Paddle, blocks: Seq<Block>, dt: u32)
    requires
        b.cooldown > 0,
    ensures
        block_hit(collided(b, p), blocks) is None,
        remaining_blocks(b, p, blocks) == blocks,
        resolved(b, p, blocks, dt).velocity == governed(collided(b, p).velocity),
        keeps_sign(collided(b, p).velocity.y as int, resolved(b, p, blocks, dt).velocity.y as int),
        keeps_sign(collided(b, p).velocity.x as int, resolved(b, p, blocks, dt).velocity.x as int),
{
    lemma_governed_in_band(collided(b, p).velocity);
}

/// Destroying a block flips the sign of the vertical velocity and keeps the sign of
/// the horizontal one, through the speed-up and the governor.
pub proof fn lemma_block_hit_flips(b: Ball, p: Paddle, blocks: Seq<Block>, dt: u32)
    requires
        collided(b, p).velocity.bounded(2 * BALL_SPEED_MAX),
        block_hit(collided(b, p), blocks) is Some,
    ensures
        keeps_sign(-collided(b, p).velocity.y, resolved(b, p, blocks, dt).velocity.y as int),
        keeps_sign(collided(b, p).velocity.x as int, resolved(b, p, blocks, dt).velocity.x as int),
{
    let v = collided(b, p).velocity;
    lemma_scaled_keeps_signs(Vector { x: v.x, y: (-v.y) as i64 }, 11, 10);
    lemma_governed_in_band(block_response(v));
}

/// A falling ball that strikes the top face of the paddle right of its center leaves
/// rising and moving right: its horizontal velocity is set to 0.8 of the start speed,
/// its vertical velocity turned upward, and the whole sped up by 1.15.
pub proof fn lemma_top_face_right_of_center(b: Ball, p: Paddle)
    requires
        b.velocity.bounded(BALL_SPEED_MAX as int),
        hits_top_face(b.position, b.velocity, p),
        b.position.x - p.x > AIM_DEAD_ZONE,
    ensures
        paddle_response(b, p) == (Vector { x: AIM_SPEED, y: abs(b.velocity.y as int) as i64 }).scaled(
            23,
            20,
        ),
        paddle_response(b, p).x > 0,
        paddle_response(b, p).y > 0,
{
    lemma_scaled_keeps_signs(Vector { x: AIM_SPEED, y: abs(b.velocity.y as int) as i64 }, 23, 20);
}

/// The same hit through the whole resolver, away from the walls and with no block
/// destroyed: the ball leaves with that velocity, governed, still rising and moving right.
pub proof fn lemma_top_face_right_of_center_resolved(
    b: Ball,
    p: Paddle,
    blocks: Seq<Block>,
    dt: u32,
)
    requires
        b.velocity.bounded(BALL_SPEED_MAX as int),
        hits_top_face(b.position, b.velocity, p),
        b.position.x - p.x > AIM_DEAD_ZONE,
        -HALF_FIELD_WIDTH <= b.position.x - HALF_EFFECTIVE_BALL,
        b.position.x + HALF_EFFECTIVE_BALL <= HALF_FIELD_WIDTH,
        -HALF_FIELD_HEIGHT <= b.position.y - HALF_EFFECTIVE_BALL,
        b.position.y + HALF_EFFECTIVE_BALL <= HALF_FIELD_HEIGHT,
        block_hit(collided(b, p), blocks) is None,
    ensures
        resolved(b, p, blocks, dt).velocity == governed(
            (Vector { x: AIM_SPEED, y: abs(b.velocity.y as int) as i64 }).scaled(23, 20),
        ),
        resolved(b, p, blocks, dt).velocity.x > 0,
        resolved(b, p, blocks, dt).velocity.y > 0,
{
    assert(wall_bounced(b) == b);
    lemma_top_face_right_of_center(b, p);
    lemma_governed_in_band(paddle_response(b, p));
}

} // verus!
