//! The speed governor: keeps the ball's speed within its legal band.
//!
//! A velocity whose length lies outside `[BALL_START_SPEED, BALL_SPEED_MAX]` is
//! rescaled along its own direction, and every nonzero component keeps its sign.
//! The rounding is chosen so that the rescaled length is guaranteed to land inside
//! the band: a fast ball is scaled by `BALL_SPEED_MAX / ceil(length)`, rounding
//! toward zero but never to zero; a slow one by `BALL_START_SPEED / length`, with
//! the length taken a million times finer and rounding away from zero, which lands
//! within two sub-units per second of the start speed.
use vstd::prelude::*;

use crate::config::{BALL_SPEED_MAX, BALL_START_SPEED, VELOCITY_LIMIT};
use crate::vector::{abs, div_away_from_zero, div_keeping_sign, keeps_sign, kept_magnitude, Vector};

verus! {

/// Largest squared length of a vector that the governor accepts.
pub const MAX_NORM_SQ: u64 = 2_000_000_000_000_000_000;

/// Factor by which the length of a slow velocity is refined before it is rescaled.
pub const STRETCH_SCALE: i64 = 1_000_000;

/// The square of `STRETCH_SCALE`.
pub const STRETCH_SCALE_SQ: u128 = 1_000_000_000_000;

/// `BALL_START_SPEED * STRETCH_SCALE`: the start speed at the refined scale.
pub const STRETCH_TARGET: i64 = 200_000_000_000;

/// `r` is the integer square root of `n`, rounded down.
pub open spec fn is_floor_sqrt(n: int, r: int) -> bool {
    0 <= r && r * r <= n && n < (r + 1) * (r + 1)
}

/// The integer square root of `n`, rounded down.
pub open spec fn floor_sqrt(n: int) -> int {
    choose|r: int| is_floor_sqrt(n, r)
}

/// The integer square root of `n`, rounded up.
pub open spec fn ceil_sqrt(n: int) -> int {
    let f = floor_sqrt(n);
    if f * f == n {
        f
    } else {
        f + 1
    }
}

/// The ball's speed lies in the legal band.
pub open spec fn in_speed_band(v: Vector) -> bool {
    BALL_START_SPEED * BALL_START_SPEED <= v.norm_sq() <= BALL_SPEED_MAX * BALL_SPEED_MAX
}

/// Velocity of a freshly launched ball.
pub open spec fn launch_velocity() -> Vector {
    Vector { x: BALL_START_SPEED, y: BALL_START_SPEED }
}

/// Velocity given to a ball that has no direction: straight up at the start speed.
pub open spec fn restart_velocity() -> Vector {
    Vector { x: 0, y: BALL_START_SPEED }
}

/// A slow, nonzero velocity stretched to the start speed along its own direction:
/// each component times `BALL_START_SPEED / length`, with the length taken
/// `STRETCH_SCALE` times finer, rounded away from zero.
pub open spec fn stretched(v: Vector) -> Vector {
    let l = floor_sqrt(v.norm_sq() * STRETCH_SCALE_SQ);
    Vector {
        x: div_away_from_zero(v.x * STRETCH_TARGET, l) as i64,
        y: div_away_from_zero(v.y * STRETCH_TARGET, l) as i64,
    }
}

/// A fast velocity shrunk to the maximum speed along its own direction: each
/// component times `BALL_SPEED_MAX / ceil(length)`, rounded toward zero but never
/// to zero.
pub open spec fn shrunk(v: Vector) -> Vector {
    let l = ceil_sqrt(v.norm_sq());
    Vector {
        x: div_keeping_sign(v.x * BALL_SPEED_MAX, l) as i64,
        y: div_keeping_sign(v.y * BALL_SPEED_MAX, l) as i64,
    }
}

/// A velocity brought to the start speed; one with no direction is sent straight up.
pub open spec fn restarted(v: Vector) -> Vector {
    if v.norm_sq() == 0 {
        restart_velocity()
    } else {
        stretched(v)
    }
}

/// What the governor makes of a velocity.
pub open spec fn governed(v: Vector) -> Vector {
    let m = v.norm_sq();
    if m < BALL_START_SPEED * BALL_START_SPEED {
        restarted(v)
    } else if m > BALL_SPEED_MAX * BALL_SPEED_MAX {
        shrunk(v)
    } else {
        v
    }
}

/// The squared ends of the speed band.
pub proof fn lemma_band_constants()
    ensures
        BALL_START_SPEED * BALL_START_SPEED == 40_000_000_000,
        BALL_SPEED_MAX * BALL_SPEED_MAX == 1_000_000_000_000,
{
    let s: int = BALL_START_SPEED as int;
    let t: int = BALL_SPEED_MAX as int;
    assert(s * s == 40_000_000_000) by (nonlinear_arith)
        requires
            s == 200_000,
    ;
    assert(t * t == 1_000_000_000_000) by (nonlinear_arith)
        requires
            t == 1_000_000,
    ;
}

proof fn lemma_floor_sqrt_unique(n: int, r1: int, r2: int)
    requires
        is_floor_sqrt(n, r1),
        is_floor_sqrt(n, r2),
    ensures
        r1 == r2,
{
    if r1 < r2 {
        assert((r1 + 1) * (r1 + 1) <= r2 * r2) by (nonlinear_arith)
            requires
                0 <= r1 + 1 <= r2,
        ;
    } else if r2 < r1 {
        assert((r2 + 1) * (r2 + 1) <= r1 * r1) by (nonlinear_arith)
            requires
                0 <= r2 + 1 <= r1,
        ;
    }
}

/// Any witness of the rounded-down square root is the one that `floor_sqrt` names.
pub proof fn lemma_floor_sqrt(n: int, r: int)
    requires
        is_floor_sqrt(n, r),
    ensures
        floor_sqrt(n) == r,
{
    assert(is_floor_sqrt(n, floor_sqrt(n)));
    lemma_floor_sqrt_unique(n, r, floor_sqrt(n));
}

/// Computes the integer square root of `n`, rounded down.
pub fn floor_sqrt_u128(n: u128) -> (r: u128)
    ensures
        r == floor_sqrt(n as int),
        is_floor_sqrt(n as int, r as int),
{
    let mut lo: u128 = 0;
    let mut hi: u128 = 0x1_0000_0000_0000_0000;
    assert(n < hi * hi);
    while lo + 1 < hi
        invariant
            lo < hi <= 0x1_0000_0000_0000_0000,
            lo * lo <= n,
            n < hi * hi,
        decreases hi - lo,
    {
        let mid: u128 = lo + (hi - lo) / 2;
        assert(mid * mid < 0x1_0000_0000_0000_0000 * 0x1_0000_0000_0000_0000) by (nonlinear_arith)
            requires
                mid < 0x1_0000_0000_0000_0000,
        ;
        if mid * mid <= n {
            lo = mid;
        } else {
            hi = mid;
        }
    }
    proof {
        lemma_floor_sqrt(n as int, lo as int);
    }
    lo
}

/// Bounds of a rounded-down quotient: `q * d <= a < (q + 1) * d`.
proof fn lemma_div_bounds(a: int, d: int)
    requires
        0 <= a,
        0 < d,
    ensures
        (a / d) * d <= a,
        a < (a / d + 1) * d,
        0 <= a / d,
{
    vstd::arithmetic::div_mod::lemma_fundamental_div_mod(a, d);
    assert(d * (a / d) == (a / d) * d) by (nonlinear_arith);
    assert((a / d + 1) * d == (a / d) * d + d) by (nonlinear_arith);
    vstd::arithmetic::div_mod::lemma_div_pos_is_pos(a, d);
}

/// For non-negative numbers, comparing squares compares the numbers.
proof fn lemma_square_le(p: int, q: int)
    requires
        0 <= p <= q,
    ensures
        p * p <= q * q,
{
    assert(p * p <= q * q) by (nonlinear_arith)
        requires
            0 <= p <= q,
    ;
}

proof fn lemma_square_of_product(p: int, q: int)
    ensures
        (p * q) * (p * q) == (p * p) * (q * q),
{
    assert((p * q) * (p * q) == (p * p) * (q * q)) by (nonlinear_arith);
}

proof fn lemma_mul_le(x: int, y: int, k: int)
    requires
        x <= y,
        0 <= k,
    ensures
        x * k <= y * k,
{
    assert(x * k <= y * k) by (nonlinear_arith)
        requires
            x <= y,
            0 <= k,
    ;
}

proof fn lemma_cancel_le(x: int, y: int, k: int)
    requires
        x * k <= y * k,
        0 < k,
    ensures
        x <= y,
{
    if x > y {
        assert(x * k > y * k) by (nonlinear_arith)
            requires
                x > y,
                0 < k,
        ;
    }
}

proof fn lemma_cancel_lt(x: int, y: int, k: int)
    requires
        x * k < y * k,
        0 < k,
    ensures
        x < y,
{
    if x >= y {
        lemma_mul_le(y, x, k);
    }
}

/// Shrinking by the rounded-up length lands inside the band.
proof fn lemma_shrink_in_band(a: int, b: int, l: int)
    requires
        0 <= a,
        0 <= b,
        a * a + b * b > BALL_SPEED_MAX * BALL_SPEED_MAX,
        1 <= l,
        (l - 1) * (l - 1) < a * a + b * b <= l * l,
    ensures
        ({
            let a2 = (a * BALL_SPEED_MAX) / l;
            let b2 = (b * BALL_SPEED_MAX) / l;
            &&& BALL_START_SPEED * BALL_START_SPEED <= a2 * a2 + b2 * b2
            &&& a2 * a2 + b2 * b2 <= BALL_SPEED_MAX * BALL_SPEED_MAX
            &&& 0 <= a2 <= BALL_SPEED_MAX
            &&& 0 <= b2 <= BALL_SPEED_MAX
        }),
{
    let s: int = BALL_SPEED_MAX as int;
    let a2 = (a * s) / l;
    let b2 = (b * s) / l;
    let m = a * a + b * b;
    lemma_mul_le(0, a, s);
    lemma_mul_le(0, b, s);
    lemma_div_bounds(a * s, l);
    lemma_div_bounds(b * s, l);
    // upper bound
    lemma_mul_le(0, a2, l);
    lemma_mul_le(0, b2, l);
    lemma_square_le(a2 * l, a * s);
    lemma_square_le(b2 * l, b * s);
    lemma_square_of_product(a2, l);
    lemma_square_of_product(b2, l);
    lemma_square_of_product(a, s);
    lemma_square_of_product(b, s);
    assert((a2 * a2 + b2 * b2) * (l * l) == (a2 * a2) * (l * l) + (b2 * b2) * (l * l))
        by (nonlinear_arith);
    assert((a * a) * (s * s) + (b * b) * (s * s) == m * (s * s)) by (nonlinear_arith)
        requires
            m == a * a + b * b,
    ;
    lemma_mul_le(m, l * l, s * s);
    assert((l * l) * (s * s) == (s * s) * (l * l)) by (nonlinear_arith);
    lemma_cancel_le(a2 * a2 + b2 * b2, s * s, l * l);
    // lower bound: the larger component alone keeps more than the start speed
    if l <= s {
        lemma_square_le(l, s);
    }
    let big = if a >= b { a } else { b };
    let big2 = if a >= b { a2 } else { b2 };
    lemma_square_le(a, big);
    lemma_square_le(b, big);
    let t: int = BALL_START_SPEED as int + 1;
    // 2 * big^2 * s^2 > (l - 1)^2 * s^2 >= (2 * t * l)^2
    assert((l - 1) * s >= 2 * t * l) by (nonlinear_arith)
        requires
            l > s,
            s == 1_000_000,
            t == 200_001,
    ;
    lemma_mul_le(0, t, l);
    lemma_square_le(2 * t * l, (l - 1) * s);
    lemma_square_of_product(l - 1, s);
    lemma_square_of_product(big, s);
    assert(s * s > 0);
    assert((2 * (big * big)) * (s * s) > ((l - 1) * (l - 1)) * (s * s)) by (nonlinear_arith)
        requires
            2 * (big * big) > (l - 1) * (l - 1),
            s * s > 0,
    ;
    assert((2 * t * l) * (2 * t * l) == 4 * ((t * l) * (t * l))) by (nonlinear_arith);
    assert((2 * (big * big)) * (s * s) == 2 * ((big * s) * (big * s))) by (nonlinear_arith);
    if big * s < t * l {
        lemma_mul_le(0, big, s);
        lemma_square_le(big * s, t * l);
    }
    // big2 * l <= big * s < (big2 + 1) * l and t * l <= big * s give big2 >= t
    assert(big2 * l <= big * s < (big2 + 1) * l);
    lemma_cancel_lt(t, big2 + 1, l);
    lemma_square_le(BALL_START_SPEED as int, big2);
    lemma_mul_le(0, a2, a2);
    lemma_mul_le(0, b2, b2);
    if a2 > s {
        lemma_square_le(s + 1, a2);
    }
    if b2 > s {
        lemma_square_le(s + 1, b2);
    }
}

/// Shrinking by the rounded-up length, rounding toward zero but never to zero,
/// lands inside the band.
proof fn lemma_shrink_kept_in_band(a: int, b: int, l: int)
    requires
        0 <= a,
        0 <= b,
        a * a + b * b > BALL_SPEED_MAX * BALL_SPEED_MAX,
        1 <= l,
        (l - 1) * (l - 1) < a * a + b * b <= l * l,
    ensures
        ({
            let a2 = kept_magnitude(a * BALL_SPEED_MAX, l);
            let b2 = kept_magnitude(b * BALL_SPEED_MAX, l);
            &&& BALL_START_SPEED * BALL_START_SPEED <= a2 * a2 + b2 * b2
            &&& a2 * a2 + b2 * b2 <= BALL_SPEED_MAX * BALL_SPEED_MAX
            &&& 0 <= a2 <= BALL_SPEED_MAX
            &&& 0 <= b2 <= BALL_SPEED_MAX
            &&& (a > 0 ==> a2 > 0)
            &&& (b > 0 ==> b2 > 0)
        }),
{
    let s: int = BALL_SPEED_MAX as int;
    lemma_shrink_in_band(a, b, l);
    let a1 = (a * s) / l;
    let b1 = (b * s) / l;
    let a2 = kept_magnitude(a * s, l);
    let b2 = kept_magnitude(b * s, l);
    lemma_mul_le(0, a, s);
    lemma_mul_le(0, b, s);
    lemma_div_bounds(a * s, l);
    lemma_div_bounds(b * s, l);
    assert(a > 0 ==> a * s > 0) by (nonlinear_arith)
        requires
            s > 0,
    ;
    assert(b > 0 ==> b * s > 0) by (nonlinear_arith)
        requires
            s > 0,
    ;
    lemma_mul_le(0, a, a);
    lemma_mul_le(0, b, b);
    // a nonzero component leaves the other strictly below the maximum
    if a > 0 {
        if b >= l {
            lemma_square_le(l, b);
            assert(a * a >= 1) by (nonlinear_arith)
                requires
                    a >= 1,
            ;
        }
        lemma_mul_le(b, l - 1, s);
        assert(b1 * l < l * s) by (nonlinear_arith)
            requires
                b1 * l <= b * s,
                b * s <= (l - 1) * s,
                s > 0,
        ;
        assert(l * s == s * l) by (nonlinear_arith);
        lemma_cancel_lt(b1, s, l);
    }
    if b > 0 {
        if a >= l {
            lemma_square_le(l, a);
            assert(b * b >= 1) by (nonlinear_arith)
                requires
                    b >= 1,
            ;
        }
        lemma_mul_le(a, l - 1, s);
        assert(a1 * l < l * s) by (nonlinear_arith)
            requires
                a1 * l <= a * s,
                a * s <= (l - 1) * s,
                s > 0,
        ;
        assert(l * s == s * l) by (nonlinear_arith);
        lemma_cancel_lt(a1, s, l);
    }
    lemma_square_le(a1, a2);
    lemma_square_le(b1, b2);
    if a2 != a1 || b2 != b1 {
        // a component raised from zero to one: the other stays at most s - 1
        if a2 != a1 && b2 != b1 {
            assert(a2 * a2 + b2 * b2 == 2);
        } else if a2 != a1 {
            lemma_square_le(b2, s - 1);
            assert((s - 1) * (s - 1) + 1 <= s * s) by (nonlinear_arith)
                requires
                    s >= 1,
            ;
        } else {
            lemma_square_le(a2, s - 1);
            assert((s - 1) * (s - 1) + 1 <= s * s) by (nonlinear_arith)
                requires
                    s >= 1,
            ;
        }
    }
}

/// For non-negative numbers, comparing squares compares the numbers.
proof fn lemma_le_from_squares(p: int, q: int)
    requires
        0 <= p,
        0 <= q,
        p * p <= q * q,
    ensures
        p <= q,
{
    assert(p <= q) by (nonlinear_arith)
        requires
            0 <= p,
            0 <= q,
            p * p <= q * q,
    ;
}

/// Stretching with a length `l` taken at least `2 * BALL_START_SPEED + 1` fine lands
/// inside the band and within two sub-units of the start speed.
proof fn lemma_stretch_close(a: int, b: int, l: int)
    requires
        0 <= a,
        0 <= b,
        400_001 <= l,
        l * l <= a * a + b * b < (l + 1) * (l + 1),
    ensures
        ({
            let a2 = (a * BALL_START_SPEED + l - 1) / l;
            let b2 = (b * BALL_START_SPEED + l - 1) / l;
            &&& BALL_START_SPEED * BALL_START_SPEED <= a2 * a2 + b2 * b2
            &&& a2 * a2 + b2 * b2 <= (BALL_START_SPEED + 2) * (BALL_START_SPEED + 2)
            &&& 0 <= a2 <= BALL_START_SPEED + 2
            &&& 0 <= b2 <= BALL_START_SPEED + 2
            &&& (a > 0 ==> a2 > 0)
            &&& (b > 0 ==> b2 > 0)
        }),
{
    let s: int = BALL_START_SPEED as int;
    let x = a * s;
    let y = b * s;
    let a2 = (x + l - 1) / l;
    let b2 = (y + l - 1) / l;
    let m = a * a + b * b;
    lemma_mul_le(0, a, s);
    lemma_mul_le(0, b, s);
    lemma_div_bounds(x + l - 1, l);
    lemma_div_bounds(y + l - 1, l);
    assert(a2 * l >= x) by (nonlinear_arith)
        requires
            x + l - 1 < (a2 + 1) * l,
    ;
    assert(b2 * l >= y) by (nonlinear_arith)
        requires
            y + l - 1 < (b2 + 1) * l,
    ;
    // lower bound: each component is at least its exact share
    lemma_square_le(x, a2 * l);
    lemma_square_le(y, b2 * l);
    lemma_square_of_product(a2, l);
    lemma_square_of_product(b2, l);
    lemma_square_of_product(a, s);
    lemma_square_of_product(b, s);
    assert((a2 * a2 + b2 * b2) * (l * l) == (a2 * a2) * (l * l) + (b2 * b2) * (l * l))
        by (nonlinear_arith);
    assert((a * a) * (s * s) + (b * b) * (s * s) == m * (s * s)) by (nonlinear_arith)
        requires
            m == a * a + b * b,
    ;
    lemma_mul_le(l * l, m, s * s);
    assert((l * l) * (s * s) == (s * s) * (l * l)) by (nonlinear_arith);
    lemma_cancel_le(s * s, a2 * a2 + b2 * b2, l * l);
    // upper bound: each component exceeds its exact share by less than one
    assert(a2 * l <= x + l && b2 * l <= y + l);
    lemma_square_le(a2 * l, x + l);
    lemma_square_le(b2 * l, y + l);
    let p = (l + 1) * (l + 1);
    lemma_mul_le(m, p, s * s);
    assert(x * x + y * y <= (s * s) * p) by (nonlinear_arith)
        requires
            x * x + y * y == m * (s * s),
            m * (s * s) <= p * (s * s),
    ;
    assert(4 * ((x + y) * (x + y)) <= 8 * (x * x + y * y)) by (nonlinear_arith);
    assert(8 * p <= 9 * (l * l)) by (nonlinear_arith)
        requires
            p == (l + 1) * (l + 1),
            l >= 17,
    ;
    lemma_mul_le(8 * p, 9 * (l * l), s * s);
    assert((2 * (x + y)) * (2 * (x + y)) <= (3 * s * l) * (3 * s * l)) by (nonlinear_arith)
        requires
            4 * ((x + y) * (x + y)) <= 8 * (x * x + y * y),
            x * x + y * y <= (s * s) * p,
            (8 * p) * (s * s) <= (9 * (l * l)) * (s * s),
    ;
    lemma_mul_le(0, s, l);
    lemma_le_from_squares(2 * (x + y), 3 * s * l);
    assert((a2 * l) * (a2 * l) + (b2 * l) * (b2 * l) <= (x * x + y * y) + l * (2 * (x + y)) + 2
        * (l * l)) by (nonlinear_arith)
        requires
            (a2 * l) * (a2 * l) <= (x + l) * (x + l),
            (b2 * l) * (b2 * l) <= (y + l) * (y + l),
    ;
    lemma_mul_le(2 * (x + y), 3 * s * l, l);
    assert((s * s) * p + (3 * s * l) * l + 2 * (l * l) <= ((s + 2) * (s + 2)) * (l * l))
        by (nonlinear_arith)
        requires
            p == (l + 1) * (l + 1),
            s == 200_000,
            l >= 400_001,
    ;
    assert((a2 * a2 + b2 * b2) * (l * l) <= ((s + 2) * (s + 2)) * (l * l)) by (nonlinear_arith)
        requires
            (a2 * a2 + b2 * b2) * (l * l) == (a2 * l) * (a2 * l) + (b2 * l) * (b2 * l),
            (a2 * l) * (a2 * l) + (b2 * l) * (b2 * l) <= (x * x + y * y) + l * (2 * (x + y))
                + 2 * (l * l),
            x * x + y * y <= (s * s) * p,
            (2 * (x + y)) * l <= (3 * s * l) * l,
            (s * s) * p + (3 * s * l) * l + 2 * (l * l) <= ((s + 2) * (s + 2)) * (l * l),
    ;
    lemma_cancel_le(a2 * a2 + b2 * b2, (s + 2) * (s + 2), l * l);
    lemma_mul_le(0, a2, a2);
    lemma_mul_le(0, b2, b2);
    lemma_le_from_squares(a2, s + 2);
    lemma_le_from_squares(b2, s + 2);
    // signs: a nonzero component reaches at least one sub-unit
    if a > 0 {
        assert(x >= 1) by (nonlinear_arith)
            requires
                x == a * s,
                a >= 1,
                s >= 1,
        ;
        lemma_cancel_lt(1, a2 + 1, l);
    }
    if b > 0 {
        assert(y >= 1) by (nonlinear_arith)
            requires
                y == b * s,
                b >= 1,
                s >= 1,
        ;
        lemma_cancel_lt(1, b2 + 1, l);
    }
}

/// One component of a slow velocity stretched: `c * STRETCH_TARGET / l`, rounded
/// away from zero.
fn stretch_component(c: i64, l: u128) -> (r: i64)
    requires
        abs(c as int) <= VELOCITY_LIMIT,
        1 <= l <= 1_000_000_000_000,
        (abs(c as int) * STRETCH_TARGET + l - 1) / (l as int) <= BALL_START_SPEED + 2,
    ensures
        r == div_away_from_zero(c * STRETCH_TARGET, l as int),
{
    let a: u128 = if c < 0 { (-c) as u128 } else { c as u128 };
    assert(a * (STRETCH_TARGET as u128) <= VELOCITY_LIMIT * STRETCH_TARGET) by (nonlinear_arith)
        requires
            a <= VELOCITY_LIMIT,
    ;
    let p: u128 = a * (STRETCH_TARGET as u128);
    let q: u128 = (p + (l - 1)) / l;
    assert((-c) * STRETCH_TARGET == -(c * STRETCH_TARGET)) by (nonlinear_arith);
    assert(c < 0 ==> c * STRETCH_TARGET < 0) by (nonlinear_arith);
    assert(c >= 0 ==> c * STRETCH_TARGET >= 0) by (nonlinear_arith);
    if c < 0 {
        -(q as i64)
    } else {
        q as i64
    }
}

/// One component of a fast velocity shrunk: `c * BALL_SPEED_MAX / l`, rounded toward
/// zero but never to zero.
fn shrink_component(c: i64, l: u128) -> (r: i64)
    requires
        abs(c as int) <= VELOCITY_LIMIT,
        1 <= l,
    ensures
        r == div_keeping_sign(c * BALL_SPEED_MAX, l as int),
{
    let a: u128 = if c < 0 { (-c) as u128 } else { c as u128 };
    assert(a * (BALL_SPEED_MAX as u128) <= VELOCITY_LIMIT * BALL_SPEED_MAX) by (nonlinear_arith)
        requires
            a <= VELOCITY_LIMIT,
    ;
    let p: u128 = a * (BALL_SPEED_MAX as u128);
    let mut q: u128 = p / l;
    proof {
        lemma_div_bounds(p as int, l as int);
        lemma_mul_le(1, l as int, q as int);
    }
    assert(a > 0 ==> p > 0) by (nonlinear_arith)
        requires
            p == a * BALL_SPEED_MAX,
    ;
    if q == 0 && a > 0 {
        q = 1;
    }
    assert((-c) * BALL_SPEED_MAX == -(c * BALL_SPEED_MAX)) by (nonlinear_arith);
    assert(c < 0 ==> c * BALL_SPEED_MAX < 0) by (nonlinear_arith);
    assert(c >= 0 ==> c * BALL_SPEED_MAX >= 0) by (nonlinear_arith);
    if c < 0 {
        -(q as i64)
    } else {
        q as i64
    }
}

/// A component rescaled by `t / l` keeps its sign and takes the magnitude
/// `abs(c) * t / l`, rounded as asked.
proof fn lemma_rescaled_magnitude(c: int, t: int, l: int)
    requires
        1 <= t,
        1 <= l,
    ensures
        ({
            let up = (abs(c) * t + l - 1) / l;
            let kept = kept_magnitude(abs(c) * t, l);
            &&& div_away_from_zero(c * t, l) == (if c < 0 { -up } else { up })
            &&& div_keeping_sign(c * t, l) == (if c < 0 { -kept } else { kept })
            &&& div_away_from_zero(c * t, l) * div_away_from_zero(c * t, l) == up * up
            &&& div_keeping_sign(c * t, l) * div_keeping_sign(c * t, l) == kept * kept
        }),
{
    assert((-c) * t == -(c * t)) by (nonlinear_arith);
    assert(c < 0 ==> c * t < 0) by (nonlinear_arith)
        requires
            1 <= t,
    ;
    assert(c > 0 ==> c * t > 0) by (nonlinear_arith)
        requires
            1 <= t,
    ;
    assert(c == 0 ==> c * t == 0);
    let up = (abs(c) * t + l - 1) / l;
    let kept = kept_magnitude(abs(c) * t, l);
    assert((-up) * (-up) == up * up) by (nonlinear_arith);
    assert((-kept) * (-kept) == kept * kept) by (nonlinear_arith);
}

/// Every velocity in the speed band has both components within the maximum speed.
pub proof fn lemma_band_bounded(v: Vector)
    requires
        in_speed_band(v),
    ensures
        v.bounded(BALL_SPEED_MAX as int),
{
    let ax = abs(v.x as int);
    let ay = abs(v.y as int);
    assert(ax * ax == v.x * v.x) by (nonlinear_arith)
        requires
            ax == abs(v.x as int),
    ;
    assert(ay * ay == v.y * v.y) by (nonlinear_arith)
        requires
            ay == abs(v.y as int),
    ;
    assert(ax * ax >= 0 && ay * ay >= 0) by (nonlinear_arith);
    if ax > BALL_SPEED_MAX {
        lemma_square_le(BALL_SPEED_MAX + 1, ax);
    }
    if ay > BALL_SPEED_MAX {
        lemma_square_le(BALL_SPEED_MAX + 1, ay);
    }
}

/// Every non-negative integer has a rounded-down square root.
pub proof fn lemma_floor_sqrt_exists(n: int)
    requires
        0 <= n,
    ensures
        is_floor_sqrt(n, floor_sqrt(n)),
    decreases n,
{
    if n == 0 {
        assert(is_floor_sqrt(0, 0));
    } else {
        lemma_floor_sqrt_exists(n - 1);
        let r = floor_sqrt(n - 1);
        if (r + 1) * (r + 1) <= n {
            assert(n < (r + 2) * (r + 2)) by (nonlinear_arith)
                requires
                    n - 1 < (r + 1) * (r + 1),
                    0 <= r,
            ;
            assert(is_floor_sqrt(n, r + 1));
        } else {
            assert(is_floor_sqrt(n, r));
        }
    }
}

/// The squared length of a vector, from the magnitudes of its components.
proof fn lemma_norm_of_magnitudes(v: Vector)
    ensures
        abs(v.x as int) * abs(v.x as int) + abs(v.y as int) * abs(v.y as int) == v.norm_sq(),
        v.norm_sq() >= 0,
{
    assert(abs(v.x as int) * abs(v.x as int) == v.x * v.x) by (nonlinear_arith);
    assert(abs(v.y as int) * abs(v.y as int) == v.y * v.y) by (nonlinear_arith);
    assert(abs(v.x as int) * abs(v.x as int) >= 0) by (nonlinear_arith);
    assert(abs(v.y as int) * abs(v.y as int) >= 0) by (nonlinear_arith);
}

/// Facts on the refined scale of the stretch.
proof fn lemma_stretch_constants()
    ensures
        STRETCH_SCALE * STRETCH_SCALE == STRETCH_SCALE_SQ,
        STRETCH_TARGET == BALL_START_SPEED * STRETCH_SCALE,
{
    let k: int = STRETCH_SCALE as int;
    assert(k * k == 1_000_000_000_000) by (nonlinear_arith)
        requires
            k == 1_000_000,
    ;
    let s: int = BALL_START_SPEED as int;
    assert(s * k == 200_000_000_000) by (nonlinear_arith)
        requires
            k == 1_000_000,
            s == 200_000,
    ;
}

/// A slow, nonzero velocity stretched to the start speed lands in the band, within
/// two sub-units per second of the start speed, and keeps the sign of each component.
pub proof fn lemma_stretched_close(v: Vector)
    requires
        0 < v.norm_sq() < BALL_START_SPEED * BALL_START_SPEED,
    ensures
        in_speed_band(stretched(v)),
        stretched(v).norm_sq() <= (BALL_START_SPEED + 2) * (BALL_START_SPEED + 2),
        stretched(v).bounded(BALL_START_SPEED + 2),
        keeps_sign(v.x as int, stretched(v).x as int),
        keeps_sign(v.y as int, stretched(v).y as int),
        STRETCH_SCALE <= floor_sqrt(v.norm_sq() * STRETCH_SCALE_SQ) <= 1_000_000_000_000,
        ({
            let l = floor_sqrt(v.norm_sq() * STRETCH_SCALE_SQ);
            &&& (abs(v.x as int) * STRETCH_TARGET + l - 1) / l <= BALL_START_SPEED + 2
            &&& (abs(v.y as int) * STRETCH_TARGET + l - 1) / l <= BALL_START_SPEED + 2
        }),
{
    lemma_stretch_constants();
    let m = v.norm_sq();
    let k: int = STRETCH_SCALE as int;
    let n = m * STRETCH_SCALE_SQ;
    lemma_norm_of_magnitudes(v);
    let a = abs(v.x as int);
    let b = abs(v.y as int);
    lemma_mul_le(1, m, STRETCH_SCALE_SQ as int);
    lemma_floor_sqrt_exists(n);
    let l = floor_sqrt(n);
    assert((a * k) * (a * k) + (b * k) * (b * k) == n) by (nonlinear_arith)
        requires
            n == m * (k * k),
            m == a * a + b * b,
    ;
    if l < k {
        lemma_square_le(l + 1, k);
    }
    assert((a * k) * BALL_START_SPEED == a * STRETCH_TARGET) by (nonlinear_arith)
        requires
            STRETCH_TARGET == BALL_START_SPEED * k,
    ;
    assert((b * k) * BALL_START_SPEED == b * STRETCH_TARGET) by (nonlinear_arith)
        requires
            STRETCH_TARGET == BALL_START_SPEED * k,
    ;
    lemma_mul_le(0, a, k);
    lemma_mul_le(0, b, k);
    assert(a > 0 ==> a * k > 0) by (nonlinear_arith)
        requires
            k > 0,
    ;
    assert(b > 0 ==> b * k > 0) by (nonlinear_arith)
        requires
            k > 0,
    ;
    lemma_band_constants();
    lemma_mul_le(m, 40_000_000_000, STRETCH_SCALE_SQ as int);
    if l > 1_000_000_000_000 {
        lemma_square_le(1_000_000_000_000, l);
    }
    lemma_stretch_close(a * k, b * k, l);
    lemma_rescaled_magnitude(v.x as int, STRETCH_TARGET as int, l);
    lemma_rescaled_magnitude(v.y as int, STRETCH_TARGET as int, l);
    lemma_band_constants();
}

/// A fast velocity shrunk to the maximum speed lands in the band and keeps the sign
/// of each component.
pub proof fn lemma_shrunk_in_band(v: Vector)
    requires
        v.norm_sq() > BALL_SPEED_MAX * BALL_SPEED_MAX,
    ensures
        in_speed_band(shrunk(v)),
        keeps_sign(v.x as int, shrunk(v).x as int),
        keeps_sign(v.y as int, shrunk(v).y as int),
{
    let m = v.norm_sq();
    lemma_floor_sqrt_exists(m);
    let f = floor_sqrt(m);
    let l = ceil_sqrt(m);
    if f * f == m {
        assert(f >= 1);
        assert((l - 1) * (l - 1) < l * l) by (nonlinear_arith)
            requires
                l >= 1,
        ;
    }
    lemma_rescaled_magnitude(v.x as int, BALL_SPEED_MAX as int, l);
    lemma_rescaled_magnitude(v.y as int, BALL_SPEED_MAX as int, l);
    lemma_norm_of_magnitudes(v);
    lemma_shrink_kept_in_band(abs(v.x as int), abs(v.y as int), l);
}

/// A nonzero `old` kept in sign by `new` has a positive product with it.
pub proof fn lemma_sign_product(old: int, new: int)
    requires
        keeps_sign(old, new),
        old != 0,
    ensures
        new * old > 0,
{
    assert(new * old > 0) by (nonlinear_arith)
        requires
            (old > 0 ==> new > 0) && (old < 0 ==> new < 0),
            old != 0,
    ;
}

/// Whatever velocity comes in, the governor hands out one in the speed band, keeps
/// the sign of each nonzero component, brings a slow ball within two sub-units per
/// second of the start speed, and gives a ball with no direction exactly the start
/// speed.
pub proof fn lemma_governed_in_band(v: Vector)
    ensures
        in_speed_band(governed(v)),
        keeps_sign(v.x as int, governed(v).x as int),
        keeps_sign(v.y as int, governed(v).y as int),
        0 < v.norm_sq() < BALL_START_SPEED * BALL_START_SPEED ==> governed(v).norm_sq() <= (
        BALL_START_SPEED + 2) * (BALL_START_SPEED + 2),
        v.norm_sq() == 0 ==> governed(v).norm_sq() == BALL_START_SPEED * BALL_START_SPEED,
{
    lemma_band_constants();
    let m = v.norm_sq();
    lemma_norm_of_magnitudes(v);
    if m < BALL_START_SPEED * BALL_START_SPEED {
        if m != 0 {
            lemma_stretched_close(v);
        } else {
            assert(v.x == 0 && v.y == 0) by (nonlinear_arith)
                requires
                    v.x * v.x + v.y * v.y == 0,
            ;
        }
    } else if m > BALL_SPEED_MAX * BALL_SPEED_MAX {
        lemma_shrunk_in_band(v);
    }
}

/// Squared length of a vector, for components within the governor's limit.
pub fn norm_sq_u64(v: Vector) -> (r: u64)
    requires
        v.bounded(VELOCITY_LIMIT as int),
    ensures
        r == v.norm_sq(),
        r <= MAX_NORM_SQ,
{
    assert(0 <= v.x * v.x <= VELOCITY_LIMIT * VELOCITY_LIMIT) by (nonlinear_arith)
        requires
            -VELOCITY_LIMIT <= v.x <= VELOCITY_LIMIT,
    ;
    assert(0 <= v.y * v.y <= VELOCITY_LIMIT * VELOCITY_LIMIT) by (nonlinear_arith)
        requires
            -VELOCITY_LIMIT <= v.y <= VELOCITY_LIMIT,
    ;
    ((v.x * v.x) + (v.y * v.y)) as u64
}

/// Brings a slow, nonzero velocity up to the start speed along its own direction.
fn stretch(v: Vector, m: u64) -> (r: Vector)
    requires
        v.bounded(VELOCITY_LIMIT as int),
        m == v.norm_sq(),
        0 < m < BALL_START_SPEED * BALL_START_SPEED,
    ensures
        r == stretched(v),
{
    proof {
        lemma_band_constants();
        lemma_stretch_constants();
        lemma_stretched_close(v);
        lemma_floor_sqrt_exists(m * STRETCH_SCALE_SQ);
        lemma_mul_le(1, m as int, STRETCH_SCALE_SQ as int);
        lemma_mul_le(m as int, 40_000_000_000, STRETCH_SCALE_SQ as int);
    }
    let l = floor_sqrt_u128((m as u128) * STRETCH_SCALE_SQ);
    proof {
        lemma_rescaled_magnitude(v.x as int, STRETCH_TARGET as int, l as int);
        lemma_rescaled_magnitude(v.y as int, STRETCH_TARGET as int, l as int);
    }
    let x = stretch_component(v.x, l);
    let y = stretch_component(v.y, l);
    Vector { x, y }
}

/// Brings a fast velocity down to the maximum speed along its own direction.
fn shrink(v: Vector, m: u64) -> (r: Vector)
    requires
        v.bounded(VELOCITY_LIMIT as int),
        m == v.norm_sq(),
        BALL_SPEED_MAX * BALL_SPEED_MAX < m,
    ensures
        r == shrunk(v),
{
    let f = floor_sqrt_u128(m as u128);
    proof {
        lemma_mul_le(0, f as int, f as int);
        if f > 0x1_0000_0000 {
            lemma_square_le(0x1_0000_0000, f as int);
        }
    }
    let l: u128 = if f * f == m as u128 { f } else { f + 1 };
    assert(l == ceil_sqrt(m as int));
    proof {
        if l == 0 {
            assert(f == 0 && m == 0);
        }
        lemma_shrunk_in_band(v);
        lemma_rescaled_magnitude(v.x as int, BALL_SPEED_MAX as int, l as int);
        lemma_rescaled_magnitude(v.y as int, BALL_SPEED_MAX as int, l as int);
    }
    let x = shrink_component(v.x, l);
    let y = shrink_component(v.y, l);
    Vector { x, y }
}

/// Brings a slow velocity to the start speed along its own direction; one with no
/// direction is sent straight up at the start speed.
pub fn restart_speed(v: Vector) -> (r: Vector)
    requires
        v.bounded(VELOCITY_LIMIT as int),
        v.norm_sq() < BALL_START_SPEED * BALL_START_SPEED,
    ensures
        r == restarted(v),
        in_speed_band(r),
        v.x != 0 ==> r.x * v.x > 0,
        v.y != 0 ==> r.y * v.y > 0,
        v.norm_sq() != 0 ==> r.norm_sq() <= (BALL_START_SPEED + 2) * (BALL_START_SPEED + 2),
        v.norm_sq() == 0 ==> r.norm_sq() == BALL_START_SPEED * BALL_START_SPEED,
{
    proof {
        lemma_governed_in_band(v);
        lemma_norm_of_magnitudes(v);
        if v.x != 0 {
            lemma_sign_product(v.x as int, governed(v).x as int);
        }
        if v.y != 0 {
            lemma_sign_product(v.y as int, governed(v).y as int);
        }
    }
    let m = norm_sq_u64(v);
    if m == 0 {
        Vector { x: 0, y: BALL_START_SPEED }
    } else {
        stretch(v, m)
    }
}

/// The speed governor: clamps the speed into `[BALL_START_SPEED, BALL_SPEED_MAX]`
/// and keeps the direction, including the sign of each nonzero component.
pub fn govern(v: Vector) -> (r: Vector)
    requires
        v.bounded(VELOCITY_LIMIT as int),
    ensures
        r == governed(v),
        in_speed_band(r),
        v.x != 0 ==> r.x * v.x > 0,
        v.y != 0 ==> r.y * v.y > 0,
        0 < v.norm_sq() < BALL_START_SPEED * BALL_START_SPEED ==> r.norm_sq() <= (BALL_START_SPEED
            + 2) * (BALL_START_SPEED + 2),
        v.norm_sq() == 0 ==> r.norm_sq() == BALL_START_SPEED * BALL_START_SPEED,
{
    proof {
        lemma_governed_in_band(v);
        if v.x != 0 {
            lemma_sign_product(v.x as int, governed(v).x as int);
        }
        if v.y != 0 {
            lemma_sign_product(v.y as int, governed(v).y as int);
        }
    }
    let m = norm_sq_u64(v);
    if m < (BALL_START_SPEED * BALL_START_SPEED) as u64 {
        restart_speed(v)
    } else if m > (BALL_SPEED_MAX * BALL_SPEED_MAX) as u64 {
        shrink(v, m)
    } else {
        v
    }
}

} // verus!
