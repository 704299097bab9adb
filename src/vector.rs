//! Two-component integer vectors, used for positions and velocities.
use vstd::prelude::*;

use crate::config::VELOCITY_LIMIT;

verus! {

/// Absolute value of an integer.
pub open spec fn abs(a: int) -> int {
    if a < 0 {
        -a
    } else {
        a
    }
}

/// `a / b` rounded toward zero, for a positive `b`.
pub open spec fn div_toward_zero(a: int, b: int) -> int {
    if a >= 0 {
        a / b
    } else {
        -((-a) / b)
    }
}

/// `a / b` rounded away from zero, for a positive `b`.
pub open spec fn div_away_from_zero(a: int, b: int) -> int {
    if a >= 0 {
        (a + b - 1) / b
    } else {
        -((-a + b - 1) / b)
    }
}

/// `a / b` rounded toward zero, except that a nonzero `a` keeps at least one
/// sub-unit of magnitude, so that its sign survives, for a positive `b`.
pub open spec fn div_keeping_sign(a: int, b: int) -> int {
    if a > 0 && a / b == 0 {
        1
    } else if a < 0 && (-a) / b == 0 {
        -1
    } else {
        div_toward_zero(a, b)
    }
}

/// The magnitude that a nonzero magnitude `a` keeps after division by `b`.
pub open spec fn kept_magnitude(a: int, b: int) -> int {
    if a > 0 && a / b == 0 {
        1
    } else {
        a / b
    }
}

/// A nonzero `new` that lies on the same side of zero as a nonzero `old`.
pub open spec fn keeps_sign(old: int, new: int) -> bool {
    (old > 0 ==> new > 0) && (old < 0 ==> new < 0)
}

/// A component multiplied by the ratio `num / den`, rounded toward zero but never to
/// zero from a nonzero component.
pub open spec fn scale_component(c: int, num: int, den: int) -> int {
    div_keeping_sign(c * num, den)
}

/// A point or a velocity in the plane.
#[derive(Clone, Copy, Debug, PartialEq, Eq, Structural)]
pub struct Vector {
    pub x: i64,
    pub y: i64,
}

impl Vector {
    /// Squared length.
    pub open spec fn norm_sq(self) -> int {
        self.x * self.x + self.y * self.y
    }

    /// Both components lie within `k` of zero.
    pub open spec fn bounded(self, k: int) -> bool {
        abs(self.x as int) <= k && abs(self.y as int) <= k
    }

    /// The vector multiplied by `num / den`, each component rounded toward zero but
    /// never to zero from a nonzero component.
    pub open spec fn scaled(self, num: int, den: int) -> Vector {
        Vector {
            x: scale_component(self.x as int, num, den) as i64,
            y: scale_component(self.y as int, num, den) as i64,
        }
    }

    /// Builds a vector from its components.
    pub fn new(x: i64, y: i64) -> (r: Vector)
        ensures
            r.x == x,
            r.y == y,
    {
        Vector { x, y }
    }

    /// Multiplies the vector by `num / den`, rounding each component toward zero but
    /// keeping the sign of each nonzero component.
    pub fn scale(self, num: i64, den: i64) -> (r: Vector)
        requires
            self.bounded(VELOCITY_LIMIT as int),
            1 <= num <= 100,
            1 <= den <= 100,
        ensures
            r == self.scaled(num as int, den as int),
            abs(r.x as int) == kept_magnitude(abs(self.x as int) * num, den as int),
            abs(r.y as int) == kept_magnitude(abs(self.y as int) * num, den as int),
            abs(r.x as int) <= abs(self.x as int) * num / (den as int) + 1,
            abs(r.y as int) <= abs(self.y as int) * num / (den as int) + 1,
            keeps_sign(self.x as int, r.x as int),
            keeps_sign(self.y as int, r.y as int),
    {
        Vector { x: scale_i64(self.x, num, den), y: scale_i64(self.y, num, den) }
    }
}

/// Scaling by a positive ratio keeps the sign of each nonzero component, and no
/// component grows past `num / den` of itself by more than one sub-unit.
pub proof fn lemma_scaled_keeps_signs(v: Vector, num: int, den: int)
    requires
        v.bounded(VELOCITY_LIMIT as int),
        1 <= num <= 100,
        1 <= den <= 100,
    ensures
        keeps_sign(v.x as int, v.scaled(num, den).x as int),
        keeps_sign(v.y as int, v.scaled(num, den).y as int),
        abs(v.scaled(num, den).x as int) <= abs(v.x as int) * num / den + 1,
        abs(v.scaled(num, den).y as int) <= abs(v.y as int) * num / den + 1,
{
    lemma_scale_component_sign(v.x as int, num, den);
    lemma_scale_component_sign(v.y as int, num, den);
}

proof fn lemma_scale_component_sign(c: int, num: int, den: int)
    requires
        abs(c) <= VELOCITY_LIMIT,
        1 <= num <= 100,
        1 <= den <= 100,
    ensures
        keeps_sign(c, scale_component(c, num, den)),
        abs(scale_component(c, num, den)) <= abs(c) * num / den + 1,
        abs(scale_component(c, num, den)) <= VELOCITY_LIMIT * 100,
{
    let a = abs(c);
    assert(0 <= a * num <= VELOCITY_LIMIT * 100) by (nonlinear_arith)
        requires
            0 <= a <= VELOCITY_LIMIT,
            1 <= num <= 100,
    ;
    assert(a > 0 ==> a * num > 0) by (nonlinear_arith)
        requires
            1 <= num,
    ;
    assert((a * num) / den <= a * num) by (nonlinear_arith)
        requires
            0 <= a * num,
            1 <= den,
    ;
    assert(0 <= (a * num) / den) by (nonlinear_arith)
        requires
            0 <= a * num,
            1 <= den,
    ;
    assert((-c) * num == -(c * num)) by (nonlinear_arith);
    assert(c > 0 ==> c * num > 0) by (nonlinear_arith)
        requires
            1 <= num,
    ;
    assert(c < 0 ==> c * num < 0) by (nonlinear_arith)
        requires
            1 <= num,
    ;
}

/// Multiplies one component by `num / den`, rounding toward zero but keeping the sign.
fn scale_i64(c: i64, num: i64, den: i64) -> (r: i64)
    requires
        abs(c as int) <= VELOCITY_LIMIT,
        1 <= num <= 100,
        1 <= den <= 100,
    ensures
        r == scale_component(c as int, num as int, den as int),
        abs(r as int) == kept_magnitude(abs(c as int) * num, den as int),
        abs(r as int) <= abs(c as int) * num / (den as int) + 1,
        keeps_sign(c as int, r as int),
{
    let a: i64 = if c < 0 { -c } else { c };
    assert(0 <= a * num <= VELOCITY_LIMIT * 100) by (nonlinear_arith)
        requires
            0 <= a <= VELOCITY_LIMIT,
            1 <= num <= 100,
    ;
    assert(a > 0 ==> a * num > 0) by (nonlinear_arith)
        requires
            1 <= num,
    ;
    assert((a * num) as int / (den as int) <= a * num) by (nonlinear_arith)
        requires
            0 <= a * num,
            1 <= den,
    ;
    let mut q: i64 = ((a as u64) * (num as u64) / (den as u64)) as i64;
    if q == 0 && a > 0 {
        q = 1;
    }
    assert((-c) * num == -(c * num)) by (nonlinear_arith);
    if c < 0 {
        -q
    } else {
        q
    }
}

} // verus!
