//! Integer 2D vectors and the floor square root used to normalise them.

use vstd::prelude::*;

verus! {

/// Micro-units per world unit.
pub const UNIT: i64 = 1_000_000;

/// Largest magnitude of a coordinate that the world holds (2^52 micro-units).
pub const COORD_LIMIT: i64 = 4_503_599_627_370_496;

/// Largest magnitude of a velocity component or a speed (2^24).
pub const SPEED_LIMIT: i64 = 16_777_216;

/// A point or displacement on the plane, in micro-units.
#[derive(Clone, Copy, Debug, PartialEq, Eq, Structural)]
pub struct Vector {
    pub x: i64,
    pub y: i64,
}

/// Both components lie in `[-lim, lim]`.
pub open spec fn within(v: Vector, lim: int) -> bool {
    -lim <= v.x <= lim && -lim <= v.y <= lim
}

pub open spec fn len_sq(v: Vector) -> int {
    v.x * v.x + v.y * v.y
}

/// `r` is the integer square root of `n`, rounded down.
pub open spec fn is_sqrt_floor(n: int, r: int) -> bool {
    0 <= r && r * r <= n && n < (r + 1) * (r + 1)
}

/// The integer square root of `n`, rounded down.
pub open spec fn sqrt_floor(n: int) -> int {
    choose|r: int| is_sqrt_floor(n, r)
}

/// Quotient rounded toward zero, as Rust's integer division does.
pub open spec fn div_trunc(a: int, b: int) -> int {
    if a >= 0 {
        a / b
    } else {
        -((-a) / b)
    }
}

/// `v` rescaled to length `speed`, each component rounded toward zero; the
/// zero vector stays zero.
pub open spec fn scaled(v: Vector, speed: int) -> Vector {
    if v.x == 0 && v.y == 0 {
        v
    } else {
        let len = sqrt_floor(len_sq(v));
        Vector { x: div_trunc(v.x * speed, len) as i64, y: div_trunc(v.y * speed, len) as i64 }
    }
}

pub proof fn lemma_sqrt_floor_unique(n: int, a: int, b: int)
    requires
        is_sqrt_floor(n, a),
        is_sqrt_floor(n, b),
    ensures
        a == b,
{
    if a < b {
        assert((a + 1) * (a + 1) <= b * b) by (nonlinear_arith)
            requires
                0 <= a,
                a + 1 <= b,
        ;
    } else if b < a {
        assert((b + 1) * (b + 1) <= a * a) by (nonlinear_arith)
            requires
                0 <= b,
                b + 1 <= a,
        ;
    }
}

/// The floor square root of `n`.
pub fn isqrt(n: u128) -> (r: u128)
    ensures
        is_sqrt_floor(n as int, r as int),
        r == sqrt_floor(n as int),
{
    let mut lo: u128 = 0;
    let mut hi: u128 = 18_446_744_073_709_551_616;
    assert(n < hi * hi) by (nonlinear_arith)
        requires
            hi == 18_446_744_073_709_551_616u128,
            n <= u128::MAX,
    ;
    while hi - lo > 1
        invariant
            lo < hi <= 18_446_744_073_709_551_616u128,
            lo * lo <= n,
            n < hi * hi,
        decreases hi - lo,
    {
        let mid: u128 = lo + (hi - lo) / 2;
        assert(mid * mid < 340_282_366_920_938_463_463_374_607_431_768_211_456int) by (nonlinear_arith)
            requires
                mid < 18_446_744_073_709_551_616u128,
        ;
        if mid * mid <= n {
            lo = mid;
        } else {
            hi = mid;
        }
    }
    assert(hi == lo + 1);
    proof {
        let w = sqrt_floor(n as int);
        assert(is_sqrt_floor(n as int, lo as int));
        lemma_sqrt_floor_unique(n as int, w, lo as int);
    }
    lo
}

/// A component of `v` rescaled to `speed` against the length `len`.
fn scale_component(c: i64, speed: i64, len: u128) -> (r: i64)
    requires
        0 <= speed <= SPEED_LIMIT,
        -2 * COORD_LIMIT <= c <= 2 * COORD_LIMIT,
        len > 0,
        (c as int) * (c as int) < (len + 1) * (len + 1),
    ensures
        r == div_trunc(c * speed, len as int),
        -speed <= r <= speed,
{
    let a: u128 = if c < 0 { (-(c as i128)) as u128 } else { c as u128 };
    assert(a <= len) by (nonlinear_arith)
        requires
            a == c || a == -c,
            (c as int) * (c as int) < (len + 1) * (len + 1),
            len > 0,
    ;
    assert(a * (speed as u128) <= len * (speed as u128)) by (nonlinear_arith)
        requires
            a <= len,
            speed >= 0,
    ;
    assert(a * (speed as u128) <= 9_007_199_254_740_992int * 16_777_216int) by (nonlinear_arith)
        requires
            a <= 9_007_199_254_740_992int,
            0 <= speed <= 16_777_216int,
    ;
    let q: u128 = a * (speed as u128) / len;
    assert(q <= speed) by (nonlinear_arith)
        requires
            q as int == (a as int * speed as int) / (len as int),
            a * (speed as u128) <= len * (speed as u128),
            len > 0,
            speed >= 0,
    ;
    if c < 0 {
        proof {
            assert(-(c * speed) == a * speed) by (nonlinear_arith)
                requires
                    a == -c,
            ;
            if speed == 0 {
                assert(c * speed == 0 && a * speed == 0) by (nonlinear_arith)
                    requires
                        speed == 0,
                ;
            } else {
                assert(c * speed < 0) by (nonlinear_arith)
                    requires
                        c < 0,
                        speed > 0,
                ;
            }
        }
        -(q as i64)
    } else {
        assert(c * speed >= 0) by (nonlinear_arith)
            requires
                c >= 0,
                speed >= 0,
        ;
        q as i64
    }
}

/// `v` rescaled to length `speed`, rounded toward zero; the zero vector
/// (whose direction is undefined) gives the zero vector.
pub fn scale_to(v: Vector, speed: i64) -> (r: Vector)
    requires
        within(v, 2 * COORD_LIMIT),
        0 <= speed <= SPEED_LIMIT,
    ensures
        r == scaled(v, speed as int),
        within(r, speed as int),
{
    if v.x == 0 && v.y == 0 {
        return v;
    }
    let x: i128 = v.x as i128;
    let y: i128 = v.y as i128;
    assert(x * x <= 81_129_638_414_606_681_695_789_005_144_064int && y * y <= 81_129_638_414_606_681_695_789_005_144_064int)
        by (nonlinear_arith)
        requires
            -9_007_199_254_740_992 <= x <= 9_007_199_254_740_992,
            -9_007_199_254_740_992 <= y <= 9_007_199_254_740_992,
    ;
    assert(x * x >= 0 && y * y >= 0) by (nonlinear_arith);
    let n: u128 = (x * x + y * y) as u128;
    let len: u128 = isqrt(n);
    assert(len > 0) by (nonlinear_arith)
        requires
            n >= 1 || n == 0,
            n == x * x + y * y,
            x != 0 || y != 0,
            len * len <= n,
            n < (len + 1) * (len + 1),
            len >= 0,
    ;
    assert((x * x) < (len + 1) * (len + 1) && (y * y) < (len + 1) * (len + 1)) by (nonlinear_arith)
        requires
            n == x * x + y * y,
            n < (len + 1) * (len + 1),
            x * x >= 0,
            y * y >= 0,
    ;
    let rx = scale_component(v.x, speed, len);
    let ry = scale_component(v.y, speed, len);
    Vector { x: rx, y: ry }
}

} // verus!
