//! Fixed-point scalars and vectors.
//!
//! A continuous world coordinate is stored as an `i64` counting thousandths
//! of a world unit, so one lattice cell spans exactly `SCALE` ticks. All
//! arithmetic on these values is exact integer arithmetic; division rounds
//! toward negative infinity, which makes `cell_of` the mathematical floor
//! of the coordinate and keeps cell membership unambiguous on boundaries.

use vstd::arithmetic::div_mod::{lemma_fundamental_div_mod, lemma_mod_division_less_than_divisor};
use vstd::prelude::*;

verus! {

/// Number of fixed-point ticks per world unit (one lattice cell edge).
pub const SCALE: i64 = 1000;

/// A point or direction in continuous space, in fixed-point ticks.
#[derive(Clone, Copy, PartialEq, Eq, Structural, Debug)]
pub struct Vec3Fix {
    pub x: i64,
    pub y: i64,
    pub z: i64,
}

impl Vec3Fix {
    pub fn new(x: i64, y: i64, z: i64) -> (v: Vec3Fix)
        ensures
            v == (Vec3Fix { x, y, z }),
    {
        Vec3Fix { x, y, z }
    }
}

/// The lattice cell a continuous coordinate lies in: the floor of `a / SCALE`.
pub open spec fn cell_of(a: int) -> int {
    a / (SCALE as int)
}

/// Product of two fixed-point values, brought back to fixed-point ticks
/// (floor of the exact product).
pub open spec fn fix_mul(a: int, b: int) -> int {
    (a * b) / (SCALE as int)
}

/// A coordinate lies between the bottom and top faces of its cell.
pub proof fn lemma_cell_bounds(a: int)
    ensures
        (SCALE as int) * cell_of(a) <= a < (SCALE as int) * (cell_of(a) + 1),
{
    lemma_fundamental_div_mod(a, SCALE as int);
    lemma_mod_division_less_than_divisor(a, SCALE as int);
}

/// Floor division by a positive divisor keeps the quotient between the
/// dividend and zero, so it never leaves the `i64` range.
proof fn lemma_floor_div_in_range(a: int, d: int)
    requires
        i64::MIN <= a <= i64::MAX,
        0 < d,
    ensures
        i64::MIN <= a / d <= i64::MAX,
{
    lemma_fundamental_div_mod(a, d);
    lemma_mod_division_less_than_divisor(a, d);
    let q = a / d;
    let r = a % d;
    assert(i64::MIN <= q <= i64::MAX) by (nonlinear_arith)
        requires
            a == d * q + r,
            0 <= r < d,
            0 < d,
            i64::MIN <= a <= i64::MAX,
    ;
}

/// The lattice cell the fixed-point coordinate `a` lies in.
pub fn cell_floor(a: i64) -> (r: i64)
    ensures
        r == cell_of(a as int),
{
    proof {
        lemma_floor_div_in_range(a as int, SCALE as int);
    }
    match a.checked_div_euclid(SCALE) {
        Some(q) => q,
        None => {
            proof {
                assert(false);
            }
            0
        },
    }
}

/// Fixed-point multiplication: `(a * b) / SCALE`, rounding toward
/// negative infinity.
pub fn mul_fix(a: i64, b: i64) -> (r: i64)
    requires
        i64::MIN <= a * b <= i64::MAX,
    ensures
        r == fix_mul(a as int, b as int),
{
    let p: i64 = a * b;
    proof {
        lemma_floor_div_in_range(p as int, SCALE as int);
    }
    match p.checked_div_euclid(SCALE) {
        Some(q) => q,
        None => {
            proof {
                assert(false);
            }
            0
        },
    }
}

} // verus!
