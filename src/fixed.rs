//! Fixed-point coordinates of the complex plane.
//!
//! A coordinate is an `i64` read as a multiple of `2^-56`, so the plane covered
//! is roughly `[-128, 128)` on each axis, with a resolution finer than a
//! double-precision float has near the Mandelbrot set.
use vstd::prelude::*;

verus! {

/// The raw value of the real number 1.
pub const ONE: i64 = 72057594037927936;

/// The raw value of the squared escape radius, 4, in units of `2^-112`
/// (the unit of a product of two coordinates).
pub const ESCAPE_SQUARED: i128 = 20769187434139310514121985316880384;

/// A point of the complex plane in fixed point.
#[derive(Clone, Copy, Debug, PartialEq, Eq)]
pub struct Complex {
    pub re: i64,
    pub im: i64,
}

impl Complex {
    pub open spec fn view(self) -> (int, int) {
        (self.re as int, self.im as int)
    }
}

/// The value of `ONE` as a mathematical integer.
pub open spec fn one() -> int {
    ONE as int
}

/// The largest integer not above `a / b`, for a positive `b`.
pub fn floor_div(a: i128, b: i128) -> (r: i128)
    requires
        b > 0,
    ensures
        r == a / b,
        a >= 0 ==> 0 <= r <= a,
        a < 0 ==> a <= r < 0,
{
    if a >= 0 {
        proof {
            vstd::arithmetic::div_mod::lemma_div_pos_is_pos(a as int, b as int);
            vstd::arithmetic::div_mod::lemma_div_is_ordered_by_denominator(a as int, 1, b as int);
        }
    } else {
        proof {
            lemma_floor_div_negative_bounds(a as int, b as int);
        }
    }
    a.checked_div_euclid(b).unwrap()
}

proof fn lemma_floor_div_negative_bounds(a: int, b: int)
    requires
        a < 0,
        b > 0,
    ensures
        a <= a / b < 0,
{
    vstd::arithmetic::div_mod::lemma_fundamental_div_mod(a, b);
    assert(a <= a / b < 0) by (nonlinear_arith)
        requires
            a == b * (a / b) + a % b,
            0 <= a % b < b,
            a < 0,
            b > 0,
    ;
}

/// `v` forced into the range of `i64`.
pub open spec fn clamp_i64(v: int) -> int {
    if v > i64::MAX {
        i64::MAX as int
    } else if v < i64::MIN {
        i64::MIN as int
    } else {
        v
    }
}

/// `v` forced into the range of `i64`.
pub fn saturate(v: i128) -> (r: i64)
    ensures
        r == clamp_i64(v as int),
{
    if v > i64::MAX as i128 {
        i64::MAX
    } else if v < i64::MIN as i128 {
        i64::MIN
    } else {
        v as i64
    }
}

} // verus!
