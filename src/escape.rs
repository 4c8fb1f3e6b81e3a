//! The escape-time evaluator: iterates `z <- z^2 + c` from `z = 0`.
use vstd::prelude::*;
use crate::fixed::{Complex, ESCAPE_SQUARED, ONE, clamp_i64, floor_div, one};

verus! {

/// How a point of the plane fared under the iteration.
#[derive(Clone, Copy, Debug, PartialEq, Eq)]
pub enum EscapeResult {
    /// `|z|` exceeded 2 after this many steps (counted from 1).
    Escaped(u32),
    /// `|z|` stayed within 2 for every step allowed.
    Bounded,
}

/// The product of two coordinates, brought back to the unit of a coordinate
/// (rounded towards minus infinity).
pub open spec fn rescale(p: int) -> int {
    p / one()
}

/// One step of the iteration in fixed point.
pub open spec fn step(z: (int, int), c: (int, int)) -> (int, int) {
    (rescale(z.0 * z.0 - z.1 * z.1) + c.0, rescale(2 * z.0 * z.1) + c.1)
}

/// The value of `z` after `n` steps.
pub open spec fn orbit(c: (int, int), n: nat) -> (int, int)
    decreases n,
{
    if n == 0 {
        (0, 0)
    } else {
        step(orbit(c, (n - 1) as nat), c)
    }
}

/// Whether `|z| > 2`, compared exactly on the squared magnitude.
pub open spec fn outside(z: (int, int)) -> bool {
    z.0 * z.0 + z.1 * z.1 > ESCAPE_SQUARED
}

/// The outcome of at most `max` steps: the first step after which `z` lies
/// outside the escape radius, or `Bounded` when there is none.
pub open spec fn escape_time(c: (int, int), max: nat) -> EscapeResult
    decreases max,
{
    if max == 0 {
        EscapeResult::Bounded
    } else {
        match escape_time(c, (max - 1) as nat) {
            EscapeResult::Escaped(n) => EscapeResult::Escaped(n),
            EscapeResult::Bounded => if outside(orbit(c, max)) && max <= u32::MAX {
                EscapeResult::Escaped(max as u32)
            } else {
                EscapeResult::Bounded
            },
        }
    }
}

/// Once a point has escaped, allowing more steps changes nothing.
pub proof fn lemma_escape_time_settled(c: (int, int), n: nat, m: nat)
    requires
        n <= m,
        escape_time(c, n) is Escaped,
    ensures
        escape_time(c, m) == escape_time(c, n),
    decreases m - n,
{
    if n < m {
        lemma_escape_time_settled(c, n, (m - 1) as nat);
    }
}

proof fn lemma_square_bound(a: int, b: int, r: int)
    requires
        r >= 0,
        a * a + b * b <= r * r,
    ensures
        -r <= a <= r,
        -r <= b <= r,
{
    assert(-r <= a <= r) by (nonlinear_arith)
        requires
            r >= 0,
            a * a + b * b <= r * r,
    ;
    assert(-r <= b <= r) by (nonlinear_arith)
        requires
            r >= 0,
            a * a + b * b <= r * r,
    ;
}

proof fn lemma_rescale_bounds(p: int, k: int)
    requires
        -k * one() <= p <= k * one(),
    ensures
        -k <= rescale(p) <= k,
{
    vstd::arithmetic::div_mod::lemma_div_is_ordered(p, k * one(), one());
    vstd::arithmetic::div_mod::lemma_div_is_ordered(-k * one(), p, one());
    vstd::arithmetic::div_mod::lemma_div_multiples_vanish(k, one());
    vstd::arithmetic::div_mod::lemma_div_multiples_vanish(-k, one());
    assert(one() * k == k * one() && one() * -k == -k * one()) by (nonlinear_arith);
}

proof fn lemma_i64_square_fits(a: i64)
    ensures
        0 <= a as int * a as int <= i128::MAX,
{
    assert(0 <= a as int * a as int <= 0x4000_0000_0000_0000_0000_0000_0000_0000) by (nonlinear_arith)
        requires
            -0x8000_0000_0000_0000 <= a <= 0x7fff_ffff_ffff_ffff,
    ;
}

/// Runs the escape-time iteration on `c` for at most `max_iterations` steps.
pub fn evaluate(c: Complex, max_iterations: u32) -> (r: EscapeResult)
    ensures
        r == escape_time(c@, max_iterations as nat),
{
    let mut zr: i64 = 0;
    let mut zi: i64 = 0;
    let mut i: u32 = 0;
    while i < max_iterations
        invariant
            i <= max_iterations,
            (zr as int, zi as int) == orbit(c@, i as nat),
            escape_time(c@, i as nat) == EscapeResult::Bounded,
            i == 0 ==> zr == 0 && zi == 0,
            i > 0 ==> !outside(c@) && !outside((zr as int, zi as int)),
        decreases max_iterations - i,
    {
        let two: i128 = 2 * ONE as i128;
        proof {
            assert(two == 144115188075855872);
            assert(ESCAPE_SQUARED == 144115188075855872 * 144115188075855872);
            assert(ESCAPE_SQUARED == two * two);
            if i > 0 {
                lemma_square_bound(zr as int, zi as int, two as int);
                assert(zr as int * zr as int <= ESCAPE_SQUARED) by (nonlinear_arith)
                    requires -two <= zr <= two, ESCAPE_SQUARED == two * two;
                assert(zi as int * zi as int <= ESCAPE_SQUARED) by (nonlinear_arith)
                    requires -two <= zi <= two, ESCAPE_SQUARED == two * two;
                assert(zr as int * zi as int <= ESCAPE_SQUARED && zr as int * zi as int >= -ESCAPE_SQUARED) by (nonlinear_arith)
                    requires -two <= zr <= two, -two <= zi <= two, ESCAPE_SQUARED == two * two;
                lemma_square_bound(c.re as int, c.im as int, two as int);
            }
        }
        proof {
            lemma_i64_square_fits(zr);
            lemma_i64_square_fits(zi);
            if i == 0 {
                assert(zr as int * zi as int == 0);
            }
        }
        let sr: i128 = zr as i128 * zr as i128;
        let si: i128 = zi as i128 * zi as i128;
        let re: i128 = floor_div(sr - si, ONE as i128) + c.re as i128;
        let im: i128 = floor_div(2 * (zr as i128 * zi as i128), ONE as i128) + c.im as i128;
        proof {
            if i > 0 {
                lemma_rescale_bounds(sr - si, 16 * one());
                lemma_rescale_bounds(2 * (zr as int * zi as int), 16 * one());
            }
            assert(2 * (zr as int * zi as int) == 2 * zr as int * zi as int) by (nonlinear_arith);
        }
        zr = re as i64;
        zi = im as i64;
        i = i + 1;
        proof {
            assert(orbit(c@, i as nat) == step(orbit(c@, (i - 1) as nat), c@));
        }
        proof {
            lemma_i64_square_fits(zr);
            lemma_i64_square_fits(zi);
        }
        if zr as i128 * zr as i128 > ESCAPE_SQUARED - zi as i128 * zi as i128 {
            proof {
                assert(escape_time(c@, i as nat) == EscapeResult::Escaped(i));
                lemma_escape_time_settled(c@, i as nat, max_iterations as nat);
            }
            return EscapeResult::Escaped(i);
        }
    }
    EscapeResult::Bounded
}

} // verus!

verus! {

/// A point farther than 2 from the origin escapes on the very first step,
/// whatever the number of steps allowed (at least one).
pub proof fn lemma_far_point_escapes_at_once(c: (int, int), max: nat)
    requires
        outside(c),
        max >= 1,
    ensures
        escape_time(c, max) == EscapeResult::Escaped(1),
{
    assert(rescale(0) == 0);
    assert(orbit(c, 0) == (0int, 0int));
    assert(0int * 0int - 0int * 0int == 0 && 2 * 0int * 0int == 0);
    assert(orbit(c, 1) == c);
    assert(escape_time(c, 0) == EscapeResult::Bounded);
    assert(escape_time(c, 1) == EscapeResult::Escaped(1));
    lemma_escape_time_settled(c, 1, max);
}

proof fn lemma_origin_orbit(n: nat)
    ensures
        orbit((0, 0), n) == (0int, 0int),
    decreases n,
{
    if n > 0 {
        lemma_origin_orbit((n - 1) as nat);
        assert(rescale(0) == 0);
        assert(0int * 0int - 0int * 0int == 0 && 2 * 0int * 0int == 0);
    }
}

/// The origin is a fixed point of the iteration, so it never escapes.
pub proof fn lemma_origin_bounded(max: nat)
    ensures
        escape_time((0, 0), max) == EscapeResult::Bounded,
    decreases max,
{
    if max > 0 {
        lemma_origin_bounded((max - 1) as nat);
        lemma_origin_orbit(max);
    }
}

/// Forcing a point into the range of `i64` does not change how it fares: a
/// coordinate beyond that range is far outside the escape radius either way.
pub proof fn lemma_saturated_point_fares_alike(c: (int, int), max: nat)
    ensures
        escape_time((clamp_i64(c.0), clamp_i64(c.1)), max) == escape_time(c, max),
{
    let d = (clamp_i64(c.0), clamp_i64(c.1));
    if d != c {
        let two = 2 * one();
        assert(two == 144115188075855872);
        assert(ESCAPE_SQUARED == 144115188075855872 * 144115188075855872);
        assert(outside(c) && outside(d)) by (nonlinear_arith)
            requires
                c.0 > i64::MAX || c.0 < i64::MIN || c.1 > i64::MAX || c.1 < i64::MIN,
                d.0 > i64::MAX - 1 || d.0 < i64::MIN + 1 || d.1 > i64::MAX - 1 || d.1 < i64::MIN + 1,
                ESCAPE_SQUARED == two * two,
                two == 144115188075855872,
        ;
        if max >= 1 {
            lemma_far_point_escapes_at_once(c, max);
            lemma_far_point_escapes_at_once(d, max);
        }
    }
}

} // verus!
