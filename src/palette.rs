//! Colours for iteration counts: a rainbow over the hue circle, black for
//! points that never escaped.
use vstd::prelude::*;

verus! {

/// Packed 24-bit black.
pub const BLACK: u32 = 0;

/// `255 * num / den` rounded to the nearest integer, halves upward.
pub open spec fn scaled_round(num: int, den: int) -> int {
    (510 * num + den) / (2 * den)
}

/// Red, green and blue packed as `0xRRGGBB`.
pub open spec fn pack(r: int, g: int, b: int) -> int {
    r * 65536 + g * 256 + b
}

/// HSV to RGB at full saturation and value, for the hue `count / max`
/// (a fraction of the circle in `[0, 1)`): the circle is cut into six sectors,
/// and `f = frac / max` is the position inside the sector.
pub open spec fn hue_color(count: int, max: int) -> int {
    let sector = (6 * count) / max;
    let frac = (6 * count) % max;
    let v = 255int;
    let p = 0int;
    let q = scaled_round(max - frac, max);
    let t = scaled_round(frac, max);
    if sector == 0 {
        pack(v, t, p)
    } else if sector == 1 {
        pack(q, v, p)
    } else if sector == 2 {
        pack(p, v, t)
    } else if sector == 3 {
        pack(p, q, v)
    } else if sector == 4 {
        pack(t, p, v)
    } else {
        pack(v, p, q)
    }
}

/// The colour of a point that escaped after `count` of at most `max` steps;
/// `count == max` stands for a point that never escaped.
pub open spec fn color_spec(count: int, max: int) -> int {
    if count == max {
        BLACK as int
    } else {
        hue_color(count, max)
    }
}

/// `255 * num / den`, rounded.
fn scaled_channel(num: u64, den: u64) -> (r: u32)
    requires
        num <= den,
        0 < den <= u32::MAX,
    ensures
        r == scaled_round(num as int, den as int),
        r <= 255,
{
    let a: u64 = 510 * num + den;
    let b: u64 = 2 * den;
    proof {
        vstd::arithmetic::div_mod::lemma_div_is_ordered(a as int, 511 * den as int, b as int);
        vstd::arithmetic::div_mod::lemma_fundamental_div_mod(511 * den as int, b as int);
        assert((511 * den as int) / (b as int) < 256) by (nonlinear_arith)
            requires
                511 * den as int == b * ((511 * den as int) / (b as int)) + (511 * den as int) % (b as int),
                0 <= (511 * den as int) % (b as int),
                b == 2 * den,
                den > 0,
        ;
    }
    (a / b) as u32
}

/// The palette colour of `iteration_count` when at most `max_iterations`
/// steps are taken.
pub fn color_for(iteration_count: u32, max_iterations: u32) -> (r: u32)
    requires
        iteration_count <= max_iterations,
    ensures
        r == color_spec(iteration_count as int, max_iterations as int),
        r <= 0xFF_FFFF,
        iteration_count == max_iterations ==> r == BLACK,
        iteration_count == 0 && max_iterations > 0 ==> r == 0xFF_0000,
{
    if iteration_count == max_iterations {
        return BLACK;
    }
    let m: u64 = max_iterations as u64;
    let six_i: u64 = 6 * iteration_count as u64;
    let sector: u64 = six_i / m;
    let frac: u64 = six_i % m;
    proof {
        vstd::arithmetic::div_mod::lemma_div_is_ordered(six_i as int, 6 * m as int - 1, m as int);
        vstd::arithmetic::div_mod::lemma_fundamental_div_mod(6 * m as int - 1, m as int);
        assert((6 * m as int - 1) / (m as int) < 6) by (nonlinear_arith)
            requires
                6 * m as int - 1 == m * ((6 * m as int - 1) / (m as int)) + (6 * m as int - 1) % (m as int),
                0 <= (6 * m as int - 1) % (m as int),
                m > 0,
        ;
        if iteration_count == 0 {
            vstd::arithmetic::div_mod::lemma_basic_div(0, m as int);
            vstd::arithmetic::div_mod::lemma_small_mod(0, m as nat);
            assert(six_i / m == 0 && six_i % m == 0);
            assert((m as int) / (2 * m as int) == 0) by {
                vstd::arithmetic::div_mod::lemma_basic_div(m as int, 2 * m as int);
            }
        }
    }
    let v: u32 = 255;
    let p: u32 = 0;
    let q: u32 = scaled_channel(m - frac, m);
    let t: u32 = scaled_channel(frac, m);
    let (r, g, b) = if sector == 0 {
        (v, t, p)
    } else if sector == 1 {
        (q, v, p)
    } else if sector == 2 {
        (p, v, t)
    } else if sector == 3 {
        (p, q, v)
    } else if sector == 4 {
        (t, p, v)
    } else {
        (v, p, q)
    };
    r * 65536 + g * 256 + b
}

/// The colour of every iteration count from 0 to `max_iterations`, indexed
/// by the count.
pub fn build_palette(max_iterations: u32) -> (r: Vec<u32>)
    requires
        max_iterations < u32::MAX,
    ensures
        r@.len() == max_iterations as int + 1,
        forall|i: int|
            0 <= i <= max_iterations ==> #[trigger] r@[i] == color_spec(i, max_iterations as int),
{
    let mut colors: Vec<u32> = Vec::new();
    let mut i: u32 = 0;
    while i <= max_iterations
        invariant
            i <= max_iterations + 1,
            max_iterations < u32::MAX,
            colors@.len() == i,
            forall|k: int| 0 <= k < i ==> #[trigger] colors@[k] == color_spec(k, max_iterations as int),
        decreases max_iterations + 1 - i,
    {
        colors.push(color_for(i, max_iterations));
        i = i + 1;
    }
    colors
}

} // verus!
