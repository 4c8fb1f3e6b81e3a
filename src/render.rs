//! The frame renderer: maps each pixel to a point of the plane, evaluates it,
//! and colours it from a palette, one row per parallel task.
use vstd::prelude::*;
use vstd::assert_seqs_equal;
use rayon::iter::{IndexedParallelIterator, ParallelIterator};
use rayon::slice::ParallelSliceMut;
use crate::escape::{EscapeResult, escape_time, evaluate, lemma_saturated_point_fares_alike};
use crate::fixed::{Complex, clamp_i64, floor_div, saturate};
use crate::palette::{BLACK, build_palette, color_spec};

verus! {

/// The unit of a zoom factor: a zoom of 1 is `ZOOM_ONE`.
pub const ZOOM_ONE: u64 = 65536;

/// The width of the plane shown at zoom 1: 3.5.
pub const BASE_WIDTH: i64 = 252201579132747776;

/// The height of the plane shown at zoom 1: 2.
pub const BASE_HEIGHT: i64 = 144115188075855872;

/// The left edge of the default view: -2.5.
pub const DEFAULT_LEFT: i64 = -180143985094819840;

/// The top edge of the default view: -1.5.
pub const DEFAULT_TOP: i64 = -108086391056891904;

/// The centre of the default view: -0.75 on the real axis.
pub const DEFAULT_CENTER_X: i64 = -54043195528445952;

/// The centre of the default view: -0.5 on the imaginary axis.
pub const DEFAULT_CENTER_Y: i64 = -36028797018963968;

/// The number of steps after which a point counts as bounded.
pub const MAX_ITERATIONS: u32 = 1000;

/// The largest width or height of a frame.
pub const MAX_SIDE: usize = 4294967295;

/// A bound on the intermediate products of the pixel map: `2^110`.
pub const GRID_LIMIT: i128 = 1298074214633706907132624082305024;

/// Which part of the plane a frame shows: its centre, in fixed point, and a
/// zoom factor in units of `ZOOM_ONE`.
#[derive(Clone, Copy, Debug, PartialEq, Eq)]
pub struct Viewport {
    pub center_x: i64,
    pub center_y: i64,
    pub zoom: u64,
}

/// An affine map from pixels to the plane, one axis at a time: column `x`
/// lies at `origin_x + floor((base_x + step_x * x) / den_x)`, and row `y`
/// likewise on the imaginary axis.
#[derive(Clone, Copy, Debug, PartialEq, Eq)]
pub struct Grid {
    pub origin_x: i64,
    pub base_x: i128,
    pub step_x: i128,
    pub den_x: i128,
    pub origin_y: i64,
    pub base_y: i128,
    pub step_y: i128,
    pub den_y: i128,
}

/// The coordinate of pixel `k` along one axis.
pub open spec fn axis(origin: int, base: int, step: int, den: int, k: int) -> int {
    origin + (base + step * k) / den
}

/// Whether the map along one axis can be computed for `n` pixels without
/// overflow.
pub open spec fn axis_fits(base: int, step: int, den: int, n: int) -> bool {
    &&& den > 0
    &&& -GRID_LIMIT <= base <= GRID_LIMIT
    &&& 0 <= step
    &&& 0 <= n
    &&& step * n <= GRID_LIMIT
}

impl Grid {
    /// The exact point of the plane at pixel `(x, y)`.
    pub open spec fn point(self, x: int, y: int) -> (int, int) {
        (
            axis(self.origin_x as int, self.base_x as int, self.step_x as int, self.den_x as int, x),
            axis(self.origin_y as int, self.base_y as int, self.step_y as int, self.den_y as int, y),
        )
    }

    pub open spec fn fits(self, width: int, height: int) -> bool {
        &&& axis_fits(self.base_x as int, self.step_x as int, self.den_x as int, width)
        &&& axis_fits(self.base_y as int, self.step_y as int, self.den_y as int, height)
    }
}

/// The colour of pixel `(x, y)` of a frame.
pub open spec fn pixel_color(g: Grid, x: int, y: int, max: u32) -> u32 {
    match escape_time(g.point(x, y), max as nat) {
        EscapeResult::Escaped(n) => color_spec(n as int, max as int) as u32,
        EscapeResult::Bounded => BLACK,
    }
}

/// A whole frame, row after row from the top left.
pub open spec fn frame(g: Grid, width: int, height: int, max: u32) -> Seq<u32> {
    Seq::new((width * height) as nat, |i: int| pixel_color(g, i % width, i / width, max))
}

/// Whether `palette` holds the colour of every count from 0 to `max`.
pub open spec fn is_palette(palette: Seq<u32>, max: u32) -> bool {
    &&& palette.len() == max as int + 1
    &&& forall|i: int| 0 <= i <= max ==> #[trigger] palette[i] == color_spec(i, max as int)
}

/// A coordinate along one axis, forced into the range of a fixed-point value.
fn axis_coord(origin: i64, base: i128, step: i128, den: i128, k: usize, n: usize) -> (r: i64)
    requires
        axis_fits(base as int, step as int, den as int, n as int),
        k < n,
    ensures
        r == clamp_i64(axis(origin as int, base as int, step as int, den as int, k as int)),
{
    proof {
        assert(0 <= step * k <= step * n) by (nonlinear_arith)
            requires
                0 <= step,
                0 <= k < n,
        ;
    }
    let q: i128 = floor_div(base + step * k as i128, den);
    saturate(origin as i128 + q)
}

/// A step count never exceeds the number of steps allowed.
proof fn lemma_escape_count_in_range(c: (int, int), max: nat)
    ensures
        escape_time(c, max) matches EscapeResult::Escaped(n) ==> 1 <= n <= max,
    decreases max,
{
    if max > 0 {
        lemma_escape_count_in_range(c, (max - 1) as nat);
    }
}

/// Fills one row of a frame.
fn fill_row(row: &mut [u32], y: usize, width: usize, height: usize, g: &Grid, palette: &Vec<u32>, max: u32)
    requires
        old(row)@.len() == width,
        y < height,
        g.fits(width as int, height as int),
        is_palette(palette@, max),
    ensures
        final(row)@.len() == width,
        forall|x: int| 0 <= x < width ==> #[trigger] final(row)@[x] == pixel_color(*g, x, y as int, max),
{
    let cy: i64 = axis_coord(g.origin_y, g.base_y, g.step_y, g.den_y, y, height);
    let mut x: usize = 0;
    while x < width
        invariant
            row@.len() == width,
            x <= width,
            y < height,
            g.fits(width as int, height as int),
            is_palette(palette@, max),
            cy == clamp_i64(g.point(0, y as int).1),
            forall|k: int| 0 <= k < x ==> #[trigger] row@[k] == pixel_color(*g, k, y as int, max),
        decreases width - x,
    {
        let cx: i64 = axis_coord(g.origin_x, g.base_x, g.step_x, g.den_x, x, width);
        let c = Complex { re: cx, im: cy };
        let result = evaluate(c, max);
        proof {
            lemma_saturated_point_fares_alike(g.point(x as int, y as int), max as nat);
            lemma_escape_count_in_range(g.point(x as int, y as int), max as nat);
            assert(c@ == (clamp_i64(g.point(x as int, y as int).0), clamp_i64(g.point(x as int, y as int).1)));
        }
        let color: u32 = match result {
            EscapeResult::Escaped(n) => palette[n as usize],
            EscapeResult::Bounded => BLACK,
        };
        row[x] = color;
        x = x + 1;
    }
}

/// The map of a viewport: the frame spans `BASE_WIDTH / zoom` by
/// `BASE_HEIGHT / zoom` around the centre, so pixel `x` of `width` lies at
/// `center_x + BASE_WIDTH * (2x - width) / (2 * width * zoom)`.
pub open spec fn view_grid(v: Viewport, width: int, height: int) -> Grid {
    Grid {
        origin_x: v.center_x,
        base_x: (-BASE_WIDTH * width * ZOOM_ONE) as i128,
        step_x: (2 * BASE_WIDTH * ZOOM_ONE) as i128,
        den_x: (2 * width * v.zoom) as i128,
        origin_y: v.center_y,
        base_y: (-BASE_HEIGHT * height * ZOOM_ONE) as i128,
        step_y: (2 * BASE_HEIGHT * ZOOM_ONE) as i128,
        den_y: (2 * height * v.zoom) as i128,
    }
}

/// The map of the default view: pixel `x` of `width` lies at
/// `DEFAULT_LEFT + BASE_WIDTH * x / width`, pixel `y` of `height` at
/// `DEFAULT_TOP + BASE_HEIGHT * y / height`.
pub open spec fn default_grid(width: int, height: int) -> Grid {
    Grid {
        origin_x: DEFAULT_LEFT,
        base_x: 0,
        step_x: BASE_WIDTH as i128,
        den_x: width as i128,
        origin_y: DEFAULT_TOP,
        base_y: 0,
        step_y: BASE_HEIGHT as i128,
        den_y: height as i128,
    }
}

/// Whether a frame of this size can be held and mapped.
pub open spec fn frame_size_ok(width: int, height: int) -> bool {
    &&& 0 < width <= MAX_SIDE
    &&& 0 < height <= MAX_SIDE
    &&& width * height <= usize::MAX
}

fn make_view_grid(v: Viewport, width: usize, height: usize) -> (r: Grid)
    requires
        frame_size_ok(width as int, height as int),
        v.zoom > 0,
    ensures
        r == view_grid(v, width as int, height as int),
        r.fits(width as int, height as int),
{
    let w: i128 = width as i128;
    let h: i128 = height as i128;
    let z: i128 = v.zoom as i128;
    proof {
        assert(0 < 2 * w * z <= 2 * 0xffff_ffff * 0xffff_ffff_ffff_ffff) by (nonlinear_arith)
            requires 0 < w <= 0xffff_ffff, 0 < z <= 0xffff_ffff_ffff_ffff;
        assert(0 < 2 * h * z <= 2 * 0xffff_ffff * 0xffff_ffff_ffff_ffff) by (nonlinear_arith)
            requires 0 < h <= 0xffff_ffff, 0 < z <= 0xffff_ffff_ffff_ffff;
        assert(0 < w * (BASE_WIDTH * ZOOM_ONE) <= 0xffff_ffff * (BASE_WIDTH * ZOOM_ONE)) by (nonlinear_arith)
            requires 0 < w <= 0xffff_ffff, BASE_WIDTH * ZOOM_ONE > 0;
        assert(0 < h * (BASE_HEIGHT * ZOOM_ONE) <= 0xffff_ffff * (BASE_HEIGHT * ZOOM_ONE)) by (nonlinear_arith)
            requires 0 < h <= 0xffff_ffff, BASE_HEIGHT * ZOOM_ONE > 0;
        assert(0 < (2 * BASE_WIDTH * ZOOM_ONE) * w <= (2 * BASE_WIDTH * ZOOM_ONE) * 0xffff_ffff) by (nonlinear_arith)
            requires 0 < w <= 0xffff_ffff, BASE_WIDTH * ZOOM_ONE > 0;
        assert(0 < (2 * BASE_HEIGHT * ZOOM_ONE) * h <= (2 * BASE_HEIGHT * ZOOM_ONE) * 0xffff_ffff) by (nonlinear_arith)
            requires 0 < h <= 0xffff_ffff, BASE_HEIGHT * ZOOM_ONE > 0;
        assert(-BASE_WIDTH * width * ZOOM_ONE == -(w * (BASE_WIDTH * ZOOM_ONE))) by (nonlinear_arith)
            requires w == width as int;
        assert(-BASE_HEIGHT * height * ZOOM_ONE == -(h * (BASE_HEIGHT * ZOOM_ONE))) by (nonlinear_arith)
            requires h == height as int;
    }
    let bw: i128 = BASE_WIDTH as i128 * ZOOM_ONE as i128;
    let bh: i128 = BASE_HEIGHT as i128 * ZOOM_ONE as i128;
    Grid {
        origin_x: v.center_x,
        base_x: -(w * bw),
        step_x: 2 * bw,
        den_x: 2 * w * z,
        origin_y: v.center_y,
        base_y: -(h * bh),
        step_y: 2 * bh,
        den_y: 2 * h * z,
    }
}

fn make_default_grid(width: usize, height: usize) -> (r: Grid)
    requires
        frame_size_ok(width as int, height as int),
    ensures
        r == default_grid(width as int, height as int),
        r.fits(width as int, height as int),
{
    proof {
        assert(BASE_WIDTH * width <= BASE_WIDTH * 0xffff_ffff) by (nonlinear_arith)
            requires 0 < width <= 0xffff_ffff;
        assert(BASE_HEIGHT * height <= BASE_HEIGHT * 0xffff_ffff) by (nonlinear_arith)
            requires 0 < height <= 0xffff_ffff;
    }
    Grid {
        origin_x: DEFAULT_LEFT,
        base_x: 0,
        step_x: BASE_WIDTH as i128,
        den_x: width as i128,
        origin_y: DEFAULT_TOP,
        base_y: 0,
        step_y: BASE_HEIGHT as i128,
        den_y: height as i128,
    }
}

/// The point of the plane at pixel `(x, y)` of a `width` by `height` frame of
/// `view`, forced into the range of a fixed-point coordinate.
pub fn map_pixel(view: Viewport, width: usize, height: usize, x: usize, y: usize) -> (r: Complex)
    requires
        frame_size_ok(width as int, height as int),
        view.zoom > 0,
        x < width,
        y < height,
    ensures
        r@ == (
            clamp_i64(view_grid(view, width as int, height as int).point(x as int, y as int).0),
            clamp_i64(view_grid(view, width as int, height as int).point(x as int, y as int).1),
        ),
{
    let g = make_view_grid(view, width, height);
    let re: i64 = axis_coord(g.origin_x, g.base_x, g.step_x, g.den_x, x, width);
    let im: i64 = axis_coord(g.origin_y, g.base_y, g.step_y, g.den_y, y, height);
    Complex { re, im }
}

/// Fills every row of the buffer, rows in parallel.
///
/// Relies on rayon's `ParallelSliceMut::par_chunks_mut` with `enumerate` and
/// `for_each`: the buffer is cut into chunks of `width` items that do not
/// overlap, chunk `y` holding items `y * width` up to `y * width + width - 1`,
/// and `fill_row` is called once on each chunk with its index.
/// `par_chunks_mut` panics on a chunk size of 0.
#[verifier::external_body]
fn fill_rows(pixels: &mut Vec<u32>, width: usize, height: usize, g: &Grid, palette: &Vec<u32>, max: u32)
    requires
        old(pixels)@.len() == width * height,
        0 < width,
        g.fits(width as int, height as int),
        is_palette(palette@, max),
    ensures
        final(pixels)@.len() == width * height,
        forall|x: int, y: int|
            0 <= x < width && 0 <= y < height ==> final(pixels)@[y * width + x] == #[trigger] pixel_color(*g, x, y, max),
{
    pixels.par_chunks_mut(width).enumerate().for_each(|(y, row)| fill_row(row, y, width, height, g, palette, max));
}

fn render_grid(width: usize, height: usize, g: &Grid, max_iterations: u32) -> (r: Vec<u32>)
    requires
        frame_size_ok(width as int, height as int),
        g.fits(width as int, height as int),
        max_iterations < u32::MAX,
    ensures
        r@ == frame(*g, width as int, height as int, max_iterations),
{
    let palette = build_palette(max_iterations);
    let mut pixels: Vec<u32> = vec![BLACK; width * height];
    fill_rows(&mut pixels, width, height, g, &palette, max_iterations);
    proof {
        let w = width as int;
        let h = height as int;
        assert forall|i: int| 0 <= i < w * h implies pixels@[i] == pixel_color(*g, i % w, i / w, max_iterations) by {
            vstd::arithmetic::div_mod::lemma_fundamental_div_mod(i, w);
            vstd::arithmetic::div_mod::lemma_div_is_ordered(i, w * h, w);
            vstd::arithmetic::div_mod::lemma_div_multiples_vanish(h, w);
            vstd::arithmetic::div_mod::lemma_div_pos_is_pos(i, w);
            if i / w >= h {
                assert(w * (i / w) >= w * h) by (nonlinear_arith)
                    requires i / w >= h, w > 0;
            }
            assert(i / w * w + i % w == i) by (nonlinear_arith)
                requires i == w * (i / w) + i % w;
            assert(pixel_color(*g, i % w, i / w, max_iterations) == pixels@[(i / w) * w + i % w]);
        }
        assert_seqs_equal!(pixels@, frame(*g, w, h, max_iterations));
    }
    pixels
}

/// Renders the part of the plane that `view` shows into a `width` by `height`
/// buffer, row after row from the top left, with points taken as bounded
/// after `max_iterations` steps.
pub fn render_frame(width: usize, height: usize, view: Viewport, max_iterations: u32) -> (r: Vec<u32>)
    requires
        frame_size_ok(width as int, height as int),
        view.zoom > 0,
        max_iterations < u32::MAX,
    ensures
        r@ == frame(view_grid(view, width as int, height as int), width as int, height as int, max_iterations),
{
    let g = make_view_grid(view, width, height);
    render_grid(width, height, &g, max_iterations)
}

/// Renders the default view, which frames the whole set: the real axis
/// from -2.5 to 1 and the imaginary axis from -1.5 to 0.5.
pub fn render_mandelbrot(width: usize, height: usize) -> (r: Vec<u32>)
    requires
        frame_size_ok(width as int, height as int),
    ensures
        r@ == frame(default_grid(width as int, height as int), width as int, height as int, MAX_ITERATIONS),
{
    let g = make_default_grid(width, height);
    render_grid(width, height, &g, MAX_ITERATIONS)
}

/// Renders the view centred on `(center_x, center_y)` at `zoom` (in units of
/// `ZOOM_ONE`).
pub fn render_mandelbrot_with_params(width: usize, height: usize, center_x: i64, center_y: i64, zoom: u64) -> (r: Vec<u32>)
    requires
        frame_size_ok(width as int, height as int),
        zoom > 0,
    ensures
        r@ == frame(
            view_grid(Viewport { center_x, center_y, zoom }, width as int, height as int),
            width as int,
            height as int,
            MAX_ITERATIONS,
        ),
{
    render_frame(width, height, Viewport { center_x, center_y, zoom }, MAX_ITERATIONS)
}

} // verus!

verus! {

/// The viewport that frames the same region as the default view.
pub open spec fn default_viewport() -> Viewport {
    Viewport { center_x: DEFAULT_CENTER_X, center_y: DEFAULT_CENTER_Y, zoom: ZOOM_ONE }
}

/// A map centred on pixel `n / 2` is the same as one that starts at the edge
/// and is shifted by half the span.
proof fn lemma_centered_axis(b: int, half: int, n: int, z: int, k: int)
    requires
        b == 2 * half,
        n > 0,
        z > 0,
    ensures
        (-b * n * z + 2 * b * z * k) / (2 * n * z) == (b * k) / n - half,
{
    let q = (b * k) / n;
    let r = (b * k) % n;
    vstd::arithmetic::div_mod::lemma_fundamental_div_mod(b * k, n);
    assert(2 * b * z * k == 2 * z * (b * k)) by (nonlinear_arith);
    assert(2 * z * (n * q + r) == 2 * z * (n * q) + 2 * z * r) by (nonlinear_arith);
    assert((q - half) * (2 * n * z) == 2 * z * (n * q) - half * (2 * n * z)) by (nonlinear_arith);
    assert(half * (2 * n * z) == b * n * z) by (nonlinear_arith)
        requires
            b == 2 * half,
    ;
    assert(-b * n * z == -(b * n * z)) by (nonlinear_arith);
    assert(-b * n * z + 2 * b * z * k == (q - half) * (2 * n * z) + 2 * z * r);
    assert(0 <= 2 * z * r < 2 * n * z) by (nonlinear_arith)
        requires
            0 <= r < n,
            z > 0,
    ;
    vstd::arithmetic::div_mod::lemma_fundamental_div_mod_converse(
        -b * n * z + 2 * b * z * k,
        2 * n * z,
        q - half,
        2 * z * r,
    );
}

/// The default view and the view of `default_viewport` put every pixel on
/// the same point of the plane, so they render the same frame.
pub proof fn lemma_default_view_is_centered_view(width: int, height: int, max: u32)
    requires
        frame_size_ok(width, height),
    ensures
        frame(default_grid(width, height), width, height, max)
            == frame(view_grid(default_viewport(), width, height), width, height, max),
{
    let d = default_grid(width, height);
    let g = view_grid(default_viewport(), width, height);
    assert(0 < BASE_WIDTH * width * ZOOM_ONE <= BASE_WIDTH * 0xffff_ffff * ZOOM_ONE) by (nonlinear_arith)
        requires 0 < width <= 0xffff_ffff;
    assert(0 < BASE_HEIGHT * height * ZOOM_ONE <= BASE_HEIGHT * 0xffff_ffff * ZOOM_ONE) by (nonlinear_arith)
        requires 0 < height <= 0xffff_ffff;
    assert(0 < 2 * width * ZOOM_ONE <= 2 * 0xffff_ffff * ZOOM_ONE) by (nonlinear_arith)
        requires 0 < width <= 0xffff_ffff;
    assert(0 < 2 * height * ZOOM_ONE <= 2 * 0xffff_ffff * ZOOM_ONE) by (nonlinear_arith)
        requires 0 < height <= 0xffff_ffff;
    assert forall|x: int, y: int| #[trigger] d.point(x, y) == g.point(x, y) by {
        lemma_centered_axis(BASE_WIDTH as int, BASE_WIDTH / 2, width, ZOOM_ONE as int, x);
        lemma_centered_axis(BASE_HEIGHT as int, BASE_HEIGHT / 2, height, ZOOM_ONE as int, y);
        assert(-BASE_WIDTH * width * ZOOM_ONE + 2 * BASE_WIDTH * ZOOM_ONE * x
            == -BASE_WIDTH * width * ZOOM_ONE + (2 * BASE_WIDTH * ZOOM_ONE) * x) by (nonlinear_arith);
        assert(-BASE_HEIGHT * height * ZOOM_ONE + 2 * BASE_HEIGHT * ZOOM_ONE * y
            == -BASE_HEIGHT * height * ZOOM_ONE + (2 * BASE_HEIGHT * ZOOM_ONE) * y) by (nonlinear_arith);
    }
    assert_seqs_equal!(frame(d, width, height, max), frame(g, width, height, max), i => {
        assert(d.point(i % width, i / width) == g.point(i % width, i / width));
    });
}

proof fn lemma_halve_floor(a: int, d: int)
    requires
        d > 0,
    ensures
        a / (2 * d) == (a / d) / 2,
{
    let q = a / d;
    let r = a % d;
    vstd::arithmetic::div_mod::lemma_fundamental_div_mod(a, d);
    vstd::arithmetic::div_mod::lemma_fundamental_div_mod(q, 2);
    let q2 = q / 2;
    let r2 = q % 2;
    assert(a == q2 * (2 * d) + (d * r2 + r)) by (nonlinear_arith)
        requires
            a == d * q + r,
            q == 2 * q2 + r2,
    ;
    assert(0 <= d * r2 + r < 2 * d) by (nonlinear_arith)
        requires
            0 <= r < d,
            0 <= r2 < 2,
    ;
    vstd::arithmetic::div_mod::lemma_fundamental_div_mod_converse(a, 2 * d, q2, d * r2 + r);
}

/// The viewport `v` with its zoom doubled.
pub open spec fn zoomed_in(v: Viewport) -> Viewport {
    Viewport { zoom: (2 * v.zoom) as u64, ..v }
}

/// Doubling the zoom about a fixed centre halves (rounding down) every
/// pixel's offset from the centre, so the extreme corner pixels span half as
/// much of the plane, to within one unit of a coordinate.
pub proof fn lemma_double_zoom_halves_span(v: Viewport, width: int, height: int, x: int, y: int)
    requires
        frame_size_ok(width, height),
        0 < v.zoom,
        2 * v.zoom <= u64::MAX,
    ensures
        view_grid(zoomed_in(v), width, height).point(x, y).0 - v.center_x
            == (view_grid(v, width, height).point(x, y).0 - v.center_x) / 2,
        view_grid(zoomed_in(v), width, height).point(x, y).1 - v.center_y
            == (view_grid(v, width, height).point(x, y).1 - v.center_y) / 2,
        ({
            let near = view_grid(v, width, height).point(0, 0);
            let far = view_grid(v, width, height).point(width - 1, height - 1);
            let near2 = view_grid(zoomed_in(v), width, height).point(0, 0);
            let far2 = view_grid(zoomed_in(v), width, height).point(width - 1, height - 1);
            &&& -1 <= 2 * (far2.0 - near2.0) - (far.0 - near.0) <= 1
            &&& -1 <= 2 * (far2.1 - near2.1) - (far.1 - near.1) <= 1
        }),
{
    let z = v.zoom as int;
    assert(0 < BASE_WIDTH * width * ZOOM_ONE <= BASE_WIDTH * 0xffff_ffff * ZOOM_ONE) by (nonlinear_arith)
        requires 0 < width <= 0xffff_ffff;
    assert(0 < BASE_HEIGHT * height * ZOOM_ONE <= BASE_HEIGHT * 0xffff_ffff * ZOOM_ONE) by (nonlinear_arith)
        requires 0 < height <= 0xffff_ffff;
    assert(0 < 2 * width * (2 * z) == 2 * (2 * width * z) <= 4 * 0xffff_ffff * 0xffff_ffff_ffff_ffff) by (nonlinear_arith)
        requires 0 < width <= 0xffff_ffff, 0 < z, 2 * z <= 0xffff_ffff_ffff_ffff;
    assert(0 < 2 * height * (2 * z) == 2 * (2 * height * z) <= 4 * 0xffff_ffff * 0xffff_ffff_ffff_ffff) by (nonlinear_arith)
        requires 0 < height <= 0xffff_ffff, 0 < z, 2 * z <= 0xffff_ffff_ffff_ffff;
    let g = view_grid(v, width, height);
    lemma_halve_floor(g.base_x + g.step_x * x, g.den_x as int);
    lemma_halve_floor(g.base_y + g.step_y * y, g.den_y as int);
    lemma_halve_floor(g.base_x + g.step_x * 0, g.den_x as int);
    lemma_halve_floor(g.base_y + g.step_y * 0, g.den_y as int);
    lemma_halve_floor(g.base_x + g.step_x * (width - 1), g.den_x as int);
    lemma_halve_floor(g.base_y + g.step_y * (height - 1), g.den_y as int);
    let a0 = (g.base_x + g.step_x * 0) / (g.den_x as int);
    let a1 = (g.base_x + g.step_x * (width - 1)) / (g.den_x as int);
    let b0 = (g.base_y + g.step_y * 0) / (g.den_y as int);
    let b1 = (g.base_y + g.step_y * (height - 1)) / (g.den_y as int);
    vstd::arithmetic::div_mod::lemma_fundamental_div_mod(a0, 2);
    vstd::arithmetic::div_mod::lemma_fundamental_div_mod(a1, 2);
    vstd::arithmetic::div_mod::lemma_fundamental_div_mod(b0, 2);
    vstd::arithmetic::div_mod::lemma_fundamental_div_mod(b1, 2);
}

} // verus!
