use mandelbrot::escape::{EscapeResult, evaluate};
use mandelbrot::fixed::{Complex, ONE};
use mandelbrot::palette::{BLACK, build_palette, color_for};
use mandelbrot::render::{
    DEFAULT_CENTER_X, DEFAULT_CENTER_Y, MAX_ITERATIONS, Viewport, ZOOM_ONE, map_pixel, render_frame,
    render_mandelbrot, render_mandelbrot_with_params,
};

fn point(re: f64, im: f64) -> Complex {
    Complex { re: (re * ONE as f64) as i64, im: (im * ONE as f64) as i64 }
}

#[test]
fn far_point_escapes_on_first_step() {
    assert_eq!(evaluate(point(5.0, 0.0), 1000), EscapeResult::Escaped(1));
    assert_eq!(evaluate(point(5.0, 0.0), 1), EscapeResult::Escaped(1));
    assert_eq!(evaluate(point(-1.5, 1.5), 50), EscapeResult::Escaped(1));
    assert_eq!(evaluate(Complex { re: i64::MIN, im: i64::MIN }, 10), EscapeResult::Escaped(1));
}

#[test]
fn point_near_the_radius_escapes_later() {
    // 1 + 0i: 1, 2, 5: outside after the third step
    assert_eq!(evaluate(point(1.0, 0.0), 100), EscapeResult::Escaped(3));
    // -2 + 0i: 4, 2, 2, ...: stays on the radius
    assert_eq!(evaluate(point(-2.0, 0.0), 100), EscapeResult::Bounded);
}

#[test]
fn origin_is_bounded() {
    for max in [1u32, 2, 10, 1000, 1500] {
        assert_eq!(evaluate(point(0.0, 0.0), max), EscapeResult::Bounded);
    }
}

#[test]
fn no_steps_means_bounded() {
    assert_eq!(evaluate(point(5.0, 0.0), 0), EscapeResult::Bounded);
}

#[test]
fn cardioid_point_is_bounded() {
    assert_eq!(evaluate(point(-0.5, 0.0), 1000), EscapeResult::Bounded);
    assert_eq!(evaluate(point(-1.0, 0.0), 1000), EscapeResult::Bounded);
}

#[test]
fn bounded_count_is_black() {
    for max in [0u32, 1, 6, 1000, u32::MAX] {
        assert_eq!(color_for(max, max), BLACK);
    }
}

#[test]
fn zero_count_is_red() {
    for max in [1u32, 6, 1000, u32::MAX] {
        assert_eq!(color_for(0, max), 0xFF0000);
    }
}

#[test]
fn sector_colors() {
    assert_eq!(color_for(1, 6), 0xFFFF00);
    assert_eq!(color_for(2, 6), 0x00FF00);
    assert_eq!(color_for(3, 6), 0x00FFFF);
    assert_eq!(color_for(4, 6), 0x0000FF);
    assert_eq!(color_for(5, 6), 0xFF00FF);
}

#[test]
fn color_within_a_sector_is_rounded() {
    // hue 1/12: halfway through sector 0, 127.5 rounds up
    assert_eq!(color_for(1, 12), 0xFF8000);
    // hue 1/1000: f = 0.006, 1.53 rounds to 2
    assert_eq!(color_for(1, 1000), 0xFF0200);
    // hue 3/12: halfway through sector 1, red falls to 127.5, rounded to 128
    assert_eq!(color_for(3, 12), 0x80FF00);
}

#[test]
fn palette_lists_every_count() {
    let palette = build_palette(6);
    assert_eq!(palette, vec![0xFF0000, 0xFFFF00, 0x00FF00, 0x00FFFF, 0x0000FF, 0xFF00FF, BLACK]);
    let palette = build_palette(0);
    assert_eq!(palette, vec![BLACK]);
    let palette = build_palette(1000);
    assert_eq!(palette.len(), 1001);
    for (i, c) in palette.iter().enumerate() {
        assert_eq!(*c, color_for(i as u32, 1000));
    }
}

#[test]
fn render_is_deterministic() {
    let a = render_mandelbrot_with_params(64, 48, -ONE / 2, 0, ZOOM_ONE * 3);
    let b = render_mandelbrot_with_params(64, 48, -ONE / 2, 0, ZOOM_ONE * 3);
    assert_eq!(a, b);
    assert_eq!(render_mandelbrot(50, 40), render_mandelbrot(50, 40));
}

#[test]
fn default_view_matches_centered_view() {
    let a = render_mandelbrot(80, 60);
    let b = render_mandelbrot_with_params(80, 60, DEFAULT_CENTER_X, DEFAULT_CENTER_Y, ZOOM_ONE);
    assert_eq!(a, b);
    let a = render_mandelbrot(33, 17);
    let b = render_mandelbrot_with_params(33, 17, DEFAULT_CENTER_X, DEFAULT_CENTER_Y, ZOOM_ONE);
    assert_eq!(a, b);
}

#[test]
fn one_pixel_frame() {
    assert_eq!(render_mandelbrot(1, 1).len(), 1);
    // the single pixel is the top left corner of the view: -1.75 - 1i
    let view = Viewport { center_x: 0, center_y: 0, zoom: ZOOM_ONE };
    assert_eq!(map_pixel(view, 1, 1, 0, 0), Complex { re: -ONE * 7 / 4, im: -ONE });
    let frame = render_mandelbrot_with_params(1, 1, 0, 0, ZOOM_ONE);
    let expected = match evaluate(Complex { re: -ONE * 7 / 4, im: -ONE }, MAX_ITERATIONS) {
        EscapeResult::Escaped(n) => color_for(n, MAX_ITERATIONS),
        EscapeResult::Bounded => BLACK,
    };
    assert_eq!(frame, vec![expected]);
    assert_ne!(expected, BLACK);
}

#[test]
fn frame_has_one_value_per_pixel() {
    assert_eq!(render_mandelbrot(7, 3).len(), 21);
    let view = Viewport { center_x: 0, center_y: 0, zoom: ZOOM_ONE };
    assert_eq!(render_frame(5, 9, view, 20).len(), 45);
}

#[test]
fn default_view_scenario() {
    let frame = render_mandelbrot(800, 600);
    assert_eq!(frame.len(), 800 * 600);
    // column 457 lies at -2.5 + 3.5 * 457 / 800 = -0.50625, row 450 at 0
    assert_eq!(frame[450 * 800 + 457], BLACK);
    // the top left corner, -2.5 - 1.5i, escapes at once
    assert_eq!(frame[0], color_for(1, MAX_ITERATIONS));
    // (2, 2) lies in the centre of a view centred on it
    let frame = render_mandelbrot_with_params(800, 600, 2 * ONE, 2 * ONE, ZOOM_ONE);
    assert_ne!(frame[300 * 800 + 400], BLACK);
    assert_eq!(frame[300 * 800 + 400], color_for(1, MAX_ITERATIONS));
}

#[test]
fn pixel_map_values() {
    let view = Viewport { center_x: -ONE / 2, center_y: 0, zoom: ZOOM_ONE };
    // the centre pixel lies on the centre
    assert_eq!(map_pixel(view, 800, 600, 400, 300), Complex { re: -ONE / 2, im: 0 });
    // the top left corner lies half the base extent away: -2.25 - 1i
    assert_eq!(map_pixel(view, 800, 600, 0, 0), Complex { re: -ONE * 9 / 4, im: -ONE });
}

#[test]
fn doubling_zoom_halves_span() {
    let near = Viewport { center_x: -ONE / 2, center_y: ONE / 8, zoom: ZOOM_ONE };
    let far = Viewport { zoom: 2 * ZOOM_ONE, ..near };
    let a0 = map_pixel(near, 800, 600, 0, 0);
    let a1 = map_pixel(near, 800, 600, 799, 599);
    let b0 = map_pixel(far, 800, 600, 0, 0);
    let b1 = map_pixel(far, 800, 600, 799, 599);
    let span_re = a1.re as i128 - a0.re as i128;
    let span_im = a1.im as i128 - a0.im as i128;
    let half_re = b1.re as i128 - b0.re as i128;
    let half_im = b1.im as i128 - b0.im as i128;
    assert!((2 * half_re - span_re).abs() <= 1);
    assert!((2 * half_im - span_im).abs() <= 1);
    assert!(span_re > 3 * ONE as i128);
}

#[test]
fn far_zoom_out_saturates() {
    let view = Viewport { center_x: 0, center_y: 0, zoom: 1 };
    assert_eq!(map_pixel(view, 10, 10, 0, 0), Complex { re: i64::MIN, im: i64::MIN });
    let frame = render_mandelbrot_with_params(4, 4, 0, 0, 1);
    assert_eq!(frame[0], color_for(1, MAX_ITERATIONS));
}
