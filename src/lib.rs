//! An escape-time renderer of the Mandelbrot set.
//!
//! Points of the plane are fixed-point numbers (see [`fixed`]); a frame is a
//! row-major buffer of packed `0xRRGGBB` colours.
use vstd::prelude::*;

pub mod escape;
pub mod fixed;
pub mod palette;
pub mod render;

pub use escape::{EscapeResult, evaluate};
pub use fixed::{Complex, ONE};
pub use palette::{BLACK, build_palette, color_for};
pub use render::{Viewport, map_pixel, render_frame, render_mandelbrot, render_mandelbrot_with_params};

verus! {

} // verus!
