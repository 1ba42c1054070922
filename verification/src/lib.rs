//! Verified core of a small fractal renderer.
//!
//! The crate holds the control structure of the renderer: how many steps an
//! escape-time orbit runs, which basin colour a converging orbit receives,
//! how a colour is put together from channel levels, where each pixel lands
//! in the output image, how a zoom window is kept inside its bounds, and
//! which frames a zoom animation consists of.
//!
//! The arithmetic is the caller's. Complex steps, magnitude tests, colour
//! gradients and coordinates are passed in as closures over types of the
//! caller's choosing, and every contract speaks of them through the values
//! they return. The contracts therefore hold for whatever arithmetic is
//! used, rounding included. Where a law needs more, it says so: some hold for
//! closures that behave as functions, some for closures that compute exactly.
//!
//! - [`escape`]: escape-time iteration and the normalised escape value.
//! - [`newton`]: root-convergence iteration and its basin colours.
//! - [`colour`]: colours, the two colour maps and the basin palette.
//! - [`raster`]: the pixel sweep into an image of the `image` crate. The
//!   three calls into that crate are the only code here that is assumed
//!   rather than proved.
//! - [`viewport`]: the window of a zoom frame and its correction.
//! - [`frames`]: the frames of a zoom animation.
//! - [`value`]: exact fractions between zero and one.
//! - [`kernel`]: what it means for a closure to behave as a function.

pub mod colour;
pub mod escape;
pub mod frames;
pub mod kernel;
pub mod newton;
pub mod raster;
pub mod value;
pub mod viewport;

pub use crate::colour::{ColourMaps, RgbColour};
pub use crate::value::NormalizedValue;
pub use crate::raster::{draw_function, draw_pixels};
pub use crate::viewport::{compute_viewport, ViewportRect};
