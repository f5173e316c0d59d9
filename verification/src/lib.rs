//! Escape-time fractals on a pixel raster: a resumable engine that produces
//! iteration counts in bounded batches, the colour of a count, and the
//! rectangle that a mouse drag selects.

pub mod cursor;
pub mod orbit;
pub mod fractal;
pub mod julia_set;
pub mod color;
pub mod canvas;
pub mod event_handler;
pub mod util;
