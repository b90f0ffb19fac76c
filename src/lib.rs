//! Integer core of an animated fractal renderer: pixel colours and the
//! bytes they occupy, the constrained pixel coordinates of overlays, the
//! split of a frame's pixels among workers and the assembly of their results,
//! crosshair drawing, and parsing of time bases.
pub mod generator;
pub mod raster;
pub mod util;
pub mod output;
pub mod progress;
