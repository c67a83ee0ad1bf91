//! A path tracer's integer-valued core: image and render configuration,
//! the plain-text PPM encoding of a frame, and the pixel schedules that fill
//! a frame in series, row by row in parallel, or all at once in parallel.

pub mod number;
pub mod options;
pub mod ppm;
pub mod render;
