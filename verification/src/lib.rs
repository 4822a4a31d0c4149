//! The integer core of a Mandelbrot renderer: the count of the escape-time
//! algorithm, packed colours and palettes, and the composition of a frame
//! from per-pixel escape times.

pub mod color;
pub mod escape;
pub mod frame;
