//! Converts a decoded raster image into an ASCII-art rendering: pixels are
//! sampled on a stride grid, each sampled pixel's brightness picks a character
//! from a caller-supplied palette, and the result is a sequence of text lines.

pub mod decode;
pub mod grid;
pub mod palette;
pub mod render;
