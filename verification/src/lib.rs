//! A tiny text-icon library: a fixed bitmap-font glyph atlas and a 32x32
//! RGBA rasterizer that lays out up to five lines of text, centers them on
//! the canvas, draws a background box behind each line, and composites the
//! glyph pixels over it, last write wins.

pub mod atlas;
pub mod icongen;
pub mod laws;
