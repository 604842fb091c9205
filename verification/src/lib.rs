//! A verified core for the BDF (Glyph Bitmap Distribution Format) bitmap-font
//! text format: a line-oriented parser that turns BDF text into a structured
//! font document, and two geometry extractors that turn a glyph's packed
//! bitmap rows into unit-square polygons and into horizontal stroke segments.

pub mod curves;
pub mod font;
pub mod geometry;
pub mod keywords;
pub mod laws;
pub mod numbers;
pub mod parser;
pub mod rects;
pub mod text;
