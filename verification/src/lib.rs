//! Rendering of pre-compiled bitmap fonts.
//!
//! A font is a sorted glyph table plus one packed bit blob. The library looks
//! glyphs up, decodes their bitmaps into drawing operations, and lays out
//! strings: every function computes plain values (operations, positions,
//! metrics) that a caller forwards to its drawing surface in order.

pub mod geometry;
pub mod ops;
pub mod font;
pub mod text;

pub use font::{BdfFont, BdfGlyph};
pub use geometry::{Point, Rectangle, Size};
pub use ops::{next_step, DrawOp, NextStep};
pub use text::{Baseline, BdfTextStyle, DecorationColor, TextMetrics};
