//! Paragraph layout and glyph compositing in integer fixed-point coordinates.
//!
//! Positions, advances and kerning offsets are expressed in 1/64 of a pixel.
//! The layouter turns text into positioned glyphs using a font service
//! (`ScaleFont`); the compositor blends per-glyph coverage masks into an RGBA
//! canvas.
use vstd::prelude::*;

pub mod canvas;
pub mod chars;
pub mod extent;
pub mod font;
pub mod geometry;
pub mod layout;

pub use canvas::{Canvas, Colour, CoverageMask, Rgba, FULL_COVERAGE};
pub use extent::canvas_size;
pub use font::{FontTable, KernPair, ScaleFont, NOTDEF_ID};
pub use geometry::{point, Glyph, GlyphId, Point, UNITS_PER_PIXEL};
pub use layout::{layout_paragraph, MAX_TEXT_CHARS};
