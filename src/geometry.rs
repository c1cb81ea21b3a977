//! Points and positioned glyphs.
use vstd::prelude::*;

verus! {

/// Number of coordinate units in one pixel.
pub const UNITS_PER_PIXEL: i64 = 64;

/// A position or offset, in 1/64 of a pixel.
#[derive(Clone, Copy, Debug, PartialEq, Eq, Structural)]
pub struct Point {
    pub x: i64,
    pub y: i64,
}

/// Builds a point from its two coordinates.
pub fn point(x: i64, y: i64) -> (r: Point)
    ensures
        r == (Point { x, y }),
{
    Point { x, y }
}

/// The identity of a glyph within a font.
#[derive(Clone, Copy, Debug, PartialEq, Eq, Structural)]
pub struct GlyphId(pub u16);

/// A glyph placed at a pen position (the baseline anchor).
#[derive(Clone, Copy, Debug, PartialEq, Eq, Structural)]
pub struct Glyph {
    pub id: GlyphId,
    pub position: Point,
}

/// A glyph placement with mathematical coordinates.
pub struct Placement {
    pub id: GlyphId,
    pub x: int,
    pub y: int,
}

impl View for Glyph {
    type V = Placement;

    open spec fn view(&self) -> Placement {
        Placement { id: self.id, x: self.position.x as int, y: self.position.y as int }
    }
}

/// The placements of a sequence of glyphs.
pub open spec fn placements_of(glyphs: Seq<Glyph>) -> Seq<Placement> {
    glyphs.map_values(|g: Glyph| g@)
}

} // verus!
