//! The size of a canvas that holds a single line of laid-out glyphs.
use vstd::prelude::*;
use crate::font::ScaleFont;
use crate::geometry::Glyph;

verus! {

/// Whole pixels needed for a length of `v` units (1/64 pixel): rounded up,
/// and none for a length that is not positive.
pub open spec fn ceil_pixels(v: int) -> int {
    if v <= 0 {
        0
    } else {
        (v + 63) / 64
    }
}

/// Canvas width for `glyphs`: from the first glyph's x to the end of the
/// last glyph's advance, in whole pixels, plus `padding` on each side.
pub open spec fn canvas_width<F: ScaleFont>(font: &F, glyphs: Seq<Glyph>, padding: int) -> int {
    let first = glyphs[0];
    let last = glyphs.last();
    ceil_pixels(last.position.x + font.spec_h_advance(last.id) - first.position.x) + 2 * padding
}

/// Canvas height: one line of the font, in whole pixels, plus `padding`
/// above and below.
pub open spec fn canvas_height<F: ScaleFont>(font: &F, padding: int) -> int {
    ceil_pixels(font.spec_height()) + 2 * padding
}

/// Whole pixels for a length given in units.
fn pixels_ceil(v: i128) -> (r: i128)
    requires
        v < i128::MAX - 63,
    ensures
        r == ceil_pixels(v as int),
{
    if v <= 0 {
        0
    } else {
        (v + 63) / 64
    }
}

/// The size of a canvas for one line of `glyphs`, with `padding` pixels on
/// every side: `None` when there are no glyphs, or when a side does not fit
/// in `u32`.
pub fn canvas_size<F: ScaleFont>(font: &F, glyphs: &Vec<Glyph>, padding: u32) -> (r: Option<
    (u32, u32),
>)
    ensures
        r is Some <==> glyphs@.len() > 0 && canvas_width(font, glyphs@, padding as int)
            <= u32::MAX && canvas_height(font, padding as int) <= u32::MAX,
        r matches Some((w, h)) ==> w == canvas_width(font, glyphs@, padding as int) && h
            == canvas_height(font, padding as int),
{
    if glyphs.len() == 0 {
        return None;
    }
    let first = glyphs[0];
    let last = glyphs[glyphs.len() - 1];
    let advance = font.h_advance(last.id);
    let height = font.height();
    let extent: i128 = last.position.x as i128 + advance as i128 - first.position.x as i128;
    let width_px = pixels_ceil(extent);
    let height_px = pixels_ceil(height as i128);
    let margin: i128 = 2 * padding as i128;
    if width_px + margin > u32::MAX as i128 || height_px + margin > u32::MAX as i128 {
        return None;
    }
    Some(((width_px + margin) as u32, (height_px + margin) as u32))
}

} // verus!
