//! The font service used by the layouter, and a table-driven font.
use vstd::prelude::*;
use crate::geometry::GlyphId;

verus! {

/// A font at a fixed scale: vertical metrics, character mapping, advances and
/// kerning, all in 1/64 of a pixel.
pub trait ScaleFont {
    /// Distance from the top of a line to its baseline.
    spec fn spec_ascent(&self) -> int;

    /// Intrinsic height of a line.
    spec fn spec_height(&self) -> int;

    /// Extra space between two lines.
    spec fn spec_line_gap(&self) -> int;

    /// The glyph that stands for `c`.
    spec fn spec_glyph_id(&self, c: char) -> GlyphId;

    /// Horizontal advance of a glyph.
    spec fn spec_h_advance(&self, id: GlyphId) -> int;

    /// Horizontal adjustment between two consecutive glyphs.
    spec fn spec_kern(&self, first: GlyphId, second: GlyphId) -> int;

    fn ascent(&self) -> (r: i32)
        ensures
            r == self.spec_ascent(),
    ;

    fn height(&self) -> (r: i32)
        ensures
            r == self.spec_height(),
    ;

    fn line_gap(&self) -> (r: i32)
        ensures
            r == self.spec_line_gap(),
    ;

    fn glyph_id(&self, c: char) -> (r: GlyphId)
        ensures
            r == self.spec_glyph_id(c),
    ;

    fn h_advance(&self, id: GlyphId) -> (r: i32)
        ensures
            r == self.spec_h_advance(id),
    ;

    fn kern(&self, first: GlyphId, second: GlyphId) -> (r: i32)
        ensures
            r == self.spec_kern(first, second),
    ;
}

/// The glyph used for characters that a font does not map.
pub const NOTDEF_ID: u16 = 0;

/// A kerning adjustment for one ordered pair of glyphs.
#[derive(Clone, Copy, Debug, PartialEq, Eq, Structural)]
pub struct KernPair {
    pub first: GlyphId,
    pub second: GlyphId,
    pub offset: i32,
}

/// A font given by tables. The first entry for a character or a pair wins;
/// unmapped characters give glyph `NOTDEF_ID`, and missing advances and kerning pairs
/// count as zero. `advances` is indexed by glyph id.
pub struct FontTable {
    pub ascent: i32,
    pub height: i32,
    pub line_gap: i32,
    pub glyph_map: Vec<(char, GlyphId)>,
    pub advances: Vec<i32>,
    pub kerning: Vec<KernPair>,
}

/// The glyph of the first entry for `c`, or glyph `NOTDEF_ID`.
pub open spec fn lookup_glyph(map: Seq<(char, GlyphId)>, c: char) -> GlyphId
    decreases map.len(),
{
    if map.len() == 0 {
        GlyphId(NOTDEF_ID)
    } else if map[0].0 == c {
        map[0].1
    } else {
        lookup_glyph(map.drop_first(), c)
    }
}

/// The offset of the first entry for the pair, or zero.
pub open spec fn lookup_kern(pairs: Seq<KernPair>, first: GlyphId, second: GlyphId) -> int
    decreases pairs.len(),
{
    if pairs.len() == 0 {
        0
    } else if pairs[0].first == first && pairs[0].second == second {
        pairs[0].offset as int
    } else {
        lookup_kern(pairs.drop_first(), first, second)
    }
}

/// The advance stored for `id`, or zero.
pub open spec fn lookup_advance(advances: Seq<i32>, id: GlyphId) -> int {
    if (id.0 as int) < advances.len() {
        advances[id.0 as int] as int
    } else {
        0
    }
}

impl ScaleFont for FontTable {
    open spec fn spec_ascent(&self) -> int {
        self.ascent as int
    }

    open spec fn spec_height(&self) -> int {
        self.height as int
    }

    open spec fn spec_line_gap(&self) -> int {
        self.line_gap as int
    }

    open spec fn spec_glyph_id(&self, c: char) -> GlyphId {
        lookup_glyph(self.glyph_map@, c)
    }

    open spec fn spec_h_advance(&self, id: GlyphId) -> int {
        lookup_advance(self.advances@, id)
    }

    open spec fn spec_kern(&self, first: GlyphId, second: GlyphId) -> int {
        lookup_kern(self.kerning@, first, second)
    }

    fn ascent(&self) -> (r: i32) {
        self.ascent
    }

    fn height(&self) -> (r: i32) {
        self.height
    }

    fn line_gap(&self) -> (r: i32) {
        self.line_gap
    }

    fn glyph_id(&self, c: char) -> (r: GlyphId) {
        let n = self.glyph_map.len();
        let mut i: usize = 0;
        assert(self.glyph_map@.skip(0) =~= self.glyph_map@);
        while i < n
            invariant
                n == self.glyph_map@.len(),
                i <= n,
                lookup_glyph(self.glyph_map@, c) == lookup_glyph(self.glyph_map@.skip(i as int), c),
            decreases n - i,
        {
            let entry = self.glyph_map[i];
            assert(self.glyph_map@.skip(i as int).drop_first() =~= self.glyph_map@.skip(i + 1));
            if entry.0 == c {
                return entry.1;
            }
            i = i + 1;
        }
        GlyphId(NOTDEF_ID)
    }

    fn h_advance(&self, id: GlyphId) -> (r: i32) {
        if (id.0 as usize) < self.advances.len() {
            self.advances[id.0 as usize]
        } else {
            0
        }
    }

    fn kern(&self, first: GlyphId, second: GlyphId) -> (r: i32) {
        let n = self.kerning.len();
        let mut i: usize = 0;
        assert(self.kerning@.skip(0) =~= self.kerning@);
        while i < n
            invariant
                n == self.kerning@.len(),
                i <= n,
                lookup_kern(self.kerning@, first, second) == lookup_kern(
                    self.kerning@.skip(i as int),
                    first,
                    second,
                ),
            decreases n - i,
        {
            let pair = self.kerning[i];
            assert(self.kerning@.skip(i as int).drop_first() =~= self.kerning@.skip(i + 1));
            if pair.first == first && pair.second == second {
                return pair.offset;
            }
            i = i + 1;
        }
        0
    }
}

} // verus!
