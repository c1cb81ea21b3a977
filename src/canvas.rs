//! The RGBA canvas and the compositing of glyph coverage masks onto it.
use vstd::prelude::*;
use vstd::arithmetic::div_mod::{
    lemma_fundamental_div_mod,
    lemma_fundamental_div_mod_converse_div,
    lemma_fundamental_div_mod_converse_mod,
};

verus! {

/// Coverage value of a pixel that a glyph's outline covers entirely.
pub const FULL_COVERAGE: u16 = 65535;

/// One pixel: three colour channels and alpha.
#[derive(Clone, Copy, Debug, PartialEq, Eq, Structural)]
pub struct Rgba {
    pub r: u8,
    pub g: u8,
    pub b: u8,
    pub a: u8,
}

/// A foreground colour.
#[derive(Clone, Copy, Debug, PartialEq, Eq, Structural)]
pub struct Colour {
    pub r: u8,
    pub g: u8,
    pub b: u8,
}

/// The rasterization of one glyph: a rectangle of the canvas whose top-left
/// pixel is (`min_x`, `min_y`), with one coverage value per pixel, row by row.
/// A coverage value `v` stands for the fraction `v / FULL_COVERAGE`.
pub struct CoverageMask {
    pub min_x: u32,
    pub min_y: u32,
    pub width: u32,
    pub height: u32,
    pub coverage: Vec<u16>,
}

impl CoverageMask {
    /// One coverage value for each pixel of the rectangle.
    pub open spec fn wf(&self) -> bool {
        self.coverage@.len() == self.width * self.height
    }

    /// Whether canvas pixel (x, y) lies in the rectangle.
    pub open spec fn covers(&self, x: int, y: int) -> bool {
        self.min_x <= x < self.min_x + self.width && self.min_y <= y < self.min_y + self.height
    }

    /// Position in `coverage` of canvas pixel (x, y).
    pub open spec fn index_of(&self, x: int, y: int) -> int {
        (y - self.min_y) * self.width + (x - self.min_x)
    }

    /// Whether the rectangle lies inside a canvas of the given size.
    pub open spec fn fits(&self, width: int, height: int) -> bool {
        self.min_x + self.width <= width && self.min_y + self.height <= height
    }
}

/// Whether two masks share no canvas pixel.
pub open spec fn disjoint(m1: CoverageMask, m2: CoverageMask) -> bool {
    forall|x: int, y: int| !(#[trigger] m1.covers(x, y) && #[trigger] m2.covers(x, y))
}

/// Alpha contributed by a coverage value: `v * 255 / FULL_COVERAGE`,
/// truncated.
pub open spec fn alpha_gain(v: u16) -> int {
    v * 255 / (FULL_COVERAGE as int)
}

/// A pixel after a glyph covers it by `v`: the colour channels become the
/// foreground colour, and alpha grows by the gain, saturating at 255.
pub open spec fn blend(p: Rgba, colour: Colour, v: u16) -> Rgba {
    Rgba {
        r: colour.r,
        g: colour.g,
        b: colour.b,
        a: if p.a + alpha_gain(v) > 255 {
            255
        } else {
            (p.a + alpha_gain(v)) as u8
        },
    }
}

/// Row-major pixels of a canvas `width` pixels wide, after blending the
/// first `done` pixels of the mask (in its own row-major order).
pub open spec fn composited_upto(
    pixels: Seq<Rgba>,
    width: int,
    m: CoverageMask,
    colour: Colour,
    done: int,
) -> Seq<Rgba> {
    Seq::new(
        pixels.len(),
        |i: int|
            {
                let x = i % width;
                let y = i / width;
                if m.covers(x, y) && m.index_of(x, y) < done {
                    blend(pixels[i], colour, m.coverage@[m.index_of(x, y)])
                } else {
                    pixels[i]
                }
            },
    )
}

/// Row-major pixels of a canvas `width` pixels wide after compositing `m`:
/// each covered pixel is blended with its coverage, the others stay.
pub open spec fn composited(
    pixels: Seq<Rgba>,
    width: int,
    m: CoverageMask,
    colour: Colour,
) -> Seq<Rgba> {
    Seq::new(
        pixels.len(),
        |i: int|
            {
                let x = i % width;
                let y = i / width;
                if m.covers(x, y) {
                    blend(pixels[i], colour, m.coverage@[m.index_of(x, y)])
                } else {
                    pixels[i]
                }
            },
    )
}

/// Row-major pixels after compositing every mask of `masks`, in order.
pub open spec fn composited_all(
    pixels: Seq<Rgba>,
    width: int,
    masks: Seq<CoverageMask>,
    colour: Colour,
) -> Seq<Rgba>
    decreases masks.len(),
{
    if masks.len() == 0 {
        pixels
    } else {
        composited(
            composited_all(pixels, width, masks.drop_last(), colour),
            width,
            masks.last(),
            colour,
        )
    }
}

/// The fully transparent pixel that a new canvas holds.
pub open spec fn transparent() -> Rgba {
    Rgba { r: 0, g: 0, b: 0, a: 0 }
}

/// What a canvas holds: its size and its pixels, row by row.
pub struct CanvasView {
    pub width: nat,
    pub height: nat,
    pub pixels: Seq<Rgba>,
}

/// A grid of RGBA pixels, stored row by row.
pub struct Canvas {
    width: u32,
    height: u32,
    pixels: Vec<Rgba>,
}

impl View for Canvas {
    type V = CanvasView;

    closed spec fn view(&self) -> CanvasView {
        CanvasView { width: self.width as nat, height: self.height as nat, pixels: self.pixels@ }
    }
}

/// `i` is the row-major index of pixel (x, y) in rows of `width` pixels.
proof fn lemma_split_index(i: int, width: int, x: int, y: int)
    requires
        width > 0,
        0 <= x < width,
        i == y * width + x,
    ensures
        i % width == x,
        i / width == y,
{
    lemma_fundamental_div_mod_converse_mod(i, width, y, x);
    lemma_fundamental_div_mod_converse_div(i, width, y, x);
}

proof fn lemma_gain_bounded(v: u16)
    ensures
        0 <= alpha_gain(v) <= 255,
{
    assert(0 <= v * 255 / 65535 <= 255) by (nonlinear_arith)
        requires
            0 <= v <= 65535,
    ;
}

impl Canvas {
    /// The pixel count matches the size.
    pub closed spec fn wf(&self) -> bool {
        self.pixels@.len() == self.width * self.height
    }

    /// A canvas of the given size, every pixel transparent.
    pub fn new(width: u32, height: u32) -> (r: Canvas)
        requires
            width * height <= usize::MAX,
        ensures
            r.wf(),
            r@.width == width,
            r@.height == height,
            r@.pixels == Seq::new((width * height) as nat, |i: int| transparent()),
    {
        let n: usize = width as usize * height as usize;
        let mut pixels: Vec<Rgba> = Vec::new();
        let mut i: usize = 0;
        while i < n
            invariant
                i <= n,
                n == width * height,
                pixels@ == Seq::new(i as nat, |j: int| transparent()),
            decreases n - i,
        {
            pixels.push(Rgba { r: 0, g: 0, b: 0, a: 0 });
            i = i + 1;
            assert(pixels@ =~= Seq::new(i as nat, |j: int| transparent()));
        }
        Canvas { width, height, pixels }
    }

    pub fn width(&self) -> (r: u32)
        ensures
            r == self@.width,
    {
        self.width
    }

    pub fn height(&self) -> (r: u32)
        ensures
            r == self@.height,
    {
        self.height
    }

    /// The pixel at column `x` of row `y`.
    pub fn get_pixel(&self, x: u32, y: u32) -> (r: Rgba)
        requires
            self.wf(),
            x < self@.width,
            y < self@.height,
        ensures
            r == self@.pixels[y * self@.width + x],
    {
        let total = self.pixels.len();
        proof {
            assert(y * self.width + x < self.width * self.height) by (nonlinear_arith)
                requires
                    x < self.width,
                    y < self.height,
            ;
        }
        self.pixels[y as usize * self.width as usize + x as usize]
    }

    /// Blends one glyph's coverage into the canvas: each covered pixel takes
    /// the foreground colour and gains alpha, saturating at 255.
    pub fn composite(&mut self, mask: &CoverageMask, colour: Colour)
        requires
            old(self).wf(),
            mask.wf(),
            mask.fits(old(self)@.width as int, old(self)@.height as int),
        ensures
            final(self).wf(),
            final(self)@.width == old(self)@.width,
            final(self)@.height == old(self)@.height,
            final(self)@.pixels == composited(
                old(self)@.pixels,
                old(self)@.width as int,
                *mask,
                colour,
            ),
    {
        let ghost start = self.pixels@;
        let w: usize = self.width as usize;
        let mw: usize = mask.width as usize;
        let mh: usize = mask.height as usize;
        let total = self.pixels.len();
        let clen = mask.coverage.len();
        assert(composited_upto(start, w as int, *mask, colour, 0) =~= start);
        let mut my: usize = 0;
        while my < mh
            invariant
                self.wf(),
                self.width == old(self).width,
                self.height == old(self).height,
                start == old(self).pixels@,
                w == self.width,
                mw == mask.width,
                mh == mask.height,
                mask.wf(),
                mask.fits(self.width as int, self.height as int),
                my <= mh,
                total == self.pixels@.len(),
                clen == mask.coverage@.len(),
                self.pixels@ == composited_upto(start, w as int, *mask, colour, my * mw),
            decreases mh - my,
        {
            let mut mx: usize = 0;
            while mx < mw
                invariant
                    self.wf(),
                    self.width == old(self).width,
                    self.height == old(self).height,
                    w == self.width,
                    mw == mask.width,
                    mh == mask.height,
                    mask.wf(),
                    mask.fits(self.width as int, self.height as int),
                    my < mh,
                    mx <= mw,
                    total == self.pixels@.len(),
                    clen == mask.coverage@.len(),
                    self.pixels@ == composited_upto(start, w as int, *mask, colour, my * mw + mx),
                decreases mw - mx,
            {
                let x: usize = mask.min_x as usize + mx;
                let y: usize = mask.min_y as usize + my;
                proof {
                    assert(y * w + x < self.width * self.height) by (nonlinear_arith)
                        requires
                            x < w,
                            y < self.height,
                            w == self.width,
                    ;
                    assert(my * mw + mx < mw * mh) by (nonlinear_arith)
                        requires
                            mx < mw,
                            my < mh,
                    ;
                }
                let idx: usize = y * w + x;
                let k: usize = my * mw + mx;
                let v: u16 = mask.coverage[k];
                let p: Rgba = self.pixels[idx];
                proof {
                    lemma_gain_bounded(v);
                }
                let gain: u8 = (v as u32 * 255 / 65535) as u8;
                let blended = Rgba { r: colour.r, g: colour.g, b: colour.b, a: p.a.saturating_add(gain) };
                let ghost before = self.pixels@;
                self.pixels.set(idx, blended);
                proof {
                    lemma_split_index(idx as int, w as int, x as int, y as int);
                    assert(mask.index_of(x as int, y as int) == k);
                    let next = composited_upto(start, w as int, *mask, colour, k + 1);
                    assert forall|i: int| 0 <= i < next.len() implies #[trigger] next[i]
                        == self.pixels@[i] by {
                        if i != idx {
                            let xi = i % (w as int);
                            let yi = i / (w as int);
                            if mask.covers(xi, yi) && mask.index_of(xi, yi) == k {
                                lemma_split_index(
                                    k as int,
                                    mw as int,
                                    xi - mask.min_x,
                                    yi - mask.min_y,
                                );
                                lemma_split_index(k as int, mw as int, mx as int, my as int);
                                lemma_fundamental_div_mod(i, w as int);
                                assert(xi == x && yi == y);
                                assert((w as int) * yi == yi * (w as int)) by (nonlinear_arith);
                                assert(false);
                            }
                        }
                    }
                    assert(self.pixels@ =~= next);
                }
                mx = mx + 1;
            }
            my = my + 1;
            assert(my * mw == (my - 1) * mw + mw) by (nonlinear_arith);
        }
        proof {
            let done = composited_upto(start, w as int, *mask, colour, mh * mw);
            let all = composited(start, w as int, *mask, colour);
            assert forall|i: int| 0 <= i < all.len() implies #[trigger] all[i] == done[i] by {
                let xi = i % (w as int);
                let yi = i / (w as int);
                if mask.covers(xi, yi) {
                    let a = yi - mask.min_y;
                    let b = xi - mask.min_x;
                    assert(a * mw + b < mh * mw) by (nonlinear_arith)
                        requires
                            0 <= a < mh,
                            0 <= b < mw,
                    ;
                }
            }
            assert(done =~= all);
        }
    }

    /// Composites the masks one after another, in order.
    pub fn draw_glyphs(&mut self, masks: &Vec<CoverageMask>, colour: Colour)
        requires
            old(self).wf(),
            forall|i: int|
                0 <= i < masks@.len() ==> (#[trigger] masks@[i]).wf() && masks@[i].fits(
                    old(self)@.width as int,
                    old(self)@.height as int,
                ),
        ensures
            final(self).wf(),
            final(self)@.width == old(self)@.width,
            final(self)@.height == old(self)@.height,
            final(self)@.pixels == composited_all(
                old(self)@.pixels,
                old(self)@.width as int,
                masks@,
                colour,
            ),
    {
        let ghost start = self.pixels@;
        let n = masks.len();
        let mut i: usize = 0;
        assert(masks@.take(0) =~= Seq::<CoverageMask>::empty());
        while i < n
            invariant
                n == masks@.len(),
                i <= n,
                self.wf(),
                self.width == old(self).width,
                self.height == old(self).height,
                start == old(self).pixels@,
                forall|j: int|
                    0 <= j < masks@.len() ==> (#[trigger] masks@[j]).wf() && masks@[j].fits(
                        self.width as int,
                        self.height as int,
                    ),
                self.pixels@ == composited_all(start, self.width as int, masks@.take(i as int), colour),
            decreases n - i,
        {
            self.composite(&masks[i], colour);
            assert(masks@.take(i + 1).drop_last() =~= masks@.take(i as int));
            i = i + 1;
        }
        assert(masks@.take(n as int) =~= masks@);
    }
}

/// Compositing two masks that share no pixel gives the same canvas in
/// either order.
pub proof fn lemma_disjoint_masks_commute(
    pixels: Seq<Rgba>,
    width: int,
    m1: CoverageMask,
    c1: Colour,
    m2: CoverageMask,
    c2: Colour,
)
    requires
        disjoint(m1, m2),
    ensures
        composited(composited(pixels, width, m1, c1), width, m2, c2) == composited(
            composited(pixels, width, m2, c2),
            width,
            m1,
            c1,
        ),
{
    let ab = composited(composited(pixels, width, m1, c1), width, m2, c2);
    let ba = composited(composited(pixels, width, m2, c2), width, m1, c1);
    assert forall|i: int| 0 <= i < ab.len() implies #[trigger] ab[i] == ba[i] by {
        let x = i % width;
        let y = i / width;
        assert(!(m1.covers(x, y) && m2.covers(x, y)));
    }
    assert(ab =~= ba);
}

/// Compositing never lowers a pixel's alpha: a covered pixel's alpha becomes
/// the old alpha plus the gain, capped at 255.
pub proof fn lemma_composite_alpha(pixels: Seq<Rgba>, width: int, m: CoverageMask, colour: Colour)
    ensures
        forall|i: int|
            0 <= i < pixels.len() ==> {
                let after = #[trigger] composited(pixels, width, m, colour)[i];
                let x = i % width;
                let y = i / width;
                &&& pixels[i].a <= after.a <= 255
                &&& m.covers(x, y) ==> after.a == if pixels[i].a + alpha_gain(
                    m.coverage@[m.index_of(x, y)],
                ) > 255 {
                    255
                } else {
                    pixels[i].a + alpha_gain(m.coverage@[m.index_of(x, y)])
                }
            },
{
    assert forall|v: u16| 0 <= #[trigger] alpha_gain(v) <= 255 by {
        lemma_gain_bounded(v);
    }
}

/// Alpha accumulates monotonically and saturates: after two masks that both
/// cover a pixel, its alpha is the sum of the old alpha and both gains,
/// capped at 255, and no step lowered it.
pub proof fn lemma_two_masks_alpha(
    pixels: Seq<Rgba>,
    width: int,
    m1: CoverageMask,
    c1: Colour,
    m2: CoverageMask,
    c2: Colour,
)
    ensures
        forall|i: int|
            0 <= i < pixels.len() ==> {
                let mid = composited(pixels, width, m1, c1);
                let after = #[trigger] composited(
                    composited(pixels, width, m1, c1),
                    width,
                    m2,
                    c2,
                )[i];
                let x = i % width;
                let y = i / width;
                let total = pixels[i].a + alpha_gain(m1.coverage@[m1.index_of(x, y)])
                    + alpha_gain(m2.coverage@[m2.index_of(x, y)]);
                &&& pixels[i].a <= mid[i].a <= after.a <= 255
                &&& m1.covers(x, y) && m2.covers(x, y) ==> after.a == if total > 255 {
                    255
                } else {
                    total
                }
            },
{
    let mid = composited(pixels, width, m1, c1);
    lemma_composite_alpha(pixels, width, m1, c1);
    lemma_composite_alpha(mid, width, m2, c2);
    assert forall|i: int| 0 <= i < pixels.len() implies mid[i] == #[trigger] composited(
        pixels,
        width,
        m1,
        c1,
    )[i] by {}
    assert forall|v: u16| 0 <= #[trigger] alpha_gain(v) <= 255 by {
        lemma_gain_bounded(v);
    }
}

} // verus!
