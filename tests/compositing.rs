use glyph_paint::{canvas_size, point, Canvas, Colour, CoverageMask, FontTable, Glyph, GlyphId, Rgba, FULL_COVERAGE};

const RED: Colour = Colour { r: 150, g: 0, b: 0 };
const BLUE: Colour = Colour { r: 0, g: 0, b: 200 };

fn mask(min_x: u32, min_y: u32, width: u32, height: u32, value: u16) -> CoverageMask {
    CoverageMask { min_x, min_y, width, height, coverage: vec![value; (width * height) as usize] }
}

fn pixels(c: &Canvas) -> Vec<Rgba> {
    let mut out = Vec::new();
    for y in 0..c.height() {
        for x in 0..c.width() {
            out.push(c.get_pixel(x, y));
        }
    }
    out
}

const CLEAR: Rgba = Rgba { r: 0, g: 0, b: 0, a: 0 };

#[test]
fn new_canvas_is_transparent() {
    let c = Canvas::new(3, 2);
    assert_eq!((c.width(), c.height()), (3, 2));
    assert_eq!(pixels(&c), vec![CLEAR; 6]);
}

#[test]
fn composite_sets_colour_and_alpha_inside_mask_only() {
    let mut c = Canvas::new(4, 3);
    let m = CoverageMask { min_x: 1, min_y: 1, width: 2, height: 1, coverage: vec![FULL_COVERAGE, 32768] };
    c.composite(&m, RED);
    assert_eq!(c.get_pixel(1, 1), Rgba { r: 150, g: 0, b: 0, a: 255 });
    // 32768 * 255 / 65535 = 127.5..., truncated.
    assert_eq!(c.get_pixel(2, 1), Rgba { r: 150, g: 0, b: 0, a: 127 });
    assert_eq!(c.get_pixel(0, 1), CLEAR);
    assert_eq!(c.get_pixel(3, 1), CLEAR);
    assert_eq!(c.get_pixel(1, 0), CLEAR);
    assert_eq!(c.get_pixel(2, 2), CLEAR);
}

#[test]
fn zero_coverage_still_takes_colour() {
    let mut c = Canvas::new(1, 1);
    c.composite(&mask(0, 0, 1, 1, 0), BLUE);
    assert_eq!(c.get_pixel(0, 0), Rgba { r: 0, g: 0, b: 200, a: 0 });
}

#[test]
fn disjoint_masks_commute() {
    let a = mask(0, 0, 2, 2, 40000);
    let b = mask(2, 1, 2, 2, 20000);
    let mut one = Canvas::new(5, 4);
    one.composite(&a, RED);
    one.composite(&b, BLUE);
    let mut two = Canvas::new(5, 4);
    two.composite(&b, BLUE);
    two.composite(&a, RED);
    assert_eq!(pixels(&one), pixels(&two));
    assert_eq!(one.get_pixel(1, 1), Rgba { r: 150, g: 0, b: 0, a: 155 });
    assert_eq!(one.get_pixel(3, 2), Rgba { r: 0, g: 0, b: 200, a: 77 });
}

#[test]
fn overlapping_alpha_accumulates_and_saturates() {
    let mut c = Canvas::new(2, 1);
    c.draw_glyphs(&vec![mask(0, 0, 2, 1, 40000), mask(1, 0, 1, 1, 40000)], RED);
    // 155 alone; 155 + 155 saturates at 255.
    assert_eq!(c.get_pixel(0, 0).a, 155);
    assert_eq!(c.get_pixel(1, 0).a, 255);
    let mut d = Canvas::new(1, 1);
    d.draw_glyphs(&vec![mask(0, 0, 1, 1, 10000), mask(0, 0, 1, 1, 10000)], RED);
    // 10000 * 255 / 65535 = 38 each.
    assert_eq!(d.get_pixel(0, 0).a, 76);
}

#[test]
fn later_glyph_overwrites_colour() {
    let mut c = Canvas::new(1, 1);
    c.draw_glyphs(&vec![mask(0, 0, 1, 1, 10000), mask(0, 0, 1, 1, 10000)], RED);
    c.composite(&mask(0, 0, 1, 1, 0), BLUE);
    assert_eq!(c.get_pixel(0, 0), Rgba { r: 0, g: 0, b: 200, a: 76 });
}

#[test]
fn no_masks_leave_canvas_unchanged() {
    let mut c = Canvas::new(3, 3);
    c.composite(&mask(1, 1, 1, 1, 5000), RED);
    let before = pixels(&c);
    c.draw_glyphs(&Vec::new(), BLUE);
    assert_eq!(pixels(&c), before);
}

fn font() -> FontTable {
    FontTable {
        ascent: 40 * 64,
        height: 50 * 64 + 10,
        line_gap: 5 * 64,
        glyph_map: vec![('A', GlyphId(1))],
        advances: vec![0, 30 * 64 + 1],
        kerning: Vec::new(),
    }
}

#[test]
fn canvas_size_rounds_up_and_pads() {
    let glyphs = vec![
        Glyph { id: GlyphId(1), position: point(20 * 64, 60 * 64) },
        Glyph { id: GlyphId(1), position: point(50 * 64, 60 * 64) },
    ];
    // Width: 30 px + 30 px + 1/64 px, rounded up to 61, plus 2 * 20.
    // Height: 50 px + 10/64 px, rounded up to 51, plus 2 * 20.
    assert_eq!(canvas_size(&font(), &glyphs, 20), Some((101, 91)));
}

#[test]
fn canvas_size_of_nothing_is_none() {
    assert_eq!(canvas_size(&font(), &Vec::new(), 20), None);
}

#[test]
fn canvas_size_too_large_is_none() {
    let glyphs = vec![Glyph { id: GlyphId(1), position: point(0, 0) }];
    assert_eq!(canvas_size(&font(), &glyphs, u32::MAX / 2), None);
    assert_eq!(canvas_size(&font(), &glyphs, 0), Some((31, 51)));
}

#[test]
fn canvas_size_negative_extent_is_zero() {
    let glyphs = vec![
        Glyph { id: GlyphId(1), position: point(10_000, 0) },
        Glyph { id: GlyphId(0), position: point(0, 0) },
    ];
    assert_eq!(canvas_size(&font(), &glyphs, 2), Some((4, 55)));
}
