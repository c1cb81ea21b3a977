use glyph_paint::{layout_paragraph, point, FontTable, Glyph, GlyphId, KernPair, Point};

const A: GlyphId = GlyphId(1);
const B: GlyphId = GlyphId(2);
const SPACE: GlyphId = GlyphId(3);
const W: GlyphId = GlyphId(4);

/// Ascent 40 px, height 50 px, line gap 5 px; 'A' 30 px, 'B' 28 px,
/// ' ' 10 px, 'W' 200 px; kerning A→B of -3 px and B→A of -2 px.
fn font() -> FontTable {
    FontTable {
        ascent: 40 * 64,
        height: 50 * 64,
        line_gap: 5 * 64,
        glyph_map: vec![('A', A), ('B', B), (' ', SPACE), ('W', W), ('\u{3000}', SPACE)],
        advances: vec![8 * 64, 30 * 64, 28 * 64, 10 * 64, 200 * 64],
        kerning: vec![
            KernPair { first: A, second: B, offset: -3 * 64 },
            KernPair { first: B, second: A, offset: -2 * 64 },
        ],
    }
}

const LINE: i64 = 55 * 64;
const START: Point = Point { x: 20 * 64, y: 20 * 64 };
const BASELINE: i64 = 20 * 64 + 40 * 64;

fn run(text: &str, max_width: i64) -> Vec<Glyph> {
    let mut out = Vec::new();
    layout_paragraph(&font(), START, max_width, text, &mut out);
    out
}

fn at(id: GlyphId, x: i64, y: i64) -> Glyph {
    Glyph { id, position: point(x, y) }
}

#[test]
fn ab_end_to_end() {
    let g = run("AB", 9999 * 64);
    assert_eq!(g, vec![at(A, 20 * 64, BASELINE), at(B, 20 * 64 + 30 * 64 - 3 * 64, BASELINE)]);
}

#[test]
fn empty_text_places_nothing() {
    assert!(run("", 9999 * 64).is_empty());
}

#[test]
fn one_placement_per_visible_char() {
    assert_eq!(run("ABBAxyz", 9999 * 64).len(), 7);
    assert_eq!(run("W", 9999 * 64).len(), 1);
}

#[test]
fn appends_after_existing_glyphs() {
    let mut out = vec![at(W, 1, 2)];
    layout_paragraph(&font(), START, 9999 * 64, "A", &mut out);
    assert_eq!(out, vec![at(W, 1, 2), at(A, 20 * 64, BASELINE)]);
}

#[test]
fn newline_moves_to_next_line_without_kerning() {
    let g = run("A\nB", 9999 * 64);
    assert_eq!(g, vec![at(A, 20 * 64, BASELINE), at(B, 20 * 64, BASELINE + LINE)]);
    assert_eq!(g[1].position.y - g[0].position.y, LINE);
}

#[test]
fn other_control_chars_are_skipped() {
    let g = run("A\tB\u{7f}\u{85}A", 9999 * 64);
    // Kerning still applies across skipped control characters.
    assert_eq!(
        g,
        vec![
            at(A, 20 * 64, BASELINE),
            at(B, 47 * 64, BASELINE),
            at(A, 47 * 64 + 28 * 64 - 2 * 64, BASELINE),
        ]
    );
}

#[test]
fn unmapped_char_uses_notdef_glyph() {
    let g = run("zA", 9999 * 64);
    assert_eq!(g, vec![at(GlyphId(0), 20 * 64, BASELINE), at(A, 28 * 64, BASELINE)]);
}

#[test]
fn overflowing_glyph_wraps_to_new_line() {
    // 'A' ends at 30 px, 'B' would end at 55 px > 50 px: 'B' moves down.
    let g = run("ABA", 50 * 64);
    assert_eq!(
        g,
        vec![
            at(A, 20 * 64, BASELINE),
            at(B, 20 * 64, BASELINE + LINE),
            // The caret stays at the start of the new line, with no kerning.
            at(A, 20 * 64, BASELINE + LINE),
        ]
    );
}

#[test]
fn whitespace_never_wraps() {
    let g = run("A  \u{3000}", 35 * 64);
    assert_eq!(
        g,
        vec![
            at(A, 20 * 64, BASELINE),
            at(SPACE, 50 * 64, BASELINE),
            at(SPACE, 60 * 64, BASELINE),
            at(SPACE, 70 * 64, BASELINE),
        ]
    );
}

#[test]
fn wide_glyph_alone_on_line_still_placed() {
    let g = run("WW", 100 * 64);
    assert_eq!(g, vec![at(W, 20 * 64, BASELINE + LINE), at(W, 20 * 64, BASELINE + 2 * LINE)]);
}

#[test]
fn first_table_entry_wins() {
    let mut f = font();
    f.glyph_map.push(('A', B));
    f.kerning.insert(0, KernPair { first: A, second: B, offset: 0 });
    let mut out = Vec::new();
    layout_paragraph(&f, START, 9999 * 64, "AB", &mut out);
    assert_eq!(out, vec![at(A, 20 * 64, BASELINE), at(B, 50 * 64, BASELINE)]);
}
