//! Paragraph layout: text to positioned glyphs, with kerning and wrapping.
use vstd::prelude::*;
use crate::chars::{char_is_control, char_is_whitespace, is_control_char, is_whitespace_char};
use crate::font::ScaleFont;
use crate::geometry::{placements_of, point, Glyph, GlyphId, Placement, Point};

verus! {

/// Longest text, in characters, that the layouter accepts: with metrics in
/// `i32`, every caret coordinate then fits in `i64`.
pub const MAX_TEXT_CHARS: usize = 0x4000_0000;

/// The layout cursor: pen position and the glyph placed just before it on
/// the current line, with everything placed so far.
pub struct LayoutState {
    pub x: int,
    pub y: int,
    pub previous: Option<GlyphId>,
    pub placed: Seq<Placement>,
}

/// Distance between the baselines of two consecutive lines.
pub open spec fn line_advance<F: ScaleFont>(font: &F) -> int {
    font.spec_height() + font.spec_line_gap()
}

/// The cursor before any character: on the first baseline, at the start x.
pub open spec fn initial_state<F: ScaleFont>(font: &F, start: Point) -> LayoutState {
    LayoutState {
        x: start.x as int,
        y: start.y + font.spec_ascent(),
        previous: None,
        placed: Seq::empty(),
    }
}

/// The caret x at which a glyph `id` is placed: after the kerning with the
/// previous glyph of the line, if there is one.
pub open spec fn kerned_x<F: ScaleFont>(font: &F, s: LayoutState, id: GlyphId) -> int {
    match s.previous {
        Some(p) => s.x + font.spec_kern(p, id),
        None => s.x,
    }
}

/// Whether placing `c` at the kerned caret wraps it to a new line: it is not
/// whitespace and its advance ends beyond `start.x + max_width`.
pub open spec fn wraps<F: ScaleFont>(
    font: &F,
    start: Point,
    max_width: int,
    s: LayoutState,
    c: char,
) -> bool {
    let id = font.spec_glyph_id(c);
    !is_whitespace_char(c) && kerned_x(font, s, id) + font.spec_h_advance(id) > start.x
        + max_width
}

/// One character of layout.
pub open spec fn layout_step<F: ScaleFont>(
    font: &F,
    start: Point,
    max_width: int,
    s: LayoutState,
    c: char,
) -> LayoutState {
    if is_control_char(c) {
        if c == '\n' {
            LayoutState { x: start.x as int, y: s.y + line_advance(font), previous: None, ..s }
        } else {
            s
        }
    } else {
        let id = font.spec_glyph_id(c);
        let x = kerned_x(font, s, id);
        if wraps(font, start, max_width, s, c) {
            let y = s.y + line_advance(font);
            LayoutState {
                x: start.x as int,
                y,
                previous: None,
                placed: s.placed.push(Placement { id, x: start.x as int, y }),
            }
        } else {
            LayoutState {
                x: x + font.spec_h_advance(id),
                y: s.y,
                previous: Some(id),
                placed: s.placed.push(Placement { id, x, y: s.y }),
            }
        }
    }
}

/// The cursor after laying out all of `text`.
pub open spec fn layout_state<F: ScaleFont>(
    font: &F,
    start: Point,
    max_width: int,
    text: Seq<char>,
) -> LayoutState
    decreases text.len(),
{
    if text.len() == 0 {
        initial_state(font, start)
    } else {
        layout_step(
            font,
            start,
            max_width,
            layout_state(font, start, max_width, text.drop_last()),
            text.last(),
        )
    }
}

/// The placements that laying out `text` produces, in reading order.
pub open spec fn layout<F: ScaleFont>(
    font: &F,
    start: Point,
    max_width: int,
    text: Seq<char>,
) -> Seq<Placement> {
    layout_state(font, start, max_width, text).placed
}

/// Whether a point's coordinates fit in `i32`.
pub open spec fn fits_i32(p: Point) -> bool {
    i32::MIN <= p.x <= i32::MAX && i32::MIN <= p.y <= i32::MAX
}

/// Lays out `text` starting at `position` and appends the placed glyphs to
/// `target`. Control characters place nothing; a newline starts a new line.
/// A glyph that is not whitespace and would end beyond
/// `position.x + max_width` is moved to the start of a new line.
pub fn layout_paragraph<F: ScaleFont>(
    font: &F,
    position: Point,
    max_width: i64,
    text: &str,
    target: &mut Vec<Glyph>,
)
    requires
        fits_i32(position),
        text@.len() <= MAX_TEXT_CHARS,
    ensures
        placements_of(final(target)@) == placements_of(old(target)@) + layout(
            font,
            position,
            max_width as int,
            text@,
        ),
{
    let v_advance: i64 = font.height() as i64 + font.line_gap() as i64;
    let ascent: i32 = font.ascent();
    let mut caret = point(position.x, position.y + ascent as i64);
    let mut last_glyph: Option<GlyphId> = None;
    let ghost start_target = placements_of(target@);
    assert(text@.take(0) =~= Seq::<char>::empty());
    assert(placements_of(target@) =~= start_target + Seq::<Placement>::empty());
    for c in iter: text.chars()
        invariant
            iter.seq() == text@,
            fits_i32(position),
            text@.len() <= MAX_TEXT_CHARS,
            v_advance == line_advance(font),
            -0x1_0000_0000 <= v_advance <= 0x1_0000_0000,
            ({
                let s = layout_state(font, position, max_width as int, text@.take(iter.index()));
                &&& s.x == caret.x
                &&& s.y == caret.y
                &&& s.previous == last_glyph
                &&& placements_of(target@) == start_target + s.placed
            }),
            -0x1_0000_0000 * iter.index() <= caret.x - position.x <= 0x1_0000_0000 * iter.index(),
            -0x1_0000_0000 * (iter.index() + 1) <= caret.y - position.y <= 0x1_0000_0000 * (iter.index() + 1),
    {
        let ghost i = iter.index();
        assert(i < text@.len());
        let ghost s = layout_state(font, position, max_width as int, text@.take(i));
        assert(text@.take(i + 1).drop_last() =~= text@.take(i));
        assert(text@.take(i + 1).last() == c);
        if char_is_control(c) {
            if c == '\n' {
                caret = point(position.x, caret.y + v_advance);
                last_glyph = None;
            }
        } else {
            let id = font.glyph_id(c);
            let mut x = caret.x;
            match last_glyph {
                Some(previous) => {
                    x = x + font.kern(previous, id) as i64;
                },
                None => {},
            }
            let advanced = x + font.h_advance(id) as i64;
            let glyph;
            if !char_is_whitespace(c) && advanced - position.x > max_width {
                caret = point(position.x, caret.y + v_advance);
                last_glyph = None;
                glyph = Glyph { id, position: caret };
            } else {
                glyph = Glyph { id, position: point(x, caret.y) };
                caret = point(advanced, caret.y);
                last_glyph = Some(id);
            }
            let ghost before = target@;
            target.push(glyph);
            assert(placements_of(target@) =~= placements_of(before).push(glyph@));
            assert(placements_of(target@) =~= start_target + s.placed.push(glyph@));
        }
    }
    assert(text@.take(text@.len() as int) =~= text@);
}

/// Layout only appends: laying out a prefix of `text` gives a prefix of the
/// placements of `text`.
pub proof fn lemma_layout_extends<F: ScaleFont>(
    font: &F,
    start: Point,
    max_width: int,
    text: Seq<char>,
    k: int,
)
    requires
        0 <= k <= text.len(),
    ensures
        ({
            let pre = layout(font, start, max_width, text.take(k));
            let all = layout(font, start, max_width, text);
            pre.len() <= all.len() && all.take(pre.len() as int) == pre
        }),
    decreases text.len(),
{
    if k < text.len() {
        assert(text.drop_last().take(k) =~= text.take(k));
        lemma_layout_extends(font, start, max_width, text.drop_last(), k);
        let mid = layout(font, start, max_width, text.drop_last());
        let pre = layout(font, start, max_width, text.take(k));
        let all = layout(font, start, max_width, text);
        assert(all.take(mid.len() as int) =~= mid);
        assert(all.take(pre.len() as int) =~= mid.take(pre.len() as int));
    } else {
        assert(text.take(k) =~= text);
    }
}

/// Text without control characters gives exactly one placement per
/// character.
pub proof fn lemma_one_placement_per_char<F: ScaleFont>(
    font: &F,
    start: Point,
    max_width: int,
    text: Seq<char>,
)
    requires
        forall|i: int| 0 <= i < text.len() ==> !is_control_char(#[trigger] text[i]),
    ensures
        layout(font, start, max_width, text).len() == text.len(),
    decreases text.len(),
{
    if text.len() > 0 {
        let rest = text.drop_last();
        assert forall|i: int| 0 <= i < rest.len() implies !is_control_char(#[trigger] rest[i]) by {
            assert(rest[i] == text[i]);
        }
        lemma_one_placement_per_char(font, start, max_width, rest);
        assert(!is_control_char(text[text.len() - 1]));
    }
}

/// After a character that places a glyph, the caret is on that glyph's line.
proof fn lemma_caret_on_last_line<F: ScaleFont>(
    font: &F,
    start: Point,
    max_width: int,
    text: Seq<char>,
)
    requires
        text.len() > 0,
        !is_control_char(text.last()),
    ensures
        ({
            let s = layout_state(font, start, max_width, text);
            s.placed.len() > 0 && s.placed.last().y == s.y
        }),
{
}

/// A single newline between two runs of visible characters: the first glyph
/// after it starts at the start x, exactly one line advance below the last
/// glyph before it, and the glyphs before it are those of the first run.
/// This holds unless that first glyph is wider than the line on its own.
pub proof fn lemma_newline_starts_next_line<F: ScaleFont>(
    font: &F,
    start: Point,
    max_width: int,
    before: Seq<char>,
    after: Seq<char>,
)
    requires
        before.len() > 0,
        after.len() > 0,
        forall|i: int| 0 <= i < before.len() ==> !is_control_char(#[trigger] before[i]),
        forall|i: int| 0 <= i < after.len() ==> !is_control_char(#[trigger] after[i]),
        is_whitespace_char(after[0]) || font.spec_h_advance(font.spec_glyph_id(after[0]))
            <= max_width,
    ensures
        ({
            let text = before.push('\n') + after;
            let placed = layout(font, start, max_width, text);
            let n = before.len() as int;
            &&& placed.len() == before.len() + after.len()
            &&& placed.take(n) == layout(font, start, max_width, before)
            &&& placed[n].x == start.x
            &&& placed[n].y == placed[n - 1].y + line_advance(font)
        }),
{
    let text = before.push('\n') + after;
    let n = before.len() as int;
    assert(!is_control_char(before[n - 1]));
    assert('\n' as u32 == 10);
    assert(is_control_char('\n'));
    lemma_one_placement_per_char(font, start, max_width, before);
    lemma_one_placement_per_char(font, start, max_width, after);
    assert(text.take(n) =~= before);
    assert(text.take(n + 1) =~= before.push('\n'));
    assert(text.take(n + 2) =~= before.push('\n').push(after[0]));
    assert(text.take(n + 2).drop_last() =~= before.push('\n'));
    assert(before.push('\n').drop_last() =~= before);
    lemma_caret_on_last_line(font, start, max_width, before);
    lemma_layout_extends(font, start, max_width, text, n);
    lemma_layout_extends(font, start, max_width, text, n + 2);
    lemma_count_with_controls(font, start, max_width, text, n);
    let sb = layout_state(font, start, max_width, before);
    let s1 = layout_state(font, start, max_width, text.take(n + 1));
    assert(s1.placed == sb.placed);
    let s2 = layout_state(font, start, max_width, text.take(n + 2));
    assert(s2.placed.len() == n + 1);
    assert(s2.placed[n].x == start.x);
    assert(layout(font, start, max_width, text).take(n + 1)[n] == s2.placed[n]);
    assert(layout(font, start, max_width, text).take(n)[n - 1] == sb.placed[n - 1]);
}

/// Text whose only control character is one newline gives one placement
/// for each other character.
proof fn lemma_count_with_controls<F: ScaleFont>(
    font: &F,
    start: Point,
    max_width: int,
    text: Seq<char>,
    n: int,
)
    requires
        0 <= n < text.len(),
        text[n] == '\n',
        forall|i: int| 0 <= i < text.len() && i != n ==> !is_control_char(#[trigger] text[i]),
    ensures
        layout(font, start, max_width, text).len() == text.len() - 1,
    decreases text.len(),
{
    let rest = text.drop_last();
    if n < text.len() - 1 {
        assert forall|i: int| 0 <= i < rest.len() && i != n implies !is_control_char(
            #[trigger] rest[i],
        ) by {
            assert(rest[i] == text[i]);
        }
        lemma_count_with_controls(font, start, max_width, rest, n);
        assert(!is_control_char(text[text.len() - 1]));
    } else {
        assert forall|i: int| 0 <= i < rest.len() implies !is_control_char(#[trigger] rest[i]) by {
            assert(rest[i] == text[i]);
        }
        lemma_one_placement_per_char(font, start, max_width, rest);
        assert('\n' as u32 == 10);
    }
}

/// Wrapping: a visible character that is not whitespace and whose advance
/// ends beyond `start.x + max_width` is moved to the start of a new line, one
/// line advance down, and the next visible character is placed at the start
/// x of that line too. A character that does not wrap stays on the line at
/// the kerned caret.
pub proof fn lemma_wrap_moves_glyph<F: ScaleFont>(
    font: &F,
    start: Point,
    max_width: int,
    text: Seq<char>,
    c: char,
    next: char,
)
    requires
        !is_control_char(c),
        !is_control_char(next),
    ensures
        ({
            let s = layout_state(font, start, max_width, text);
            let id = font.spec_glyph_id(c);
            let placed = layout(font, start, max_width, text.push(c));
            if wraps(font, start, max_width, s, c) {
                &&& placed.last() == (Placement { id, x: start.x as int, y: s.y + line_advance(font) })
                &&& layout(font, start, max_width, text.push(c).push(next)).last().x == start.x
            } else {
                placed.last() == (Placement { id, x: kerned_x(font, s, id), y: s.y })
            }
        }),
{
    assert(text.push(c).drop_last() =~= text);
    assert(text.push(c).push(next).drop_last() =~= text.push(c));
}

/// Kerning applies only within a line: the first glyph after an explicit
/// line break or after a wrapped glyph is placed at the start x, with no
/// kerning offset.
pub proof fn lemma_no_kerning_across_lines<F: ScaleFont>(
    font: &F,
    start: Point,
    max_width: int,
    text: Seq<char>,
    c: char,
    next: char,
)
    requires
        !is_control_char(next),
        c == '\n' || (!is_control_char(c) && wraps(
            font,
            start,
            max_width,
            layout_state(font, start, max_width, text),
            c,
        )),
    ensures
        layout_state(font, start, max_width, text.push(c)).previous is None,
        layout(font, start, max_width, text.push(c).push(next)).last().x == start.x,
{
    assert('\n' as u32 == 10);
    assert(text.push(c).drop_last() =~= text);
    assert(text.push(c).push(next).drop_last() =~= text.push(c));
}

/// Two visible characters that both fit on the first line: the first is at
/// the start x on the first baseline, the second one advance plus the pair's
/// kerning further right.
pub proof fn lemma_two_glyph_line<F: ScaleFont>(
    font: &F,
    start: Point,
    max_width: int,
    a: char,
    b: char,
)
    requires
        !is_control_char(a),
        !is_control_char(b),
        !is_whitespace_char(a) ==> font.spec_h_advance(font.spec_glyph_id(a)) <= max_width,
        !is_whitespace_char(b) ==> font.spec_h_advance(font.spec_glyph_id(a)) + font.spec_kern(
            font.spec_glyph_id(a),
            font.spec_glyph_id(b),
        ) + font.spec_h_advance(font.spec_glyph_id(b)) <= max_width,
    ensures
        ({
            let placed = layout(font, start, max_width, seq![a, b]);
            let ia = font.spec_glyph_id(a);
            let ib = font.spec_glyph_id(b);
            let y = start.y + font.spec_ascent();
            &&& placed.len() == 2
            &&& placed[0] == (Placement { id: ia, x: start.x as int, y })
            &&& placed[1] == (Placement {
                id: ib,
                x: start.x + font.spec_h_advance(ia) + font.spec_kern(ia, ib),
                y,
            })
        }),
{
    assert(seq![a, b].drop_last() =~= seq![a]);
    assert(seq![a].drop_last() =~= Seq::<char>::empty());
    let s0 = initial_state(font, start);
    assert(layout_state(font, start, max_width, Seq::<char>::empty()) == s0);
    let s1 = layout_state(font, start, max_width, seq![a]);
    assert(s1 == layout_step(font, start, max_width, s0, a));
    assert(layout_state(font, start, max_width, seq![a, b]) == layout_step(
        font,
        start,
        max_width,
        s1,
        b,
    ));
}

} // verus!
