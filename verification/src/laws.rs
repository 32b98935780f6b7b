use vstd::prelude::*;

use crate::escapes::{
    bg_infix, color_triple, dec_of, fg_bg_escape, fg_escape, fg_prefix, reset_seq,
};
use crate::glyphs::{glyph_char, is_glyph, FULL_BLOCK, HALF_BOTTOM, HALF_TOP};
use crate::pixels::PixelSource;
use crate::render::{
    bottom_lit, cell_bg, cell_chars, cell_fg, lemma_lines_prefix_index, lemma_lines_prefix_len,
    line_count, line_prefix, lines_prefix, render_lines, top_lit,
};

verus! {

/// An image with no pixels renders to no lines at all.
pub proof fn lemma_render_empty(src: PixelSource, color_mode: bool)
    requires
        src.spec_width() == 0 || src.spec_height() == 0,
    ensures
        render_lines(src, color_mode).len() == 0,
{
}

/// Every image with at least one column renders one line per two source
/// rows, rounded up.
pub proof fn lemma_render_line_count(src: PixelSource, color_mode: bool)
    requires
        src.spec_width() > 0,
    ensures
        render_lines(src, color_mode).len() == (src.spec_height() as int + 1) / 2,
{
    lemma_lines_prefix_len(src, color_mode, line_count(src));
}

/// Rendering is deterministic: any two renderings of the same source in
/// the same mode are identical, character for character.
pub proof fn lemma_render_idempotent(
    src: PixelSource,
    color_mode: bool,
    a: Seq<Seq<char>>,
    b: Seq<Seq<char>>,
)
    requires
        a.len() == render_lines(src, color_mode).len(),
        forall|i: int| 0 <= i < a.len() ==> #[trigger] a[i] == render_lines(src, color_mode)[i],
        b.len() == render_lines(src, color_mode).len(),
        forall|i: int| 0 <= i < b.len() ==> #[trigger] b[i] == render_lines(src, color_mode)[i],
    ensures
        a == b,
{
    assert(a =~= b);
}

/// The glyph table, written out in full: each combination of lit halves
/// and mode yields exactly one glyph, and no character outside the table
/// ever stands in a glyph position.
pub proof fn lemma_glyph_table()
    ensures
        glyph_char(false, false, false) == ' ',
        glyph_char(false, false, true) == ' ',
        glyph_char(false, true, false) == HALF_BOTTOM,
        glyph_char(false, true, true) == HALF_BOTTOM,
        glyph_char(true, false, false) == HALF_TOP,
        glyph_char(true, false, true) == HALF_TOP,
        glyph_char(true, true, true) == HALF_TOP,
        glyph_char(true, true, false) == FULL_BLOCK,
        forall|top: bool, bottom: bool, color_mode: bool|
            is_glyph(#[trigger] glyph_char(top, bottom, color_mode)),
{
}

/// In an image of odd height, the final output row's bottom half is unlit
/// for every column, whatever bytes the buffer holds.
pub proof fn lemma_odd_height_bottom_unlit(src: PixelSource, x: int)
    requires
        src.spec_height() % 2 == 1,
    ensures
        !bottom_lit(src, x, src.spec_height() - 1),
{
}

/// How many glyph characters a sequence holds.
pub open spec fn glyph_count(s: Seq<char>) -> int
    decreases s.len(),
{
    if s.len() == 0 {
        0
    } else {
        glyph_count(s.drop_last()) + (if is_glyph(s.last()) {
            1int
        } else {
            0int
        })
    }
}

pub proof fn lemma_glyph_count_concat(a: Seq<char>, b: Seq<char>)
    ensures
        glyph_count(a + b) == glyph_count(a) + glyph_count(b),
    decreases b.len(),
{
    if b.len() == 0 {
        assert(a + b =~= a);
    } else {
        lemma_glyph_count_concat(a, b.drop_last());
        assert((a + b).drop_last() =~= a + b.drop_last());
        assert((a + b).last() == b.last());
    }
}

proof fn lemma_glyph_count_zero(s: Seq<char>)
    requires
        forall|j: int| 0 <= j < s.len() ==> !is_glyph(#[trigger] s[j]),
    ensures
        glyph_count(s) == 0,
    decreases s.len(),
{
    if s.len() > 0 {
        assert forall|j: int| 0 <= j < s.drop_last().len() implies !is_glyph(
            #[trigger] s.drop_last()[j],
        ) by {
            assert(s.drop_last()[j] == s[j]);
        }
        lemma_glyph_count_zero(s.drop_last());
        assert(!is_glyph(s.last()));
    }
}

proof fn lemma_glyph_count_singleton(c: char)
    ensures
        glyph_count(seq![c]) == (if is_glyph(c) {
            1int
        } else {
            0int
        }),
{
    assert(seq![c].drop_last() =~= Seq::<char>::empty());
    assert(glyph_count(Seq::<char>::empty()) == 0);
    assert(seq![c].last() == c);
}

proof fn lemma_gc_dec_zero(n: u8)
    ensures
        glyph_count(dec_of(n)) == 0,
{
    lemma_glyph_count_zero(dec_of(n));
}

proof fn lemma_gc_triple_zero(c: (u8, u8, u8))
    ensures
        glyph_count(color_triple(c)) == 0,
{
    lemma_gc_dec_zero(c.0);
    lemma_gc_dec_zero(c.1);
    lemma_gc_dec_zero(c.2);
    lemma_glyph_count_zero(seq![';']);
    lemma_glyph_count_concat(dec_of(c.0), seq![';']);
    lemma_glyph_count_concat(dec_of(c.0) + seq![';'], dec_of(c.1));
    lemma_glyph_count_concat(dec_of(c.0) + seq![';'] + dec_of(c.1), seq![';']);
    lemma_glyph_count_concat(dec_of(c.0) + seq![';'] + dec_of(c.1) + seq![';'], dec_of(c.2));
}

proof fn lemma_gc_reset_zero()
    ensures
        glyph_count(reset_seq()) == 0,
{
    lemma_glyph_count_zero(reset_seq());
}

proof fn lemma_gc_fg_escape_zero(fg: (u8, u8, u8))
    ensures
        glyph_count(fg_escape(fg)) == 0,
{
    lemma_glyph_count_zero(fg_prefix());
    lemma_gc_triple_zero(fg);
    lemma_glyph_count_zero(seq!['m']);
    lemma_glyph_count_concat(fg_prefix(), color_triple(fg));
    lemma_glyph_count_concat(fg_prefix() + color_triple(fg), seq!['m']);
}

proof fn lemma_gc_fg_bg_escape_zero(fg: (u8, u8, u8), bg: (u8, u8, u8))
    ensures
        glyph_count(fg_bg_escape(fg, bg)) == 0,
{
    lemma_glyph_count_zero(fg_prefix());
    lemma_gc_triple_zero(fg);
    lemma_gc_triple_zero(bg);
    lemma_glyph_count_zero(bg_infix());
    lemma_glyph_count_zero(seq!['m']);
    lemma_glyph_count_concat(fg_prefix(), color_triple(fg));
    lemma_glyph_count_concat(fg_prefix() + color_triple(fg), bg_infix());
    lemma_glyph_count_concat(fg_prefix() + color_triple(fg) + bg_infix(), color_triple(bg));
    lemma_glyph_count_concat(
        fg_prefix() + color_triple(fg) + bg_infix() + color_triple(bg),
        seq!['m'],
    );
}

/// One cell contributes exactly one glyph to its line, whatever escapes
/// surround it.
pub proof fn lemma_gc_cell(src: PixelSource, color_mode: bool, x: int, y: int)
    ensures
        glyph_count(cell_chars(src, color_mode, x, y)) == 1,
{
    let top = top_lit(src, x, y);
    let bottom = bottom_lit(src, x, y);
    let g = glyph_char(top, bottom, color_mode);
    lemma_glyph_count_singleton(g);
    if color_mode {
        match cell_fg(src, x, y) {
            Option::None => {},
            Option::Some(fg) => match cell_bg(src, x, y) {
                Option::None => {
                    lemma_gc_fg_escape_zero(fg);
                    lemma_gc_reset_zero();
                    lemma_glyph_count_concat(fg_escape(fg), seq![g]);
                    lemma_glyph_count_concat(fg_escape(fg) + seq![g], reset_seq());
                },
                Option::Some(bg) => {
                    lemma_gc_fg_bg_escape_zero(fg, bg);
                    lemma_gc_reset_zero();
                    lemma_glyph_count_concat(fg_bg_escape(fg, bg), seq![g]);
                    lemma_glyph_count_concat(fg_bg_escape(fg, bg) + seq![g], reset_seq());
                },
            },
        }
    }
}

proof fn lemma_gc_line_prefix(src: PixelSource, color_mode: bool, y: int, x: int)
    requires
        x >= 0,
    ensures
        glyph_count(line_prefix(src, color_mode, y, x)) == x,
    decreases x,
{
    if x > 0 {
        lemma_gc_line_prefix(src, color_mode, y, x - 1);
        lemma_glyph_count_concat(
            line_prefix(src, color_mode, y, x - 1),
            cell_chars(src, color_mode, x - 1, y),
        );
        lemma_gc_cell(src, color_mode, x - 1, y);
    }
}

/// Every output line holds exactly one glyph per image column.
pub proof fn lemma_glyphs_per_line(src: PixelSource, color_mode: bool, i: int)
    requires
        0 <= i < render_lines(src, color_mode).len(),
    ensures
        glyph_count(render_lines(src, color_mode)[i]) == src.spec_width() as int,
{
    lemma_lines_prefix_len(src, color_mode, line_count(src));
    lemma_lines_prefix_index(src, color_mode, line_count(src), i);
    lemma_gc_line_prefix(src, color_mode, 2 * i, src.spec_width() as int);
}

proof fn lemma_gray_line_glyphs(src: PixelSource, y: int, x: int)
    requires
        x >= 0,
    ensures
        line_prefix(src, false, y, x).len() == x,
        forall|j: int| 0 <= j < x ==> is_glyph(#[trigger] line_prefix(src, false, y, x)[j]),
    decreases x,
{
    if x > 0 {
        lemma_gray_line_glyphs(src, y, x - 1);
        assert forall|j: int| 0 <= j < x implies is_glyph(
            #[trigger] line_prefix(src, false, y, x)[j],
        ) by {
            if j < x - 1 {
                assert(line_prefix(src, false, y, x)[j] == line_prefix(src, false, y, x - 1)[j]);
            } else {
                assert(line_prefix(src, false, y, x)[j] == glyph_char(
                    top_lit(src, x - 1, y),
                    bottom_lit(src, x - 1, y),
                    false,
                ));
            }
        }
    }
}

/// In grayscale mode no output line contains the escape character.
pub proof fn lemma_grayscale_no_escape(src: PixelSource, i: int, j: int)
    requires
        0 <= i < render_lines(src, false).len(),
        0 <= j < render_lines(src, false)[i].len(),
    ensures
        render_lines(src, false)[i][j] != '\x1b',
{
    lemma_lines_prefix_len(src, false, line_count(src));
    lemma_lines_prefix_index(src, false, line_count(src), i);
    lemma_gray_line_glyphs(src, 2 * i, src.spec_width() as int);
}

/// In color mode, a cell of a color-carrying source is exactly its escape
/// (when a half is lit), its glyph, and the reset; an unlit cell is a bare
/// space.
pub proof fn lemma_color_cell_format(src: PixelSource, x: int, y: int)
    requires
        src.spec_is_color(),
        0 <= x < src.spec_width(),
        0 <= y < src.spec_height(),
    ensures
        top_lit(src, x, y) && !bottom_lit(src, x, y) ==> cell_chars(src, true, x, y) == fg_escape(
            src.spec_color(x, y)->0,
        ) + seq![HALF_TOP] + reset_seq(),
        !top_lit(src, x, y) && bottom_lit(src, x, y) ==> cell_chars(src, true, x, y) == fg_escape(
            src.spec_color(x, y + 1)->0,
        ) + seq![HALF_BOTTOM] + reset_seq(),
        top_lit(src, x, y) && bottom_lit(src, x, y) ==> cell_chars(src, true, x, y)
            == fg_bg_escape(src.spec_color(x, y)->0, src.spec_color(x, y + 1)->0) + seq![HALF_TOP]
            + reset_seq(),
        !top_lit(src, x, y) && !bottom_lit(src, x, y) ==> cell_chars(src, true, x, y) == seq![' '],
{
}

/// Alpha acts as a binary threshold: two sources of the same shape and the
/// same colors whose pixels agree on which are fully opaque render the
/// same, however their other alpha values differ.
pub proof fn lemma_alpha_threshold(s1: PixelSource, s2: PixelSource, color_mode: bool)
    requires
        s1.spec_width() == s2.spec_width(),
        s1.spec_height() == s2.spec_height(),
        forall|x: int, y: int|
            0 <= x < s1.spec_width() && 0 <= y < s1.spec_height() ==> ((
            #[trigger] s1.spec_alpha(x, y)) == 255 <==> s2.spec_alpha(x, y) == 255),
        forall|x: int, y: int|
            0 <= x < s1.spec_width() && 0 <= y < s1.spec_height() ==> (
            #[trigger] s1.spec_color(x, y)) == s2.spec_color(x, y),
    ensures
        render_lines(s1, color_mode) == render_lines(s2, color_mode),
{
    lemma_alpha_threshold_lines(s1, s2, color_mode, line_count(s1));
}

proof fn lemma_alpha_threshold_cell(s1: PixelSource, s2: PixelSource, color_mode: bool, x: int, y: int)
    requires
        s1.spec_width() == s2.spec_width(),
        s1.spec_height() == s2.spec_height(),
        forall|x: int, y: int|
            0 <= x < s1.spec_width() && 0 <= y < s1.spec_height() ==> ((
            #[trigger] s1.spec_alpha(x, y)) == 255 <==> s2.spec_alpha(x, y) == 255),
        forall|x: int, y: int|
            0 <= x < s1.spec_width() && 0 <= y < s1.spec_height() ==> (
            #[trigger] s1.spec_color(x, y)) == s2.spec_color(x, y),
        0 <= x < s1.spec_width(),
        0 <= y < s1.spec_height(),
    ensures
        cell_chars(s1, color_mode, x, y) == cell_chars(s2, color_mode, x, y),
{
    assert(s1.spec_alpha(x, y) == 255 <==> s2.spec_alpha(x, y) == 255);
    assert(top_lit(s1, x, y) == top_lit(s2, x, y));
    if y + 1 < s1.spec_height() {
        assert(s1.spec_alpha(x, y + 1) == 255 <==> s2.spec_alpha(x, y + 1) == 255);
        assert(s1.spec_color(x, y + 1) == s2.spec_color(x, y + 1));
    }
    assert(bottom_lit(s1, x, y) == bottom_lit(s2, x, y));
    assert(s1.spec_color(x, y) == s2.spec_color(x, y));
}

proof fn lemma_alpha_threshold_line(
    s1: PixelSource,
    s2: PixelSource,
    color_mode: bool,
    y: int,
    x: int,
)
    requires
        s1.spec_width() == s2.spec_width(),
        s1.spec_height() == s2.spec_height(),
        forall|x: int, y: int|
            0 <= x < s1.spec_width() && 0 <= y < s1.spec_height() ==> ((
            #[trigger] s1.spec_alpha(x, y)) == 255 <==> s2.spec_alpha(x, y) == 255),
        forall|x: int, y: int|
            0 <= x < s1.spec_width() && 0 <= y < s1.spec_height() ==> (
            #[trigger] s1.spec_color(x, y)) == s2.spec_color(x, y),
        0 <= y < s1.spec_height(),
        0 <= x <= s1.spec_width(),
    ensures
        line_prefix(s1, color_mode, y, x) == line_prefix(s2, color_mode, y, x),
    decreases x,
{
    if x > 0 {
        lemma_alpha_threshold_line(s1, s2, color_mode, y, x - 1);
        lemma_alpha_threshold_cell(s1, s2, color_mode, x - 1, y);
    }
}

proof fn lemma_alpha_threshold_lines(s1: PixelSource, s2: PixelSource, color_mode: bool, k: int)
    requires
        s1.spec_width() == s2.spec_width(),
        s1.spec_height() == s2.spec_height(),
        forall|x: int, y: int|
            0 <= x < s1.spec_width() && 0 <= y < s1.spec_height() ==> ((
            #[trigger] s1.spec_alpha(x, y)) == 255 <==> s2.spec_alpha(x, y) == 255),
        forall|x: int, y: int|
            0 <= x < s1.spec_width() && 0 <= y < s1.spec_height() ==> (
            #[trigger] s1.spec_color(x, y)) == s2.spec_color(x, y),
        k <= line_count(s1),
    ensures
        lines_prefix(s1, color_mode, k) == lines_prefix(s2, color_mode, k),
    decreases k,
{
    if k > 0 {
        lemma_alpha_threshold_lines(s1, s2, color_mode, k - 1);
        assert(0 <= 2 * (k - 1) < s1.spec_height());
        lemma_alpha_threshold_line(
            s1,
            s2,
            color_mode,
            2 * (k - 1),
            s1.spec_width() as int,
        );
        assert(lines_prefix(s1, color_mode, k) =~= lines_prefix(s2, color_mode, k));
    } else {
        assert(lines_prefix(s1, color_mode, k) =~= lines_prefix(s2, color_mode, k));
    }
}

} // verus!
