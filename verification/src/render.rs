use vstd::prelude::*;

use crate::escapes::{fg_bg_escape, fg_escape, push_fg_bg_escape, push_fg_escape, push_reset, reset_seq};
use crate::glyphs::glyph_char;
use crate::pixels::PixelSource;
use vstd::string::StringExecFns;

verus! {

/// The top half of the cell at column `x`, covering row `y`, is opaque.
pub open spec fn top_lit(src: PixelSource, x: int, y: int) -> bool {
    src.spec_alpha(x, y) == 255
}

/// The bottom half of the cell at column `x`, covering row `y + 1`, is
/// opaque. A row past the image's bottom edge counts as fully transparent.
pub open spec fn bottom_lit(src: PixelSource, x: int, y: int) -> bool {
    y + 1 < src.spec_height() && src.spec_alpha(x, y + 1) == 255
}

/// The foreground a cell paints: the top pixel's color when the top half is
/// lit, else the bottom pixel's color when only the bottom half is lit.
pub open spec fn cell_fg(src: PixelSource, x: int, y: int) -> Option<(u8, u8, u8)> {
    if top_lit(src, x, y) {
        src.spec_color(x, y)
    } else if bottom_lit(src, x, y) {
        src.spec_color(x, y + 1)
    } else {
        None
    }
}

/// The background a cell paints: the bottom pixel's color, only when both
/// halves are lit.
pub open spec fn cell_bg(src: PixelSource, x: int, y: int) -> Option<(u8, u8, u8)> {
    if top_lit(src, x, y) && bottom_lit(src, x, y) {
        src.spec_color(x, y + 1)
    } else {
        None
    }
}

/// Everything one cell contributes to its line: in color mode an escape
/// when a color is present, the glyph, and a reset after any escape; in
/// grayscale mode the bare glyph.
pub open spec fn cell_chars(src: PixelSource, color_mode: bool, x: int, y: int) -> Seq<char> {
    let g = seq![glyph_char(top_lit(src, x, y), bottom_lit(src, x, y), color_mode)];
    if color_mode {
        match cell_fg(src, x, y) {
            Option::None => g,
            Option::Some(fg) => match cell_bg(src, x, y) {
                Option::None => fg_escape(fg) + g + reset_seq(),
                Option::Some(bg) => fg_bg_escape(fg, bg) + g + reset_seq(),
            },
        }
    } else {
        g
    }
}

/// The first `x` cells of the output row whose top source row is `y`.
pub open spec fn line_prefix(src: PixelSource, color_mode: bool, y: int, x: int) -> Seq<char>
    decreases x,
{
    if x <= 0 {
        Seq::empty()
    } else {
        line_prefix(src, color_mode, y, x - 1) + cell_chars(src, color_mode, x - 1, y)
    }
}

/// One whole output row: the cells of every column, left to right.
pub open spec fn line_chars(src: PixelSource, color_mode: bool, y: int) -> Seq<char> {
    line_prefix(src, color_mode, y, src.spec_width() as int)
}

/// How many output rows an image produces: none when it has no pixels,
/// else one per two source rows, rounded up.
pub open spec fn line_count(src: PixelSource) -> int {
    if src.spec_width() == 0 || src.spec_height() == 0 {
        0
    } else {
        (src.spec_height() as int + 1) / 2
    }
}

/// The first `k` output rows.
pub open spec fn lines_prefix(src: PixelSource, color_mode: bool, k: int) -> Seq<Seq<char>>
    decreases k,
{
    if k <= 0 {
        Seq::empty()
    } else {
        lines_prefix(src, color_mode, k - 1).push(line_chars(src, color_mode, 2 * (k - 1)))
    }
}

/// The whole rendering: every output row of the image, top to bottom.
pub open spec fn render_lines(src: PixelSource, color_mode: bool) -> Seq<Seq<char>> {
    lines_prefix(src, color_mode, line_count(src))
}

pub proof fn lemma_lines_prefix_len(src: PixelSource, color_mode: bool, k: int)
    requires
        k >= 0,
    ensures
        lines_prefix(src, color_mode, k).len() == k,
    decreases k,
{
    if k > 0 {
        lemma_lines_prefix_len(src, color_mode, k - 1);
    }
}

pub proof fn lemma_lines_prefix_index(src: PixelSource, color_mode: bool, k: int, j: int)
    requires
        0 <= j < k,
    ensures
        lines_prefix(src, color_mode, k).len() == k,
        lines_prefix(src, color_mode, k)[j] == line_chars(src, color_mode, 2 * j),
    decreases k,
{
    lemma_lines_prefix_len(src, color_mode, k);
    if j < k - 1 {
        lemma_lines_prefix_index(src, color_mode, k - 1, j);
    } else {
        lemma_lines_prefix_len(src, color_mode, k - 1);
    }
}

/// Appends one cell to the line under construction.
fn render_cell(line: &mut String, src: &PixelSource, color_mode: bool, x: u32, y: u32)
    requires
        src.wf(),
        x < src.spec_width(),
        y < src.spec_height(),
    ensures
        final(line)@ == old(line)@ + cell_chars(*src, color_mode, x as int, y as int),
{
    let h = src.height();
    let top = src.get_alpha(x, y) == 255;
    let bottom = if y == h - 1 {
        false
    } else {
        src.get_alpha(x, y + 1) == 255
    };
    assert(top == top_lit(*src, x as int, y as int));
    assert(bottom == bottom_lit(*src, x as int, y as int));
    if color_mode {
        let fg = if top {
            src.get_color(x, y)
        } else if bottom {
            src.get_color(x, y + 1)
        } else {
            None
        };
        let bg = if top && bottom {
            src.get_color(x, y + 1)
        } else {
            None
        };
        assert(fg == cell_fg(*src, x as int, y as int));
        assert(bg == cell_bg(*src, x as int, y as int));
        match fg {
            Option::Some(f) => {
                match bg {
                    Option::Some(b) => {
                        push_fg_bg_escape(line, f, b);
                    },
                    Option::None => {
                        push_fg_escape(line, f);
                    },
                }
                line.append(glyph_str(top, bottom, true));
                push_reset(line);
            },
            Option::None => {
                line.append(glyph_str(top, bottom, true));
            },
        }
    } else {
        line.append(glyph_str(top, bottom, false));
    }
    assert(line@ =~= old(line)@ + cell_chars(*src, color_mode, x as int, y as int));
}

/// The glyph for one cell, as a one-character string slice.
fn glyph_str(top: bool, bottom: bool, color_mode: bool) -> (r: &'static str)
    ensures
        r@ == seq![glyph_char(top, bottom, color_mode)],
{
    if !top && !bottom {
        proof {
            reveal_strlit(" ");
        }
        let r = " ";
        assert(r@ =~= seq![glyph_char(top, bottom, color_mode)]);
        r
    } else if !top && bottom {
        proof {
            reveal_strlit("\u{2584}");
        }
        let r = "\u{2584}";
        assert(r@ =~= seq![glyph_char(top, bottom, color_mode)]);
        r
    } else if top && !bottom {
        proof {
            reveal_strlit("\u{2580}");
        }
        let r = "\u{2580}";
        assert(r@ =~= seq![glyph_char(top, bottom, color_mode)]);
        r
    } else if color_mode {
        proof {
            reveal_strlit("\u{2580}");
        }
        let r = "\u{2580}";
        assert(r@ =~= seq![glyph_char(top, bottom, color_mode)]);
        r
    } else {
        proof {
            reveal_strlit("\u{2588}");
        }
        let r = "\u{2588}";
        assert(r@ =~= seq![glyph_char(top, bottom, color_mode)]);
        r
    }
}

/// Renders the output row whose top source row is `y`.
pub fn render_line(src: &PixelSource, color_mode: bool, y: u32) -> (line: String)
    requires
        src.wf(),
        y < src.spec_height(),
    ensures
        line@ == line_chars(*src, color_mode, y as int),
{
    let w = src.width();
    let mut line = String::new();
    let mut x: u32 = 0;
    while x < w
        invariant
            src.wf(),
            y < src.spec_height(),
            w == src.spec_width(),
            x <= w,
            line@ == line_prefix(*src, color_mode, y as int, x as int),
        decreases w - x,
    {
        render_cell(&mut line, src, color_mode, x, y);
        x = x + 1;
    }
    line
}

/// Renders the whole image: one string per output row, top to bottom, each
/// holding its glyphs and escapes and no line terminator.
pub fn render(src: &PixelSource, color_mode: bool) -> (lines: Vec<String>)
    requires
        src.wf(),
    ensures
        lines@.len() == render_lines(*src, color_mode).len(),
        lines@.len() == line_count(*src),
        forall|i: int|
            0 <= i < lines@.len() ==> #[trigger] lines@[i]@ == render_lines(*src, color_mode)[i],
{
    let w = src.width();
    let h = src.height();
    let mut lines: Vec<String> = Vec::new();
    proof {
        lemma_lines_prefix_len(*src, color_mode, line_count(*src));
    }
    if w == 0 || h == 0 {
        return lines;
    }
    let nrows: u32 = h / 2 + h % 2;
    let mut i: u32 = 0;
    while i < nrows
        invariant
            src.wf(),
            w == src.spec_width(),
            h == src.spec_height(),
            w > 0,
            h > 0,
            nrows == line_count(*src),
            i <= nrows,
            lines@.len() == i,
            forall|j: int|
                0 <= j < i ==> #[trigger] lines@[j]@ == line_chars(*src, color_mode, 2 * j),
        decreases nrows - i,
    {
        let y: u32 = 2 * i;
        let line = render_line(src, color_mode, y);
        lines.push(line);
        i = i + 1;
    }
    proof {
        assert forall|j: int| 0 <= j < lines@.len() implies #[trigger] lines@[j]@ == render_lines(
            *src,
            color_mode,
        )[j] by {
            lemma_lines_prefix_index(*src, color_mode, line_count(*src), j);
        }
    }
    lines
}

} // verus!
