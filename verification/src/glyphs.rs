use vstd::prelude::*;

verus! {

/// Lower half block.
pub const HALF_BOTTOM: char = '\u{2584}';

/// Upper half block.
pub const HALF_TOP: char = '\u{2580}';

/// Full block.
pub const FULL_BLOCK: char = '\u{2588}';

/// The glyph for one cell, given which halves are lit. With both halves
/// lit, a color terminal paints the upper-half glyph's foreground and
/// background separately, so that glyph suffices; a grayscale terminal
/// needs the full block to show two opaque pixels.
pub open spec fn glyph_char(top: bool, bottom: bool, color_mode: bool) -> char {
    if !top && !bottom {
        ' '
    } else if !top && bottom {
        HALF_BOTTOM
    } else if top && !bottom {
        HALF_TOP
    } else if color_mode {
        HALF_TOP
    } else {
        FULL_BLOCK
    }
}

/// A character that can stand in a cell's glyph position.
pub open spec fn is_glyph(c: char) -> bool {
    c == ' ' || c == HALF_BOTTOM || c == HALF_TOP || c == FULL_BLOCK
}

pub fn glyph_for(top: bool, bottom: bool, color_mode: bool) -> (c: char)
    ensures
        c == glyph_char(top, bottom, color_mode),
{
    if !top && !bottom {
        ' '
    } else if !top && bottom {
        HALF_BOTTOM
    } else if top && !bottom {
        HALF_TOP
    } else if color_mode {
        HALF_TOP
    } else {
        FULL_BLOCK
    }
}

} // verus!
