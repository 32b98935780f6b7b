use halfblock::glyphs::glyph_for;
use halfblock::pixels::PixelSource;
use halfblock::render::render;

const ESC: char = '\u{1b}';
const UPPER: char = '\u{2580}';
const LOWER: char = '\u{2584}';
const FULL: char = '\u{2588}';

fn rgba(width: u32, height: u32, data: Vec<u8>) -> PixelSource {
    PixelSource::new_rgba(width, height, data).unwrap()
}

fn gray(width: u32, height: u32, data: Vec<u8>) -> PixelSource {
    PixelSource::new_gray_alpha(width, height, data).unwrap()
}

/// One opaque gray pixel column of two rows, given the two alpha values.
fn gray_column(top_alpha: u8, bottom_alpha: u8) -> PixelSource {
    gray(1, 2, vec![128, top_alpha, 128, bottom_alpha])
}

fn glyph_count(line: &str) -> usize {
    line.chars()
        .filter(|c| matches!(c, ' ' | '\u{2580}' | '\u{2584}' | '\u{2588}'))
        .count()
}

#[test]
fn zero_width_renders_nothing() {
    let src = rgba(0, 5, vec![]);
    assert_eq!(render(&src, true).len(), 0);
    assert_eq!(render(&src, false).len(), 0);
}

#[test]
fn zero_height_renders_nothing() {
    let src = gray(5, 0, vec![]);
    assert_eq!(render(&src, true).len(), 0);
    assert_eq!(render(&src, false).len(), 0);
}

#[test]
fn line_count_rounds_up() {
    let one = gray(1, 1, vec![0, 0]);
    assert_eq!(render(&one, false).len(), 1);
    let two = gray(1, 2, vec![0, 0, 0, 0]);
    assert_eq!(render(&two, false).len(), 1);
    let three = gray(1, 3, vec![0, 0, 0, 0, 0, 0]);
    assert_eq!(render(&three, false).len(), 2);
    let four = gray(1, 4, vec![0; 8]);
    assert_eq!(render(&four, false).len(), 2);
    let five = gray(1, 5, vec![0; 10]);
    assert_eq!(render(&five, false).len(), 3);
}

#[test]
fn one_glyph_per_column() {
    // A 3x2 color image with a mix of lit and unlit halves.
    let src = rgba(
        3,
        2,
        vec![
            255, 0, 0, 255, 0, 255, 0, 0, 0, 0, 255, 255, // top row
            10, 20, 30, 255, 40, 50, 60, 255, 70, 80, 90, 0, // bottom row
        ],
    );
    for line in render(&src, true) {
        assert_eq!(glyph_count(&line), 3);
    }
    for line in render(&src, false) {
        assert_eq!(glyph_count(&line), 3);
        assert_eq!(line.chars().count(), 3);
    }
}

#[test]
fn rendering_twice_is_identical() {
    let src = rgba(
        2,
        3,
        vec![
            255, 0, 0, 255, 0, 255, 0, 254, 1, 2, 3, 255, 4, 5, 6, 0, 7, 8, 9, 255, 10, 11, 12,
            255,
        ],
    );
    assert_eq!(render(&src, true), render(&src, true));
    assert_eq!(render(&src, false), render(&src, false));
}

#[test]
fn glyph_table_on_gray_columns() {
    // A gray source never carries color, so even in color mode its cells
    // are bare glyphs; the glyph choice still follows the mode flag.
    let both_unlit = gray_column(0, 0);
    assert_eq!(render(&both_unlit, true), vec![" ".to_string()]);
    assert_eq!(render(&both_unlit, false), vec![" ".to_string()]);

    let bottom_only = gray_column(0, 255);
    assert_eq!(render(&bottom_only, true), vec![LOWER.to_string()]);
    assert_eq!(render(&bottom_only, false), vec![LOWER.to_string()]);

    let top_only = gray_column(255, 0);
    assert_eq!(render(&top_only, true), vec![UPPER.to_string()]);
    assert_eq!(render(&top_only, false), vec![UPPER.to_string()]);

    let both_lit = gray_column(255, 255);
    assert_eq!(render(&both_lit, true), vec![UPPER.to_string()]);
    assert_eq!(render(&both_lit, false), vec![FULL.to_string()]);
}

#[test]
fn grayscale_mode_never_escapes() {
    let src = rgba(
        2,
        2,
        vec![255, 0, 0, 255, 0, 255, 0, 255, 0, 0, 255, 255, 255, 255, 0, 255],
    );
    for line in render(&src, false) {
        assert!(!line.contains(ESC));
    }
    let src2 = gray(2, 2, vec![1, 255, 2, 0, 3, 255, 4, 255]);
    for line in render(&src2, false) {
        assert!(!line.contains(ESC));
    }
}

#[test]
fn color_cells_reset_after_glyph() {
    let src = rgba(
        2,
        2,
        vec![255, 0, 0, 255, 0, 0, 0, 0, 0, 0, 255, 255, 9, 9, 9, 255],
    );
    let lines = render(&src, true);
    assert_eq!(lines.len(), 1);
    // First cell: both halves lit, combined escape, then glyph, then reset.
    // Second cell: bottom only, foreground escape of the bottom color.
    let expected = format!(
        "{e}[38;2;255;0;0;48;2;0;0;255m{u}{e}[0m{e}[38;2;9;9;9m{l}{e}[0m",
        e = ESC,
        u = UPPER,
        l = LOWER,
    );
    assert_eq!(lines[0], expected);
}

#[test]
fn decimal_channels_have_no_padding() {
    let src = rgba(1, 1, vec![0, 10, 200, 255]);
    let lines = render(&src, true);
    let expected = format!("{e}[38;2;0;10;200m{u}{e}[0m", e = ESC, u = UPPER);
    assert_eq!(lines, vec![expected]);
}

#[test]
fn alpha_is_a_binary_threshold() {
    let almost = rgba(1, 1, vec![255, 0, 0, 254]);
    let zero = rgba(1, 1, vec![255, 0, 0, 0]);
    assert_eq!(render(&almost, true), render(&zero, true));
    assert_eq!(render(&almost, true), vec![" ".to_string()]);
    let full = rgba(1, 1, vec![255, 0, 0, 255]);
    assert_ne!(render(&full, true), render(&zero, true));
}

#[test]
fn odd_height_last_row_bottom_unlit() {
    // Height 3: the second output row covers rows 2 and the missing row 3,
    // whose half must come out unlit whatever the buffer holds.
    let src = gray(1, 3, vec![0, 255, 0, 255, 0, 255]);
    let lines = render(&src, false);
    assert_eq!(lines, vec![FULL.to_string(), UPPER.to_string()]);
    // A lone opaque pixel in color mode gets a foreground-only escape:
    // the absent bottom half contributes no background.
    let one = rgba(1, 1, vec![5, 6, 7, 255]);
    let expected = format!("{e}[38;2;5;6;7m{u}{e}[0m", e = ESC, u = UPPER);
    assert_eq!(render(&one, true), vec![expected]);
}

#[test]
fn red_pixel_end_to_end() {
    let src = rgba(1, 1, vec![255, 0, 0, 255]);
    let expected = format!("{e}[38;2;255;0;0m{u}{e}[0m", e = ESC, u = UPPER);
    assert_eq!(render(&src, true), vec![expected]);
    let gray_src = gray(1, 1, vec![76, 255]);
    assert_eq!(render(&gray_src, false), vec![UPPER.to_string()]);
}

#[test]
fn two_by_two_end_to_end() {
    let src = rgba(
        2,
        2,
        vec![
            255, 0, 0, 255, 0, 255, 0, 255, // top row: red, green
            0, 0, 255, 255, 255, 255, 0, 255, // bottom row: blue, yellow
        ],
    );
    let cell1 = format!("{e}[38;2;255;0;0;48;2;0;0;255m{u}{e}[0m", e = ESC, u = UPPER);
    let cell2 = format!(
        "{e}[38;2;0;255;0;48;2;255;255;0m{u}{e}[0m",
        e = ESC,
        u = UPPER,
    );
    assert_eq!(render(&src, true), vec![format!("{cell1}{cell2}")]);
}

#[test]
fn transparent_column_is_a_bare_space() {
    let color_src = rgba(1, 2, vec![1, 2, 3, 0, 4, 5, 6, 0]);
    assert_eq!(render(&color_src, true), vec![" ".to_string()]);
    assert_eq!(render(&color_src, false), vec![" ".to_string()]);
    let gray_src = gray(1, 2, vec![1, 0, 2, 0]);
    assert_eq!(render(&gray_src, true), vec![" ".to_string()]);
    assert_eq!(render(&gray_src, false), vec![" ".to_string()]);
}

#[test]
fn constructors_reject_mismatched_buffers() {
    assert!(PixelSource::new_rgba(1, 1, vec![0, 0, 0]).is_none());
    assert!(PixelSource::new_rgba(2, 2, vec![0; 17]).is_none());
    assert!(PixelSource::new_gray_alpha(3, 1, vec![0; 5]).is_none());
    assert!(PixelSource::new_gray_alpha(0, 9, vec![0]).is_none());
    assert!(PixelSource::new_rgba(2, 1, vec![0; 8]).is_some());
}

#[test]
fn accessors_read_the_buffer() {
    let src = rgba(2, 1, vec![1, 2, 3, 4, 5, 6, 7, 8]);
    assert_eq!(src.width(), 2);
    assert_eq!(src.height(), 1);
    assert_eq!(src.get_alpha(0, 0), 4);
    assert_eq!(src.get_alpha(1, 0), 8);
    assert_eq!(src.get_color(0, 0), Some((1, 2, 3)));
    assert_eq!(src.get_color(1, 0), Some((5, 6, 7)));
    let g = gray(1, 1, vec![9, 10]);
    assert_eq!(g.get_alpha(0, 0), 10);
    assert_eq!(g.get_color(0, 0), None);
}

#[test]
fn glyph_choice_is_exact() {
    assert_eq!(glyph_for(false, false, false), ' ');
    assert_eq!(glyph_for(false, false, true), ' ');
    assert_eq!(glyph_for(false, true, false), LOWER);
    assert_eq!(glyph_for(false, true, true), LOWER);
    assert_eq!(glyph_for(true, false, false), UPPER);
    assert_eq!(glyph_for(true, false, true), UPPER);
    assert_eq!(glyph_for(true, true, true), UPPER);
    assert_eq!(glyph_for(true, true, false), FULL);
}
