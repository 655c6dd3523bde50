use porthole::framebuffer::FrameBuffer;
use porthole::rect::Rect;
use porthole::text::{FontTable, TextDisplay};
use porthole::window::Window;

const FG: u32 = 0x123456;
const BG: u32 = 0xFFF111;

fn window(width: usize, height: usize) -> Window {
    Window::new(Rect::new(width, height, 0, 0), FrameBuffer::new(width, height))
}

/// A font whose glyph for 'A' has the row byte 0b1010_0000 in row 0 and
/// 0xFF in row 1, and whose other glyphs are fully blank.
fn test_font() -> FontTable {
    let mut rows = vec![0u8; 4096];
    rows[(b'A' as usize) * 16] = 0b1010_0000;
    rows[(b'A' as usize) * 16 + 1] = 0xFF;
    FontTable::new(rows).unwrap()
}

#[test]
fn font_table_rejects_wrong_length() {
    assert!(FontTable::new(vec![0u8; 100]).is_err());
    assert!(FontTable::new(vec![0u8; 4096]).is_ok());
}

#[test]
fn glyph_pixels_follow_the_bitmap_bits() {
    let font = test_font();
    let mut w = window(64, 64);
    w.print_ascii_character(b'A', FG, BG, &font, 0, 0);
    // row 0: bits 1010_0000, most-significant bit leftmost
    assert_eq!(w.get_pixel(0, 0), FG);
    assert_eq!(w.get_pixel(1, 0), BG);
    assert_eq!(w.get_pixel(2, 0), FG);
    assert_eq!(w.get_pixel(3, 0), BG);
    assert_eq!(w.get_pixel(7, 0), BG);
    // row 1: all bits set
    for x in 0..8 {
        assert_eq!(w.get_pixel(x, 1), FG);
    }
    // row 2: all clear
    assert_eq!(w.get_pixel(0, 2), BG);
    // outside the glyph cell nothing was drawn
    assert_eq!(w.get_pixel(8, 0), 0x000000);
}

#[test]
fn glyph_cell_is_placed_at_the_grid_position() {
    let font = test_font();
    let mut w = window(64, 64);
    w.print_ascii_character(b'A', FG, BG, &font, 2, 1);
    assert_eq!(w.get_pixel(16, 16), FG);
    assert_eq!(w.get_pixel(17, 16), BG);
    assert_eq!(w.get_pixel(0, 0), 0x000000);
}

#[test]
fn print_string_advances_one_cell_per_glyph() {
    let font = test_font();
    let mut w = window(64, 64);
    w.print_string("AA", FG, BG, &font, 0, 0);
    assert_eq!(w.get_pixel(0, 0), FG);
    assert_eq!(w.get_pixel(8, 0), FG);
    assert_eq!(w.get_pixel(16, 0), 0x000000);
}

#[test]
fn print_string_newline_resets_to_starting_column() {
    let font = test_font();
    let mut w = window(64, 64);
    w.print_string("A\nA", FG, BG, &font, 1, 0);
    assert_eq!(w.get_pixel(8, 0), FG);
    assert_eq!(w.get_pixel(8, 16), FG);
    assert_eq!(w.get_pixel(0, 16), 0x000000);
}

#[test]
fn print_string_wraps_at_grid_width() {
    let font = test_font();
    // a 64-pixel-wide window holds 8 glyph columns
    let mut w = window(64, 64);
    w.print_string("AAAAAAAAA", FG, BG, &font, 0, 0);
    // the ninth glyph wraps to the next line at the starting column
    assert_eq!(w.get_pixel(0, 16), FG);
    assert_eq!(w.get_pixel(56, 0), FG);
}

#[test]
fn text_display_starts_empty() {
    let t = TextDisplay::new(80, 25, FG, BG);
    assert_eq!(t.width, 80);
    assert_eq!(t.height, 25);
    assert_eq!(t.next_col, 0);
    assert_eq!(t.next_line, 0);
    assert!(t.text.is_empty());
    assert!(t.cache.is_empty());
}
