use porthole::framebuffer::FrameBuffer;
use porthole::rect::Rect;

#[test]
fn draw_then_get_returns_written_color() {
    let mut fb = FrameBuffer::new(64, 48);
    fb.draw_something(10, 20, 0xABCDEF);
    assert_eq!(fb.get_pixel(10, 20), 0xABCDEF);
}

#[test]
fn bound_zero_is_inclusive() {
    let mut fb = FrameBuffer::new(16, 16);
    fb.draw_something(0, 0, 0x123456);
    assert_eq!(fb.get_pixel(0, 0), 0x123456);
}

#[test]
fn out_of_bounds_writes_alter_nothing() {
    let mut fb = FrameBuffer::new(8, 8);
    fb.draw_something(2, 2, 0x111111);
    fb.draw_something(-1, 2, 0xFF0000);
    fb.draw_something(2, -3, 0xFF0000);
    fb.draw_something(8, 0, 0xFF0000);
    fb.draw_something(0, 8, 0xFF0000);
    for y in 0..8 {
        for x in 0..8 {
            let expected = if x == 2 && y == 2 { 0x111111 } else { 0x000000 };
            assert_eq!(fb.get_pixel(x, y), expected);
        }
    }
}

#[test]
fn draw_rectangle_fills_and_clips() {
    let mut fb = FrameBuffer::new(10, 10);
    let r = Rect::new(6, 6, 7, 7);
    fb.draw_rectangle(&r, 0x00FF00);
    assert_eq!(fb.get_pixel(7, 7), 0x00FF00);
    assert_eq!(fb.get_pixel(9, 9), 0x00FF00);
    assert_eq!(fb.get_pixel(6, 6), 0x000000);
}

#[test]
fn blank_clears_every_cell() {
    let mut fb = FrameBuffer::new(12, 12);
    fb.draw_something(3, 3, 0xFFFFFF);
    fb.blank();
    for y in 0..12 {
        for x in 0..12 {
            assert_eq!(fb.get_pixel(x, y), 0x000000);
        }
    }
}

#[test]
fn blank_rect_clears_only_the_rect() {
    let mut fb = FrameBuffer::new(10, 10);
    fb.fill(0x777777);
    let r = Rect::new(2, 2, 1, 1);
    fb.blank_rect(&r);
    assert_eq!(fb.get_pixel(1, 1), 0x000000);
    assert_eq!(fb.get_pixel(2, 2), 0x000000);
    assert_eq!(fb.get_pixel(3, 3), 0x777777);
    assert_eq!(fb.get_pixel(0, 0), 0x777777);
}

#[test]
fn copy_from_duplicates_pixels() {
    let mut src = FrameBuffer::new(5, 5);
    src.draw_something(4, 4, 0x42);
    let mut dst = FrameBuffer::new(5, 5);
    dst.copy_from(&src);
    assert_eq!(dst.get_pixel(4, 4), 0x42);
    assert_eq!(dst.get_pixel(0, 0), 0x000000);
}
