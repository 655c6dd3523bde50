use porthole::framebuffer::FrameBuffer;
use porthole::rect::Rect;
use porthole::window::Window;

fn window_at(width: usize, height: usize, x: isize, y: isize) -> Window {
    let rect = Rect::new(width, height, x, y);
    Window::new(rect, FrameBuffer::new(width, height))
}

#[test]
fn draw_absolute_writes_window_local_cells() {
    let mut w = window_at(20, 20, 100, 100);
    w.draw_absolute(5, 6, 0xCAFE);
    assert_eq!(w.get_pixel(5, 6), 0xCAFE);
    assert_eq!(w.get_pixel(6, 5), 0x000000);
}

#[test]
fn draw_relative_subtracts_window_position() {
    let mut w = window_at(20, 20, 10, 10);
    w.draw_relative(15, 17, 0xBEEF);
    assert_eq!(w.get_pixel(5, 7), 0xBEEF);
}

#[test]
fn draw_rectangle_fills_whole_surface() {
    let mut w = window_at(8, 8, 0, 0);
    w.draw_rectangle(0x4A4A4A);
    for y in 0..8 {
        for x in 0..8 {
            assert_eq!(w.get_pixel(x, y), 0x4A4A4A);
        }
    }
    assert!(!w.resized());
}

#[test]
fn blank_consumes_content() {
    let mut w = window_at(8, 8, 0, 0);
    w.draw_rectangle(0x123123);
    w.blank();
    assert_eq!(w.get_pixel(3, 3), 0x000000);
}

#[test]
fn blank_with_color_fills_local_rect() {
    let mut w = window_at(10, 10, 0, 0);
    let r = Rect::new(2, 3, 4, 5);
    w.blank_with_color(&r, 0x999999);
    assert_eq!(w.get_pixel(4, 5), 0x999999);
    assert_eq!(w.get_pixel(5, 7), 0x999999);
    assert_eq!(w.get_pixel(3, 5), 0x000000);
}

#[test]
fn set_position_moves_only_the_rect() {
    let mut w = window_at(10, 10, 0, 0);
    w.draw_absolute(1, 1, 0x55);
    w.set_position(30, -4);
    let r = w.rect();
    assert_eq!(r.x, 30);
    assert_eq!(r.y, -4);
    assert_eq!(r.width, 10);
    assert_eq!(w.get_pixel(1, 1), 0x55);
}

#[test]
fn resize_is_deferred_until_next_fill() {
    let mut w = window_at(10, 10, 0, 0);
    w.request_resize(16, 12);
    assert!(w.resized());
    assert_eq!(w.buffer_width(), 10);
    assert_eq!(w.buffer_height(), 10);
    assert_eq!(w.rect().width, 16);
    assert_eq!(w.rect().height, 12);
    w.draw_rectangle(0x31);
    assert!(!w.resized());
    assert_eq!(w.buffer_width(), 16);
    assert_eq!(w.buffer_height(), 12);
    assert_eq!(w.get_pixel(15, 11), 0x31);
}

#[test]
fn blit_clips_partially_off_screen_window() {
    let mut screen = FrameBuffer::new(100, 100);
    let mut w = window_at(10, 10, 95, 95);
    w.draw_rectangle(0xABAB);
    screen.copy_window_only(&w);
    assert_eq!(screen.get_pixel(95, 95), 0xABAB);
    assert_eq!(screen.get_pixel(99, 99), 0xABAB);
    assert_eq!(screen.get_pixel(94, 94), 0x000000);
}

#[test]
fn blit_places_window_pixels_at_its_offset() {
    let mut screen = FrameBuffer::new(50, 50);
    let mut w = window_at(4, 4, 10, 20);
    w.draw_absolute(2, 3, 0xD00D);
    screen.copy_window_only(&w);
    assert_eq!(screen.get_pixel(12, 23), 0xD00D);
    assert_eq!(screen.get_pixel(10, 20), 0x000000);
    assert_eq!(screen.get_pixel(14, 24), 0x000000);
}
