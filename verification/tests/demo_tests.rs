use porthole::demo::{foo_loop, DEMO_COLOR};
use porthole::framebuffer::FrameBuffer;

#[test]
fn foo_loop_paints_the_demo_square() {
    let mut fb = FrameBuffer::new(100, 100);
    assert!(foo_loop(&mut fb).is_ok());
    assert_eq!(fb.get_pixel(0, 0), DEMO_COLOR);
    assert_eq!(fb.get_pixel(49, 49), DEMO_COLOR);
    assert_eq!(fb.get_pixel(50, 50), 0x000000);
}
