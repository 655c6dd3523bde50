use vstd::prelude::*;

verus! {

use crate::framebuffer::FrameBuffer;
use crate::rect::Rect;

/// The solid color the status-bar demo paints.
///
/// A bare-metal host may derive its shade by mixing red into this green
/// with a floating-point weighted blend; such a mix stays outside the
/// verified core, which paints the chosen color directly.
pub const DEMO_COLOR: u32 = 0x239B56;

/// Side length of the demo's square.
pub const DEMO_SIZE: usize = 50;

/// One pass of the status-bar demo's drawing work: paint its fixed square
/// at the surface's top-left corner. The surrounding endless loop — render
/// the window, yield to the scheduler, repeat — is the host's, which calls
/// this once per turn; the drawing itself cannot fail.
pub fn foo_loop(fb: &mut FrameBuffer) -> (r: Result<(), &'static str>)
    requires
        old(fb).wf(),
    ensures
        r is Ok,
        final(fb).wf(),
        final(fb)@.width == old(fb)@.width,
        final(fb)@.height == old(fb)@.height,
        forall|px: int, py: int|
            old(fb)@.in_bounds(px, py) ==> final(fb)@.at(px, py) == (if 0 <= px < DEMO_SIZE && 0
                <= py < DEMO_SIZE {
                DEMO_COLOR
            } else {
                old(fb)@.at(px, py)
            }),
{
    let square = Rect::new(DEMO_SIZE, DEMO_SIZE, 0, 0);
    fb.draw_rectangle(&square, DEMO_COLOR);
    Ok(())
}

} // verus!
