use vstd::prelude::*;

verus! {

use crate::framebuffer::{FrameBuffer, FrameBufferView, BLACK, MAX_DIM, lemma_write_at};
use crate::rect::Rect;

/// Mathematical model of a window: its screen rectangle, its private pixel
/// buffer, and whether a resize is pending (requested but not yet applied to
/// the buffer).
#[verifier::ext_equal]
pub ghost struct WindowView {
    pub rect: Rect,
    pub fb: FrameBufferView,
    pub resized: bool,
}

impl WindowView {
    pub open spec fn wf(self) -> bool {
        &&& self.fb.wf()
        &&& self.rect.width <= MAX_DIM
        &&& self.rect.height <= MAX_DIM
        &&& self.rect.fits()
        &&& (!self.resized ==> self.fb.width == self.rect.width && self.fb.height
            == self.rect.height)
    }

    /// Columns of the window that actually have backing pixels: a pending
    /// resize can leave the rectangle wider or narrower than the buffer, and
    /// only the overlap is drawable.
    pub open spec fn vis_width(self) -> int {
        if self.rect.width <= self.fb.width {
            self.rect.width as int
        } else {
            self.fb.width as int
        }
    }

    pub open spec fn vis_height(self) -> int {
        if self.rect.height <= self.fb.height {
            self.rect.height as int
        } else {
            self.fb.height as int
        }
    }

    /// Does this window supply a pixel for the screen coordinate `(x, y)`?
    pub open spec fn covers(self, x: int, y: int) -> bool {
        self.rect.x <= x < self.rect.x + self.vis_width() && self.rect.y <= y < self.rect.y
            + self.vis_height()
    }

    /// The window's pixel for the screen coordinate `(x, y)`; meaningful
    /// only where `covers` holds.
    pub open spec fn pixel_at(self, x: int, y: int) -> u32 {
        self.fb.at(x - self.rect.x, y - self.rect.y)
    }

    /// This window with its buffer consumed: every cell back to the
    /// background color, geometry and flags untouched.
    pub open spec fn blanked(self) -> WindowView {
        WindowView {
            rect: self.rect,
            resized: self.resized,
            fb: FrameBufferView {
                width: self.fb.width,
                height: self.fb.height,
                pixels: Seq::new(self.fb.pixels.len(), |i: int| BLACK),
            },
        }
    }
}

/// A buffer with the given dimensions holding `col` in every cell.
pub open spec fn fill_view(width: nat, height: nat, col: u32) -> FrameBufferView {
    FrameBufferView { width, height, pixels: Seq::new(width * height, |i: int| col) }
}

/// One drawable surface: a screen rectangle plus a private pixel buffer the
/// owner draws into, composited by the manager once per frame.
///
/// A resize request only changes the rectangle and raises a flag; the buffer
/// is reallocated lazily by the next `draw_rectangle` (the full-surface
/// fill), never eagerly.
pub struct Window {
    rect: Rect,
    pub frame_buffer: FrameBuffer,
    resized: bool,
}

impl View for Window {
    type V = WindowView;

    closed spec fn view(&self) -> WindowView {
        WindowView { rect: self.rect, fb: self.frame_buffer@, resized: self.resized }
    }
}

impl Window {
    pub open spec fn wf(self) -> bool {
        self@.wf()
    }

    pub fn new(rect: Rect, frame_buffer: FrameBuffer) -> (r: Window)
        requires
            frame_buffer.wf(),
            frame_buffer@.width == rect.width,
            frame_buffer@.height == rect.height,
            rect.fits(),
        ensures
            r.wf(),
            r@ == (WindowView { rect, fb: frame_buffer@, resized: false }),
    {
        Window { rect, frame_buffer, resized: false }
    }

    /// The window's current screen rectangle.
    pub fn rect(&self) -> (r: Rect)
        ensures
            r == self@.rect,
    {
        self.rect
    }

    /// The backing buffer's current width, which lags behind the rectangle
    /// while a resize is pending.
    pub fn buffer_width(&self) -> (r: usize)
        ensures
            r == self@.fb.width,
    {
        self.frame_buffer.width()
    }

    /// The backing buffer's current height.
    pub fn buffer_height(&self) -> (r: usize)
        ensures
            r == self@.fb.height,
    {
        self.frame_buffer.height()
    }

    /// Read one cell of the window's own buffer at window-local
    /// coordinates; callers must pre-validate the bounds.
    pub fn get_pixel(&self, x: isize, y: isize) -> (r: u32)
        requires
            self.wf(),
            self@.fb.in_bounds(x as int, y as int),
        ensures
            r == self@.fb.at(x as int, y as int),
    {
        self.frame_buffer.get_pixel(x, y)
    }

    /// Is a resize waiting to be applied to the buffer?
    pub fn resized(&self) -> (r: bool)
        ensures
            r == self@.resized,
    {
        self.resized
    }

    /// Clear the window's own buffer to the background color.
    pub fn blank(&mut self)
        requires
            old(self).wf(),
        ensures
            final(self).wf(),
            final(self)@ == old(self)@.blanked(),
    {
        self.frame_buffer.blank();
        proof {
            assert(self@.fb.pixels =~= old(self)@.blanked().fb.pixels);
            assert(self@ =~= old(self)@.blanked());
        }
    }

    /// Write one cell at window-local coordinates, clipped to the buffer.
    pub fn draw_something(&mut self, x: isize, y: isize, col: u32)
        requires
            old(self).wf(),
        ensures
            final(self).wf(),
            final(self)@.rect == old(self)@.rect,
            final(self)@.resized == old(self)@.resized,
            final(self)@.fb == old(self)@.fb.write(x as int, y as int, col),
    {
        self.frame_buffer.draw_something(x, y, col);
    }

    /// Write one cell, treating the coordinates as already window-local, but
    /// only when they do not exceed the window rectangle's size. This size
    /// test is inclusive — a documented quirk of this call — while the
    /// buffer clip underneath stays exclusive as everywhere.
    pub fn draw_absolute(&mut self, x: isize, y: isize, col: u32)
        requires
            old(self).wf(),
        ensures
            final(self).wf(),
            final(self)@.rect == old(self)@.rect,
            final(self)@.resized == old(self)@.resized,
            final(self)@.fb == (if x <= old(self)@.rect.width && y <= old(self)@.rect.height {
                old(self)@.fb.write(x as int, y as int, col)
            } else {
                old(self)@.fb
            }),
    {
        if x <= self.rect.width as isize && y <= self.rect.height as isize {
            self.draw_something(x, y, col);
        }
    }

    /// Write one cell given in screen coordinates: the window's position is
    /// subtracted first, then the write is clipped to the buffer.
    pub fn draw_relative(&mut self, x: isize, y: isize, col: u32)
        requires
            old(self).wf(),
            isize::MIN <= x - old(self)@.rect.x <= isize::MAX,
            isize::MIN <= y - old(self)@.rect.y <= isize::MAX,
        ensures
            final(self).wf(),
            final(self)@.rect == old(self)@.rect,
            final(self)@.resized == old(self)@.resized,
            final(self)@.fb == old(self)@.fb.write(
                x - old(self)@.rect.x,
                y - old(self)@.rect.y,
                col,
            ),
    {
        let lx = x - self.rect.x;
        let ly = y - self.rect.y;
        self.draw_something(lx, ly, col);
    }

    /// Fill a window-local rectangle with `col`, every cell clipped to the
    /// buffer.
    pub fn blank_with_color(&mut self, rect: &Rect, col: u32)
        requires
            old(self).wf(),
            rect.fits(),
        ensures
            final(self).wf(),
            final(self)@.rect == old(self)@.rect,
            final(self)@.resized == old(self)@.resized,
            final(self)@.fb.width == old(self)@.fb.width,
            final(self)@.fb.height == old(self)@.fb.height,
            forall|px: int, py: int|
                old(self)@.fb.in_bounds(px, py) ==> final(self)@.fb.at(px, py) == (
                if rect.contains(px, py) {
                    col
                } else {
                    old(self)@.fb.at(px, py)
                }),
    {
        self.frame_buffer.draw_rectangle(rect, col);
    }

    /// Fill the whole surface with `col`. If a resize is pending, the buffer
    /// is first reallocated to the rectangle's current size; this is the
    /// single place deferred resizes take effect.
    pub fn draw_rectangle(&mut self, col: u32)
        requires
            old(self).wf(),
        ensures
            final(self).wf(),
            final(self)@ == (WindowView {
                rect: old(self)@.rect,
                resized: false,
                fb: fill_view(old(self)@.rect.width as nat, old(self)@.rect.height as nat, col),
            }),
    {
        if self.resized {
            self.resize_framebuffer();
            self.resized = false;
        }
        self.frame_buffer.fill(col);
        proof {
            let target = fill_view(old(self)@.rect.width as nat, old(self)@.rect.height as nat, col);
            assert(self@.fb.pixels =~= target.pixels);
            assert(self@.fb =~= target);
        }
    }

    /// Move the window; the size and the buffer stay as they are.
    pub fn set_position(&mut self, x: isize, y: isize)
        requires
            old(self).wf(),
            x + old(self)@.rect.width <= isize::MAX,
            y + old(self)@.rect.height <= isize::MAX,
        ensures
            final(self).wf(),
            final(self)@.rect == (Rect {
                width: old(self)@.rect.width,
                height: old(self)@.rect.height,
                x,
                y,
            }),
            final(self)@.fb == old(self)@.fb,
            final(self)@.resized == old(self)@.resized,
    {
        self.rect.x = x;
        self.rect.y = y;
    }

    /// Record a new size for the window and flag the buffer reallocation as
    /// pending; the buffer itself is untouched until the next full fill.
    pub fn request_resize(&mut self, width: usize, height: usize)
        requires
            old(self).wf(),
            width <= MAX_DIM,
            height <= MAX_DIM,
            old(self)@.rect.x + width <= isize::MAX,
            old(self)@.rect.y + height <= isize::MAX,
        ensures
            final(self).wf(),
            final(self)@.rect == (Rect {
                width,
                height,
                x: old(self)@.rect.x,
                y: old(self)@.rect.y,
            }),
            final(self)@.fb == old(self)@.fb,
            final(self)@.resized == true,
    {
        self.rect.width = width;
        self.rect.height = height;
        self.resized = true;
    }

    /// Reallocate the buffer to the rectangle's current size, every cell at
    /// the background color.
    fn resize_framebuffer(&mut self)
        requires
            old(self).wf(),
        ensures
            final(self).wf(),
            final(self)@.rect == old(self)@.rect,
            final(self)@.resized == old(self)@.resized,
            final(self)@.fb.width == old(self)@.rect.width,
            final(self)@.fb.height == old(self)@.rect.height,
            forall|i: int|
                0 <= i < final(self)@.fb.pixels.len() ==> final(self)@.fb.pixels[i] == BLACK,
    {
        self.frame_buffer = FrameBuffer::new(self.rect.width, self.rect.height);
    }
}

impl FrameBuffer {
    /// Copy a window's buffer into this one at the window's position, one
    /// pixel at a time, every pixel clipped against this buffer, so a
    /// partially off-screen window lands partially.
    pub fn copy_window_only(&mut self, window: &Window)
        requires
            old(self).wf(),
            window.wf(),
        ensures
            final(self).wf(),
            final(self)@.width == old(self)@.width,
            final(self)@.height == old(self)@.height,
            forall|px: int, py: int|
                old(self)@.in_bounds(px, py) ==> final(self)@.at(px, py) == (
                if window@.covers(px, py) {
                    window@.pixel_at(px, py)
                } else {
                    old(self)@.at(px, py)
                }),
    {
        let ghost orig = self@;
        let ghost w = window@;
        let rect = window.rect();
        let fb_w = window.frame_buffer.width();
        let fb_h = window.frame_buffer.height();
        let vis_w: usize = if rect.width <= fb_w {
            rect.width
        } else {
            fb_w
        };
        let vis_h: usize = if rect.height <= fb_h {
            rect.height
        } else {
            fb_h
        };
        let mut ly: usize = 0;
        while ly < vis_h
            invariant
                self.wf(),
                window.wf(),
                w == window@,
                vis_w == w.vis_width(),
                vis_h == w.vis_height(),
                rect == w.rect,
                0 <= ly <= vis_h,
                self@.width == orig.width,
                self@.height == orig.height,
                orig.wf(),
                forall|px: int, py: int|
                    orig.in_bounds(px, py) ==> self@.at(px, py) == (if w.covers(px, py) && py
                        - w.rect.y < ly {
                        w.pixel_at(px, py)
                    } else {
                        orig.at(px, py)
                    }),
            decreases vis_h - ly,
        {
            let mut lx: usize = 0;
            while lx < vis_w
                invariant
                    self.wf(),
                    window.wf(),
                    w == window@,
                    vis_w == w.vis_width(),
                    vis_h == w.vis_height(),
                    rect == w.rect,
                    0 <= ly < vis_h,
                    0 <= lx <= vis_w,
                    self@.width == orig.width,
                    self@.height == orig.height,
                    orig.wf(),
                    forall|px: int, py: int|
                        orig.in_bounds(px, py) ==> self@.at(px, py) == (if w.covers(px, py) && (py
                            - w.rect.y < ly || (py - w.rect.y == ly && px - w.rect.x < lx)) {
                            w.pixel_at(px, py)
                        } else {
                            orig.at(px, py)
                        }),
                decreases vis_w - lx,
            {
                let pixel = window.frame_buffer.get_pixel(lx as isize, ly as isize);
                let sx: isize = rect.x + lx as isize;
                let sy: isize = rect.y + ly as isize;
                let ghost pre = self@;
                let ghost lxi = lx as int;
                self.draw_something(sx, sy, pixel);
                lx = lx + 1;
                proof {
                    lemma_write_at(pre, sx as int, sy as int, pixel);
                    assert forall|px: int, py: int| orig.in_bounds(px, py) implies self@.at(px, py)
                        == (if w.covers(px, py) && (py - w.rect.y < ly || (py - w.rect.y == ly && px
                        - w.rect.x < lx)) {
                        w.pixel_at(px, py)
                    } else {
                        orig.at(px, py)
                    }) by {
                        assert(pre.in_bounds(px, py));
                        assert(self@.at(px, py) == (if px == sx && py == sy && pre.in_bounds(
                            sx as int,
                            sy as int,
                        ) {
                            pixel
                        } else {
                            pre.at(px, py)
                        }));
                        if px == sx && py == sy {
                            assert(w.covers(px, py));
                            assert(w.pixel_at(px, py) == pixel);
                        }
                    }
                }
            }
            ly = ly + 1;
        }
    }
}

} // verus!
