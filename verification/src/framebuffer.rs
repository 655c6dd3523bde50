use vstd::prelude::*;

verus! {

use crate::rect::Rect;

/// Largest side length a pixel buffer may have. Keeps every index
/// computation (`y * width + x`, `width * height`) comfortably inside
/// `usize` on any target.
pub const MAX_DIM: usize = 4096;

/// The background color every surface is cleared to.
pub const BLACK: u32 = 0x000000;

/// Mathematical model of a pixel buffer: its dimensions and the row-major
/// sequence of 32-bit color cells, origin at the top-left corner.
#[verifier::ext_equal]
pub ghost struct FrameBufferView {
    pub width: nat,
    pub height: nat,
    pub pixels: Seq<u32>,
}

impl FrameBufferView {
    pub open spec fn wf(self) -> bool {
        self.pixels.len() == self.width * self.height && self.width <= MAX_DIM && self.height
            <= MAX_DIM
    }

    /// The inclusive, always-clipped bounds policy of this crate: a
    /// coordinate is drawable exactly when it lies in
    /// `[0, width) x [0, height)`; row and column 0 are inside.
    pub open spec fn in_bounds(self, x: int, y: int) -> bool {
        0 <= x < self.width && 0 <= y < self.height
    }

    /// The cell at `(x, y)`; meaningful only in bounds.
    pub open spec fn at(self, x: int, y: int) -> u32 {
        self.pixels[y * self.width + x]
    }

    /// The buffer after a clipped single-cell write: the cell changes when
    /// `(x, y)` is in bounds, and nothing at all happens otherwise.
    pub open spec fn write(self, x: int, y: int, c: u32) -> FrameBufferView {
        if self.in_bounds(x, y) {
            FrameBufferView {
                width: self.width,
                height: self.height,
                pixels: self.pixels.update(y * self.width + x, c),
            }
        } else {
            self
        }
    }
}

/// A row-major index stays inside a `width x height` buffer, and under the
/// dimension cap it also stays far below `usize::MAX`.
pub proof fn lemma_index_in_range(width: int, height: int, x: int, y: int)
    requires
        0 <= x < width,
        0 <= y < height,
        width <= MAX_DIM,
        height <= MAX_DIM,
    ensures
        0 <= y * width + x < width * height,
        y * width + x < 0x1000000,
{
    assert(0 <= y * width + x < width * height && width * height <= 0x1000000)
        by (nonlinear_arith)
        requires
            0 <= x < width,
            0 <= y < height,
            width <= MAX_DIM,
            height <= MAX_DIM,
    ;
}

/// Distinct in-bounds coordinates land on distinct row-major indices.
pub proof fn lemma_index_injective(width: int, x1: int, y1: int, x2: int, y2: int)
    requires
        0 <= x1 < width,
        0 <= x2 < width,
        0 <= y1,
        0 <= y2,
        !(x1 == x2 && y1 == y2),
    ensures
        y1 * width + x1 != y2 * width + x2,
{
    assert(y1 * width + x1 != y2 * width + x2) by (nonlinear_arith)
        requires
            0 <= x1 < width,
            0 <= x2 < width,
            0 <= y1,
            0 <= y2,
            !(x1 == x2 && y1 == y2),
    ;
}

/// How one clipped write reads back: the written cell holds the new color,
/// every other in-bounds cell is untouched, and an out-of-bounds write
/// changes nothing.
pub proof fn lemma_write_at(v: FrameBufferView, x: int, y: int, c: u32)
    requires
        v.wf(),
    ensures
        v.write(x, y, c).wf(),
        v.write(x, y, c).width == v.width,
        v.write(x, y, c).height == v.height,
        v.write(x, y, c).pixels.len() == v.pixels.len(),
        forall|px: int, py: int|
            v.in_bounds(px, py) ==> v.write(x, y, c).at(px, py) == (if px == x && py == y
                && v.in_bounds(x, y) {
                c
            } else {
                v.at(px, py)
            }),
{
    if v.in_bounds(x, y) {
        lemma_index_in_range(v.width as int, v.height as int, x, y);
        assert forall|px: int, py: int| v.in_bounds(px, py) implies v.write(x, y, c).at(px, py) == (
        if px == x && py == y {
            c
        } else {
            v.at(px, py)
        }) by {
            lemma_index_in_range(v.width as int, v.height as int, px, py);
            if px != x || py != y {
                lemma_index_injective(v.width as int, x, y, px, py);
            }
        }
    }
}

/// A pixel buffer: a rectangle of 32-bit color cells held in main memory.
///
/// On bare metal the front buffer's cells live at a device physical address
/// with caching disabled; mapping such memory is the host's business, so
/// inside this crate every buffer is an ordinary owned allocation and the
/// host copies the front buffer out to the device.
pub struct FrameBuffer {
    width: usize,
    height: usize,
    buffer: Vec<u32>,
}

impl View for FrameBuffer {
    type V = FrameBufferView;

    closed spec fn view(&self) -> FrameBufferView {
        FrameBufferView { width: self.width as nat, height: self.height as nat, pixels: self.buffer@ }
    }
}

impl FrameBuffer {
    pub open spec fn wf(self) -> bool {
        self@.wf()
    }

    /// A fresh buffer with every cell set to the background color.
    pub fn new(width: usize, height: usize) -> (r: FrameBuffer)
        requires
            width <= MAX_DIM,
            height <= MAX_DIM,
        ensures
            r.wf(),
            r@.width == width,
            r@.height == height,
            forall|i: int| 0 <= i < r@.pixels.len() ==> r@.pixels[i] == BLACK,
    {
        proof {
            assert(width * height <= MAX_DIM * MAX_DIM) by (nonlinear_arith)
                requires
                    width <= MAX_DIM,
                    height <= MAX_DIM,
            ;
        }
        let size: usize = width * height;
        let mut buffer: Vec<u32> = Vec::new();
        let mut i: usize = 0;
        while i < size
            invariant
                i <= size,
                buffer@.len() == i,
                forall|j: int| 0 <= j < i ==> buffer@[j] == BLACK,
            decreases size - i,
        {
            buffer.push(BLACK);
            i = i + 1;
        }
        FrameBuffer { width, height, buffer }
    }

    pub fn width(&self) -> (r: usize)
        ensures
            r == self@.width,
    {
        self.width
    }

    pub fn height(&self) -> (r: usize)
        ensures
            r == self@.height,
    {
        self.height
    }

    /// Write one cell, clipped: out-of-range coordinates are silently
    /// ignored rather than signalled, and bound 0 is inclusive.
    pub fn draw_something(&mut self, x: isize, y: isize, col: u32)
        requires
            old(self).wf(),
        ensures
            final(self).wf(),
            final(self)@ == old(self)@.write(x as int, y as int, col),
    {
        proof {
            lemma_write_at(old(self)@, x as int, y as int, col);
        }
        if x >= 0 && y >= 0 && (x as usize) < self.width && (y as usize) < self.height {
            proof {
                lemma_index_in_range(
                    self@.width as int,
                    self@.height as int,
                    x as int,
                    y as int,
                );
            }
            let idx: usize = (y as usize) * self.width + (x as usize);
            self.buffer[idx] = col;
        }
    }

    /// Read one cell. Out-of-range coordinates are the caller's error:
    /// callers must pre-validate.
    pub fn get_pixel(&self, x: isize, y: isize) -> (r: u32)
        requires
            self.wf(),
            self@.in_bounds(x as int, y as int),
        ensures
            r == self@.at(x as int, y as int),
    {
        proof {
            lemma_index_in_range(self@.width as int, self@.height as int, x as int, y as int);
        }
        self.buffer[(y as usize) * self.width + (x as usize)]
    }

    /// Fill every cell of `rect` with `col`, one clipped write per cell, so
    /// the part of `rect` hanging outside the buffer is ignored.
    pub fn draw_rectangle(&mut self, rect: &Rect, col: u32)
        requires
            old(self).wf(),
            rect.fits(),
        ensures
            final(self).wf(),
            final(self)@.width == old(self)@.width,
            final(self)@.height == old(self)@.height,
            forall|px: int, py: int|
                old(self)@.in_bounds(px, py) ==> final(self)@.at(px, py) == (if rect.contains(
                    px,
                    py,
                ) {
                    col
                } else {
                    old(self)@.at(px, py)
                }),
    {
        let ghost orig = self@;
        let mut y: isize = rect.start_y();
        let end_y: isize = rect.end_y();
        let end_x: isize = rect.end_x();
        while y < end_y
            invariant
                self.wf(),
                rect.fits(),
                end_y == rect.spec_end_y(),
                end_x == rect.spec_end_x(),
                rect.y <= y <= end_y,
                self@.width == orig.width,
                self@.height == orig.height,
                forall|px: int, py: int|
                    orig.in_bounds(px, py) ==> self@.at(px, py) == (if rect.contains(px, py)
                        && py < y {
                        col
                    } else {
                        orig.at(px, py)
                    }),
            decreases end_y - y,
        {
            let mut x: isize = rect.start_x();
            while x < end_x
                invariant
                    self.wf(),
                    rect.fits(),
                    end_x == rect.spec_end_x(),
                    rect.y <= y < rect.spec_end_y(),
                    rect.x <= x <= end_x,
                    self@.width == orig.width,
                    self@.height == orig.height,
                    forall|px: int, py: int|
                        orig.in_bounds(px, py) ==> self@.at(px, py) == (if rect.contains(
                            px,
                            py,
                        ) && (py < y || (py == y && px < x)) {
                            col
                        } else {
                            orig.at(px, py)
                        }),
                decreases end_x - x,
            {
                let ghost pre = self@;
                let ghost xi = x as int;
                self.draw_something(x, y, col);
                x = x + 1;
                proof {
                    lemma_write_at(pre, xi, y as int, col);
                    assert forall|px: int, py: int| orig.in_bounds(px, py) implies self@.at(
                        px,
                        py,
                    ) == (if rect.contains(px, py) && (py < y || (py == y && px < x)) {
                        col
                    } else {
                        orig.at(px, py)
                    }) by {
                        assert(pre.in_bounds(px, py));
                        assert(self@.at(px, py) == (if px == xi && py == y && pre.in_bounds(
                            xi,
                            y as int,
                        ) {
                            col
                        } else {
                            pre.at(px, py)
                        }));
                    }
                }
            }
            y = y + 1;
        }
    }

    /// Set every cell of the buffer to `col`.
    pub fn fill(&mut self, col: u32)
        requires
            old(self).wf(),
        ensures
            final(self).wf(),
            final(self)@.width == old(self)@.width,
            final(self)@.height == old(self)@.height,
            forall|i: int| 0 <= i < final(self)@.pixels.len() ==> final(self)@.pixels[i] == col,
            forall|px: int, py: int|
                final(self)@.in_bounds(px, py) ==> final(self)@.at(px, py) == col,
    {
        let len: usize = self.buffer.len();
        let mut i: usize = 0;
        while i < len
            invariant
                i <= len,
                self.width == old(self).width,
                self.height == old(self).height,
                self.buffer@.len() == len,
                len == old(self)@.pixels.len(),
                forall|j: int| 0 <= j < i ==> self.buffer@[j] == col,
            decreases len - i,
        {
            self.buffer[i] = col;
            i = i + 1;
        }
        proof {
            assert forall|px: int, py: int| self@.in_bounds(px, py) implies self@.at(px, py)
                == col by {
                lemma_index_in_range(self@.width as int, self@.height as int, px, py);
            }
        }
    }

    /// Clear the whole buffer to the background color.
    pub fn blank(&mut self)
        requires
            old(self).wf(),
        ensures
            final(self).wf(),
            final(self)@.width == old(self)@.width,
            final(self)@.height == old(self)@.height,
            forall|i: int| 0 <= i < final(self)@.pixels.len() ==> final(self)@.pixels[i] == BLACK,
            forall|px: int, py: int|
                final(self)@.in_bounds(px, py) ==> final(self)@.at(px, py) == BLACK,
    {
        self.fill(BLACK);
    }

    /// Clear every cell of `rect` to the background color. Like every
    /// drawing primitive here the writes are clipped to the buffer, so a
    /// rect reaching outside the bounds is safe.
    pub fn blank_rect(&mut self, rect: &Rect)
        requires
            old(self).wf(),
            rect.fits(),
        ensures
            final(self).wf(),
            final(self)@.width == old(self)@.width,
            final(self)@.height == old(self)@.height,
            forall|px: int, py: int|
                old(self)@.in_bounds(px, py) ==> final(self)@.at(px, py) == (if rect.contains(
                    px,
                    py,
                ) {
                    BLACK
                } else {
                    old(self)@.at(px, py)
                }),
    {
        self.draw_rectangle(rect, BLACK);
    }

    /// Copy another buffer of the same dimensions into this one wholesale.
    pub fn copy_from(&mut self, other: &FrameBuffer)
        requires
            old(self).wf(),
            other.wf(),
            old(self)@.width == other@.width,
            old(self)@.height == other@.height,
        ensures
            final(self).wf(),
            final(self)@.width == old(self)@.width,
            final(self)@.height == old(self)@.height,
            final(self)@.pixels == other@.pixels,
    {
        let len: usize = self.buffer.len();
        let mut i: usize = 0;
        while i < len
            invariant
                i <= len,
                self.width == old(self).width,
                self.height == old(self).height,
                self.buffer@.len() == len,
                len == old(self)@.pixels.len(),
                len == other@.pixels.len(),
                other.wf(),
                forall|j: int| 0 <= j < i ==> self.buffer@[j] == other@.pixels[j],
            decreases len - i,
        {
            let c: u32 = other.buffer[i];
            self.buffer[i] = c;
            i = i + 1;
        }
        proof {
            assert(final(self)@.pixels =~= other@.pixels);
        }
    }
}

/// Two well-formed buffers of the same dimensions whose cells agree at
/// every in-bounds coordinate are the same buffer.
pub proof fn lemma_pointwise_eq(v1: FrameBufferView, v2: FrameBufferView)
    requires
        v1.wf(),
        v2.wf(),
        v1.width == v2.width,
        v1.height == v2.height,
        forall|gx: int, gy: int| v1.in_bounds(gx, gy) ==> v1.at(gx, gy) == v2.at(gx, gy),
    ensures
        v1 == v2,
{
    let w = v1.width as int;
    let h = v1.height as int;
    assert forall|i: int| 0 <= i < v1.pixels.len() implies v1.pixels[i] == v2.pixels[i] by {
        assert(w > 0 && h > 0) by (nonlinear_arith)
            requires
                0 <= i < w * h,
                w >= 0,
                h >= 0,
        ;
        vstd::arithmetic::div_mod::lemma_fundamental_div_mod(i, w);
        vstd::arithmetic::div_mod::lemma_mod_bound(i, w);
        let gx = i % w;
        let gy = i / w;
        vstd::arithmetic::mul::lemma_mul_is_commutative(w, gy);
        assert(0 <= gy && gy < h) by (nonlinear_arith)
            requires
                i == gy * w + gx,
                0 <= gx < w,
                0 <= i < w * h,
        ;
        assert(v1.in_bounds(gx, gy));
        assert(v1.at(gx, gy) == v1.pixels[i]);
        assert(v2.at(gx, gy) == v2.pixels[i]);
    }
    assert(v1.pixels =~= v2.pixels);
    assert(v1 =~= v2);
}

/// The written-then-read law of the pixel primitives: a clipped write inside
/// `[0, width) x [0, height)` is returned verbatim by a read of the same
/// cell, and a write aimed outside the bounds alters no in-bounds cell.
pub proof fn lemma_draw_then_get(v: FrameBufferView, x: int, y: int, c: u32)
    requires
        v.wf(),
    ensures
        v.in_bounds(x, y) ==> v.write(x, y, c).at(x, y) == c,
        !v.in_bounds(x, y) ==> forall|px: int, py: int|
            v.in_bounds(px, py) ==> v.write(x, y, c).at(px, py) == v.at(px, py),
{
    lemma_write_at(v, x, y, c);
}

} // verus!
