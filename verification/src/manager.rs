use vstd::prelude::*;

verus! {

use crate::framebuffer::{FrameBuffer, FrameBufferView, BLACK, MAX_DIM};
use vstd::string::StringSliceAdditionalSpecFns;

use crate::input::MouseEvent;
use crate::rect::Rect;
use crate::window::{Window, WindowView};

/// Cursor bitmap width in pixels.
pub const MOUSE_WIDTH: usize = 11;

/// Cursor bitmap height in pixels.
pub const MOUSE_HEIGHT: usize = 18;

/// The reserved key color of the cursor bitmap: cells of this color are
/// transparent and leave the composited frame visible under the cursor.
pub const MOUSE_TRANSPARENT: u32 = 0xFF0000;

/// The cursor's fixed start position on both axes.
pub const MOUSE_START: isize = 200;

/// Fixed margin, in pixels, that the window-drag policy keeps on-screen:
/// deliberately independent of the window's own size.
pub const DRAG_MARGIN: isize = 20;

/// A window slot as the compositor sees it: a live window, or a tombstone
/// left where the owner has already dropped its window. Tombstones keep
/// later identifiers stable and are skipped, never an error.
pub open spec fn slot_live(s: Option<WindowView>) -> bool {
    s is Some
}

/// Does the slot hold a live window that supplies a pixel at `(x, y)`?
pub open spec fn slot_covers(s: Option<WindowView>, x: int, y: int) -> bool {
    match s {
        Some(w) => w.covers(x, y),
        None => false,
    }
}

/// The pixel such a slot supplies; meaningful only where `slot_covers`.
pub open spec fn slot_pixel(s: Option<WindowView>, x: int, y: int) -> u32 {
    match s {
        Some(w) => w.pixel_at(x, y),
        None => BLACK,
    }
}

/// A slot after its window's buffer has been consumed by a compositing
/// pass; a tombstone stays a tombstone.
pub open spec fn slot_blanked(s: Option<WindowView>) -> Option<WindowView> {
    match s {
        Some(w) => Some(w.blanked()),
        None => None,
    }
}

/// The pixel that painting the slots of `ws` in order, over `base`, leaves
/// at `(x, y)`: the last (most recently registered) live window covering
/// the point wins; where none covers, the base shows through.
pub open spec fn composite_at(
    base: FrameBufferView,
    ws: Seq<Option<WindowView>>,
    x: int,
    y: int,
) -> u32
    decreases ws.len(),
{
    if ws.len() == 0 {
        base.at(x, y)
    } else if slot_covers(ws.last(), x, y) {
        slot_pixel(ws.last(), x, y)
    } else {
        composite_at(base, ws.drop_last(), x, y)
    }
}

/// An all-background buffer of the given dimensions.
pub open spec fn black_view(width: nat, height: nat) -> FrameBufferView {
    FrameBufferView { width, height, pixels: Seq::new(width * height, |i: int| BLACK) }
}

/// The cursor bitmap cell that falls on screen coordinate `(x, y)` when the
/// cursor rect is `mouse`; the bitmap is stored column-major.
pub open spec fn cursor_cell(cursor: Seq<u32>, mouse: Rect, x: int, y: int) -> u32 {
    cursor[(x - mouse.x) * (MOUSE_HEIGHT as int) + (y - mouse.y)]
}

/// Mathematical model of the compositor: the registry in registration
/// order (oldest first), the two screen-sized buffers, the cursor rect and
/// the cursor bitmap.
#[verifier::ext_equal]
pub ghost struct WindowManagerView {
    pub windows: Seq<Option<WindowView>>,
    pub back: FrameBufferView,
    pub front: FrameBufferView,
    pub mouse: Rect,
    pub cursor: Seq<u32>,
}

impl WindowManagerView {
    pub open spec fn wf(self) -> bool {
        &&& self.back.wf()
        &&& self.front.wf()
        &&& self.back.width == self.front.width
        &&& self.back.height == self.front.height
        &&& self.mouse.width == MOUSE_WIDTH
        &&& self.mouse.height == MOUSE_HEIGHT
        &&& 0 <= self.mouse.x <= MAX_DIM
        &&& 0 <= self.mouse.y <= MAX_DIM
        &&& self.cursor.len() == MOUSE_WIDTH * MOUSE_HEIGHT
        &&& (forall|i: int|
            0 <= i < self.windows.len() ==> (match #[trigger] self.windows[i] {
                Some(w) => w.wf(),
                None => true,
            }))
    }

    /// What one compositing pass leaves at `(x, y)` of the back buffer: the
    /// cursor bitmap where it is opaque, else the windows painted in
    /// registration order over a background-cleared screen.
    pub open spec fn frame_pixel(self, x: int, y: int) -> u32 {
        if self.mouse.contains(x, y) && cursor_cell(self.cursor, self.mouse, x, y)
            != MOUSE_TRANSPARENT {
            cursor_cell(self.cursor, self.mouse, x, y)
        } else {
            composite_at(black_view(self.back.width, self.back.height), self.windows, x, y)
        }
    }
}

/// The compositor. It owns the two screen-sized buffers and the registered
/// windows, composites every live window plus the cursor into the back
/// buffer on `update`, and publishes the result with `render`.
///
/// The registry owns the windows and hands each creator a stable index as
/// its handle; `close_window` plays the part of dropping the owning handle
/// (the slot becomes a tombstone that compositing skips), so a window's
/// lifetime stays with its creator while the compositor never dangles.
pub struct WindowManager {
    windows: Vec<Option<Window>>,
    v_framebuffer: FrameBuffer,
    p_framebuffer: FrameBuffer,
    pub mouse: Rect,
    cursor_image: Vec<u32>,
}

impl View for WindowManager {
    type V = WindowManagerView;

    closed spec fn view(&self) -> WindowManagerView {
        WindowManagerView {
            windows: Seq::new(self.windows@.len(), |i: int| match self.windows@[i] {
                Some(w) => Some(w@),
                None => None,
            }),
            back: self.v_framebuffer@,
            front: self.p_framebuffer@,
            mouse: self.mouse,
            cursor: self.cursor_image@,
        }
    }
}

/// The cursor bitmap, column-major: 11 columns of 18 cells. `0xFF0000` is
/// the transparent key, `0x000000` the body, `0xFFFFFF` the border.
fn cursor_image() -> (r: Vec<u32>)
    ensures
        r@.len() == MOUSE_WIDTH * MOUSE_HEIGHT,
        r@[0] == 0xFFFFFF,
        r@[1] == 0xFFFFFF,
        r@[17] == MOUSE_TRANSPARENT,
        r@[18] == MOUSE_TRANSPARENT,
        r@[20] == 0x000000,
        r@[197] == MOUSE_TRANSPARENT,
{
    let t: u32 = MOUSE_TRANSPARENT;
    let c: u32 = 0x000000;
    let b: u32 = 0xFFFFFF;
    let r: Vec<u32> = vec![
        b, b, b, b, b, b, b, b, b, b, b, b, b, b, b, b, t, t,
        t, b, c, c, c, c, c, c, c, c, c, c, c, c, b, t, t, t,
        t, t, b, c, c, c, c, c, c, c, c, c, c, b, t, t, t, t,
        t, t, t, b, c, c, c, c, c, c, c, c, b, t, t, t, t, t,
        t, t, t, t, b, c, c, c, c, c, c, c, c, b, b, t, t, t,
        t, t, t, t, t, b, c, c, c, c, c, c, c, c, c, b, b, t,
        t, t, t, t, t, t, b, c, c, c, c, b, b, c, c, c, c, b,
        t, t, t, t, t, t, t, b, c, c, b, t, t, b, b, c, b, t,
        t, t, t, t, t, t, t, t, b, c, b, t, t, t, t, b, b, t,
        t, t, t, t, t, t, t, t, t, b, b, t, t, t, t, t, t, t,
        t, t, t, t, t, t, t, t, t, t, b, t, t, t, t, t, t, t,
    ];
    r
}

/// Validate the boot-time graphics descriptor before the compositor is
/// built from it: a zero physical address means no display is available,
/// and dimensions beyond the supported cap cannot be managed. On success
/// the usable screen dimensions are returned. The descriptor itself comes
/// from the platform; reading it, and mapping the device memory at the
/// returned address, stay with the host.
pub fn check_graphics_info(physical_address: usize, width: usize, height: usize) -> (r: Result<
    (usize, usize),
    &'static str,
>)
    ensures
        r is Ok <==> physical_address != 0 && width <= MAX_DIM && height <= MAX_DIM,
        r matches Ok(d) ==> d == (width, height),
{
    if physical_address == 0 {
        Err("wrong physical address for porthole")
    } else if width > MAX_DIM || height > MAX_DIM {
        Err("display mode larger than the compositor supports")
    } else {
        Ok((width, height))
    }
}

impl WindowManager {
    pub open spec fn wf(self) -> bool {
        self@.wf()
    }

    /// Build the compositor for a `width x height` screen: an empty
    /// registry, both buffers cleared to the background color, the cursor
    /// at its fixed start position.
    pub fn new(width: usize, height: usize) -> (r: WindowManager)
        requires
            width <= MAX_DIM,
            height <= MAX_DIM,
        ensures
            r.wf(),
            r@.windows.len() == 0,
            r@.back.width == width,
            r@.back.height == height,
            r@.back == black_view(width as nat, height as nat),
            r@.front == black_view(width as nat, height as nat),
            r@.mouse == (Rect {
                width: MOUSE_WIDTH,
                height: MOUSE_HEIGHT,
                x: MOUSE_START,
                y: MOUSE_START,
            }),
            r@.cursor.len() == MOUSE_WIDTH * MOUSE_HEIGHT,
            r@.cursor[0] == 0xFFFFFF,
            r@.cursor[17] == MOUSE_TRANSPARENT,
    {
        let p_framebuffer = FrameBuffer::new(width, height);
        let v_framebuffer = FrameBuffer::new(width, height);
        let mouse = Rect::new(MOUSE_WIDTH, MOUSE_HEIGHT, MOUSE_START, MOUSE_START);
        let r = WindowManager {
            windows: Vec::new(),
            v_framebuffer,
            p_framebuffer,
            mouse,
            cursor_image: cursor_image(),
        };
        proof {
            assert(r@.back.pixels =~= black_view(width as nat, height as nat).pixels);
            assert(r@.front.pixels =~= black_view(width as nat, height as nat).pixels);
            assert(r@.back =~= black_view(width as nat, height as nat));
            assert(r@.front =~= black_view(width as nat, height as nat));
        }
        r
    }

    pub fn screen_width(&self) -> (r: usize)
        ensures
            r == self@.back.width,
    {
        self.v_framebuffer.width()
    }

    pub fn screen_height(&self) -> (r: usize)
        ensures
            r == self@.back.height,
    {
        self.v_framebuffer.height()
    }

    /// The off-screen buffer the compositor paints into.
    pub fn back_buffer(&self) -> (r: &FrameBuffer)
        ensures
            r@ == self@.back,
    {
        &self.v_framebuffer
    }

    /// The buffer the display shows; changes only on `render`.
    pub fn front_buffer(&self) -> (r: &FrameBuffer)
        ensures
            r@ == self@.front,
    {
        &self.p_framebuffer
    }

    pub fn window_count(&self) -> (r: usize)
        ensures
            r == self@.windows.len(),
    {
        self.windows.len()
    }

    /// Create a window of the given rectangle with a fresh
    /// background-cleared buffer, append it to the registry, and return its
    /// stable identifier. Later registrations paint over earlier ones where
    /// they overlap.
    pub fn new_window(&mut self, dimensions: &Rect) -> (id: usize)
        requires
            old(self).wf(),
            dimensions.width <= MAX_DIM,
            dimensions.height <= MAX_DIM,
            dimensions.fits(),
        ensures
            final(self).wf(),
            id == old(self)@.windows.len(),
            final(self)@.windows == old(self)@.windows.push(
                Some(
                    WindowView {
                        rect: *dimensions,
                        fb: black_view(dimensions.width as nat, dimensions.height as nat),
                        resized: false,
                    },
                ),
            ),
            final(self)@.back == old(self)@.back,
            final(self)@.front == old(self)@.front,
            final(self)@.mouse == old(self)@.mouse,
            final(self)@.cursor == old(self)@.cursor,
    {
        let id = self.windows.len();
        let fb = FrameBuffer::new(dimensions.width, dimensions.height);
        proof {
            assert(fb@.pixels =~= black_view(
                dimensions.width as nat,
                dimensions.height as nat,
            ).pixels);
            assert(fb@ =~= black_view(dimensions.width as nat, dimensions.height as nat));
        }
        let window = Window::new(*dimensions, fb);
        self.windows.push(Some(window));
        proof {
            assert(final(self)@.windows =~= old(self)@.windows.push(
                Some(
                    WindowView {
                        rect: *dimensions,
                        fb: black_view(dimensions.width as nat, dimensions.height as nat),
                        resized: false,
                    },
                ),
            ));
        }
        id
    }

    /// Drop the window in slot `id`, as its owner releasing the last handle
    /// would: the slot becomes a tombstone that compositing skips, and
    /// every other identifier stays valid. Unknown identifiers are ignored.
    pub fn close_window(&mut self, id: usize)
        requires
            old(self).wf(),
        ensures
            final(self).wf(),
            final(self)@.windows == (if id < old(self)@.windows.len() {
                old(self)@.windows.update(id as int, None::<WindowView>)
            } else {
                old(self)@.windows
            }),
            final(self)@.back == old(self)@.back,
            final(self)@.front == old(self)@.front,
            final(self)@.mouse == old(self)@.mouse,
            final(self)@.cursor == old(self)@.cursor,
    {
        if id < self.windows.len() {
            self.windows[id] = None;
            proof {
                assert(final(self)@.windows =~= old(self)@.windows.update(
                    id as int,
                    None::<WindowView>,
                ));
            }
        } else {
            proof {
                assert(final(self)@.windows =~= old(self)@.windows);
            }
        }
    }

    /// The screen rectangle of the window in slot `id`, if it is live.
    pub fn window_rect(&self, id: usize) -> (r: Option<Rect>)
        requires
            self.wf(),
        ensures
            r == (if id < self@.windows.len() {
                match self@.windows[id as int] {
                    Some(w) => Some(w.rect),
                    None => None::<Rect>,
                }
            } else {
                None::<Rect>
            }),
    {
        if id < self.windows.len() {
            match &self.windows[id] {
                Some(w) => Some(w.rect()),
                None => None,
            }
        } else {
            None
        }
    }

    /// Whether the window in slot `id` has a resize pending, if it is live.
    pub fn window_resized(&self, id: usize) -> (r: Option<bool>)
        requires
            self.wf(),
        ensures
            r == (if id < self@.windows.len() {
                match self@.windows[id as int] {
                    Some(w) => Some(w.resized),
                    None => None::<bool>,
                }
            } else {
                None::<bool>
            }),
    {
        if id < self.windows.len() {
            match &self.windows[id] {
                Some(w) => Some(w.resized()),
                None => None,
            }
        } else {
            None
        }
    }

    /// The dimensions of the backing buffer of the window in slot `id`, if
    /// it is live. During a pending resize these lag behind the rectangle.
    pub fn window_buffer_size(&self, id: usize) -> (r: Option<(usize, usize)>)
        requires
            self.wf(),
        ensures
            r == (if id < self@.windows.len() {
                match self@.windows[id as int] {
                    Some(w) => Some((w.fb.width as usize, w.fb.height as usize)),
                    None => None::<(usize, usize)>,
                }
            } else {
                None::<(usize, usize)>
            }),
    {
        if id < self.windows.len() {
            match &self.windows[id] {
                Some(w) => Some((w.buffer_width(), w.buffer_height())),
                None => None,
            }
        } else {
            None
        }
    }

    /// The cell at window-local `(x, y)` of the window in slot `id`, if the
    /// window is live and the coordinate lies in its buffer.
    pub fn window_pixel(&self, id: usize, x: isize, y: isize) -> (r: Option<u32>)
        requires
            self.wf(),
        ensures
            r == (if id < self@.windows.len() {
                match self@.windows[id as int] {
                    Some(w) => if w.fb.in_bounds(x as int, y as int) {
                        Some(w.fb.at(x as int, y as int))
                    } else {
                        None::<u32>
                    },
                    None => None::<u32>,
                }
            } else {
                None::<u32>
            }),
    {
        if id < self.windows.len() {
            match &self.windows[id] {
                Some(w) => {
                    if x >= 0 && y >= 0 && (x as usize) < w.buffer_width() && (y as usize)
                        < w.buffer_height() {
                        Some(w.get_pixel(x, y))
                    } else {
                        None
                    }
                },
                None => None,
            }
        } else {
            None
        }
    }

    /// Fill the whole surface of the window in slot `id` with `col` (the
    /// owner's per-frame redraw), applying any pending resize first.
    /// Returns whether the slot held a live window.
    pub fn fill_window(&mut self, id: usize, col: u32) -> (r: bool)
        requires
            old(self).wf(),
        ensures
            final(self).wf(),
            r == (id < old(self)@.windows.len() && slot_live(old(self)@.windows[id as int])),
            final(self)@.windows.len() == old(self)@.windows.len(),
            (if r {
                final(self)@.windows == old(self)@.windows.update(
                    id as int,
                    match old(self)@.windows[id as int] {
                        Some(w) => Some(
                            WindowView {
                                rect: w.rect,
                                resized: false,
                                fb: crate::window::fill_view(
                                    w.rect.width as nat,
                                    w.rect.height as nat,
                                    col,
                                ),
                            },
                        ),
                        None => None::<WindowView>,
                    },
                )
            } else {
                final(self)@.windows == old(self)@.windows
            }),
            final(self)@.back == old(self)@.back,
            final(self)@.front == old(self)@.front,
            final(self)@.mouse == old(self)@.mouse,
            final(self)@.cursor == old(self)@.cursor,
    {
        if id < self.windows.len() {
            let found: bool;
            match &mut self.windows[id] {
                Some(w) => {
                    w.draw_rectangle(col);
                    found = true;
                },
                None => {
                    found = false;
                },
            }
            proof {
                if found {
                    assert(final(self)@.windows =~= old(self)@.windows.update(
                        id as int,
                        match old(self)@.windows[id as int] {
                            Some(w) => Some(
                                WindowView {
                                    rect: w.rect,
                                    resized: false,
                                    fb: crate::window::fill_view(
                                        w.rect.width as nat,
                                        w.rect.height as nat,
                                        col,
                                    ),
                                },
                            ),
                            None => None::<WindowView>,
                        },
                    ));
                } else {
                    assert(final(self)@.windows =~= old(self)@.windows);
                }
            }
            found
        } else {
            proof {
                assert(final(self)@.windows =~= old(self)@.windows);
            }
            false
        }
    }

    /// Render `text` into the window in slot `id` starting at the given
    /// glyph-grid cell, with `print_string`'s wrap-and-stop policy.
    /// Returns whether the slot held a live window.
    pub fn print_in_window(
        &mut self,
        id: usize,
        text: &str,
        fg_color: u32,
        bg_color: u32,
        font: &crate::text::FontTable,
        column: usize,
        line: usize,
    ) -> (r: bool)
        requires
            old(self).wf(),
            font.wf(),
            column <= MAX_DIM,
            line <= MAX_DIM,
        ensures
            final(self).wf(),
            r == (id < old(self)@.windows.len() && slot_live(old(self)@.windows[id as int])),
            final(self)@.windows.len() == old(self)@.windows.len(),
            (if r {
                final(self)@.windows == old(self)@.windows.update(
                    id as int,
                    match old(self)@.windows[id as int] {
                        Some(w) => Some(
                            WindowView {
                                rect: w.rect,
                                resized: w.resized,
                                fb: crate::text::render_text_view(
                                    w.fb,
                                    text.spec_bytes(),
                                    fg_color,
                                    bg_color,
                                    font@,
                                    column as int,
                                    column as int,
                                    line as int,
                                    w.rect.width as int / 8,
                                    w.rect.height as int / 16,
                                ),
                            },
                        ),
                        None => None::<WindowView>,
                    },
                )
            } else {
                final(self)@.windows == old(self)@.windows
            }),
            final(self)@.back == old(self)@.back,
            final(self)@.front == old(self)@.front,
            final(self)@.mouse == old(self)@.mouse,
            final(self)@.cursor == old(self)@.cursor,
    {
        if id < self.windows.len() {
            let mut found: bool = false;
            match &mut self.windows[id] {
                Some(w) => {
                    w.print_string(text, fg_color, bg_color, font, column, line);
                    found = true;
                },
                None => {},
            }
            proof {
                if found {
                    assert(final(self)@.windows =~= old(self)@.windows.update(
                        id as int,
                        match old(self)@.windows[id as int] {
                            Some(w) => Some(
                                WindowView {
                                    rect: w.rect,
                                    resized: w.resized,
                                    fb: crate::text::render_text_view(
                                        w.fb,
                                        text.spec_bytes(),
                                        fg_color,
                                        bg_color,
                                        font@,
                                        column as int,
                                        column as int,
                                        line as int,
                                        w.rect.width as int / 8,
                                        w.rect.height as int / 16,
                                    ),
                                },
                            ),
                            None => None::<WindowView>,
                        },
                    ));
                } else {
                    assert(final(self)@.windows =~= old(self)@.windows);
                }
            }
            found
        } else {
            proof {
                assert(final(self)@.windows =~= old(self)@.windows);
            }
            false
        }
    }

    /// Publish the frame: copy the whole back buffer into the front buffer.
    /// This is the only operation that changes what the display shows.
    pub fn render(&mut self)
        requires
            old(self).wf(),
        ensures
            final(self).wf(),
            final(self)@.front.width == old(self)@.front.width,
            final(self)@.front.height == old(self)@.front.height,
            final(self)@.front.pixels == old(self)@.back.pixels,
            final(self)@.back == old(self)@.back,
            final(self)@.windows == old(self)@.windows,
            final(self)@.mouse == old(self)@.mouse,
            final(self)@.cursor == old(self)@.cursor,
    {
        self.p_framebuffer.copy_from(&self.v_framebuffer);
        proof {
            assert(final(self)@.windows =~= old(self)@.windows);
        }
    }
}


/// Painting over two bases that agree at `(x, y)` leaves the same pixel:
/// compositing reads the base only where no window covers.
pub proof fn lemma_composite_base(
    base1: FrameBufferView,
    base2: FrameBufferView,
    ws: Seq<Option<WindowView>>,
    x: int,
    y: int,
)
    requires
        base1.at(x, y) == base2.at(x, y),
    ensures
        composite_at(base1, ws, x, y) == composite_at(base2, ws, x, y),
    decreases ws.len(),
{
    if ws.len() > 0 && !slot_covers(ws.last(), x, y) {
        lemma_composite_base(base1, base2, ws.drop_last(), x, y);
    }
}

impl WindowManager {
    /// Paint every live window into the back buffer in registration order
    /// (so later registrations occlude earlier ones), consuming each
    /// window's own buffer: after this pass every composited window is
    /// blank and must be redrawn before the next pass or it will show
    /// blank. Tombstone slots are skipped.
    pub fn draw_windows(&mut self)
        requires
            old(self).wf(),
        ensures
            final(self).wf(),
            final(self)@.back.width == old(self)@.back.width,
            final(self)@.back.height == old(self)@.back.height,
            forall|x: int, y: int|
                old(self)@.back.in_bounds(x, y) ==> final(self)@.back.at(x, y) == composite_at(
                    old(self)@.back,
                    old(self)@.windows,
                    x,
                    y,
                ),
            final(self)@.windows.len() == old(self)@.windows.len(),
            forall|i: int|
                0 <= i < old(self)@.windows.len() ==> final(self)@.windows[i] == slot_blanked(
                    old(self)@.windows[i],
                ),
            final(self)@.front == old(self)@.front,
            final(self)@.mouse == old(self)@.mouse,
            final(self)@.cursor == old(self)@.cursor,
    {
        let ghost orig = self@;
        let n = self.windows.len();
        let mut i: usize = 0;
        while i < n
            invariant
                self.wf(),
                orig.wf(),
                n == orig.windows.len(),
                n == self@.windows.len(),
                i <= n,
                self@.back.width == orig.back.width,
                self@.back.height == orig.back.height,
                forall|x: int, y: int|
                    orig.back.in_bounds(x, y) ==> self@.back.at(x, y) == composite_at(
                        orig.back,
                        orig.windows.subrange(0, i as int),
                        x,
                        y,
                    ),
                forall|j: int| 0 <= j < i ==> self@.windows[j] == slot_blanked(orig.windows[j]),
                forall|j: int| i <= j < n ==> self@.windows[j] == orig.windows[j],
                self@.front == orig.front,
                self@.mouse == orig.mouse,
                self@.cursor == orig.cursor,
            decreases n - i,
        {
            let ghost pre_back = self@.back;
            let ghost prefix = orig.windows.subrange(0, i as int);
            let ghost slot = orig.windows[i as int];
            match &self.windows[i] {
                Some(w) => {
                    self.v_framebuffer.copy_window_only(w);
                },
                None => {},
            }
            proof {
                assert(orig.windows.subrange(0, i + 1).drop_last() =~= prefix);
                assert(orig.windows.subrange(0, i + 1).last() == slot);
                assert forall|x: int, y: int| orig.back.in_bounds(x, y) implies self@.back.at(x, y)
                    == composite_at(orig.back, orig.windows.subrange(0, i + 1), x, y) by {
                    assert(self@.back.at(x, y) == (if slot_covers(slot, x, y) {
                        slot_pixel(slot, x, y)
                    } else {
                        pre_back.at(x, y)
                    }));
                }
            }
            let ghost pre_ws = self@.windows;
            proof {
                assert forall|j: int| 0 <= j < i implies pre_ws[j] == slot_blanked(
                    orig.windows[j],
                ) by {}
                assert forall|j: int| i <= j < n implies pre_ws[j] == orig.windows[j] by {}
            }
            let slot_mut = &mut self.windows[i];
            match slot_mut {
                Some(w) => {
                    w.blank();
                },
                None => {},
            }
            proof {
                assert(self@.windows.len() == n);
                assert(self@.windows[i as int] == slot_blanked(orig.windows[i as int]));
                assert forall|j: int| 0 <= j < n && j != i implies self@.windows[j] == pre_ws[j]
                    by {}
            }
            i = i + 1;
            proof {
                assert forall|j: int| 0 <= j < i implies self@.windows[j] == slot_blanked(
                    orig.windows[j],
                ) by {
                    if j < i - 1 {
                        assert(self@.windows[j] == pre_ws[j]);
                    }
                }
            }
        }
        proof {
            assert(orig.windows.subrange(0, n as int) =~= orig.windows);
        }
    }

    /// Overlay the cursor bitmap at the cursor position: opaque bitmap
    /// cells replace the composited pixels, cells of the key color leave
    /// them visible, and cells hanging off the screen are clipped.
    pub fn draw_mouse(&mut self)
        requires
            old(self).wf(),
        ensures
            final(self).wf(),
            final(self)@.back.width == old(self)@.back.width,
            final(self)@.back.height == old(self)@.back.height,
            forall|x: int, y: int|
                old(self)@.back.in_bounds(x, y) ==> final(self)@.back.at(x, y) == (
                if old(self)@.mouse.contains(x, y) && cursor_cell(
                    old(self)@.cursor,
                    old(self)@.mouse,
                    x,
                    y,
                ) != MOUSE_TRANSPARENT {
                    cursor_cell(old(self)@.cursor, old(self)@.mouse, x, y)
                } else {
                    old(self)@.back.at(x, y)
                }),
            final(self)@.windows == old(self)@.windows,
            final(self)@.front == old(self)@.front,
            final(self)@.mouse == old(self)@.mouse,
            final(self)@.cursor == old(self)@.cursor,
    {
        let ghost orig = self@;
        let mouse = self.mouse;
        let mut dx: usize = 0;
        while dx < MOUSE_WIDTH
            invariant
                self.wf(),
                orig.wf(),
                mouse == orig.mouse,
                dx <= MOUSE_WIDTH,
                self@.back.width == orig.back.width,
                self@.back.height == orig.back.height,
                forall|x: int, y: int|
                    orig.back.in_bounds(x, y) ==> self@.back.at(x, y) == (if orig.mouse.contains(
                        x,
                        y,
                    ) && x - orig.mouse.x < dx && cursor_cell(orig.cursor, orig.mouse, x, y)
                        != MOUSE_TRANSPARENT {
                        cursor_cell(orig.cursor, orig.mouse, x, y)
                    } else {
                        orig.back.at(x, y)
                    }),
                self@.windows == orig.windows,
                self@.front == orig.front,
                self@.mouse == orig.mouse,
                self@.cursor == orig.cursor,
            decreases MOUSE_WIDTH - dx,
        {
            let mut dy: usize = 0;
            while dy < MOUSE_HEIGHT
                invariant
                    self.wf(),
                    orig.wf(),
                    mouse == orig.mouse,
                    dx < MOUSE_WIDTH,
                    dy <= MOUSE_HEIGHT,
                    self@.back.width == orig.back.width,
                    self@.back.height == orig.back.height,
                    forall|x: int, y: int|
                        orig.back.in_bounds(x, y) ==> self@.back.at(x, y) == (
                        if orig.mouse.contains(x, y) && (x - orig.mouse.x < dx || (x - orig.mouse.x
                            == dx && y - orig.mouse.y < dy)) && cursor_cell(
                            orig.cursor,
                            orig.mouse,
                            x,
                            y,
                        ) != MOUSE_TRANSPARENT {
                            cursor_cell(orig.cursor, orig.mouse, x, y)
                        } else {
                            orig.back.at(x, y)
                        }),
                    self@.windows == orig.windows,
                    self@.front == orig.front,
                    self@.mouse == orig.mouse,
                    self@.cursor == orig.cursor,
                decreases MOUSE_HEIGHT - dy,
            {
                let ghost pre = self@.back;
                proof {
                    assert forall|x: int, y: int| orig.back.in_bounds(x, y) implies pre.at(x, y)
                        == (if orig.mouse.contains(x, y) && (x - orig.mouse.x < dx || (x
                        - orig.mouse.x == dx && y - orig.mouse.y < dy)) && cursor_cell(
                        orig.cursor,
                        orig.mouse,
                        x,
                        y,
                    ) != MOUSE_TRANSPARENT {
                        cursor_cell(orig.cursor, orig.mouse, x, y)
                    } else {
                        orig.back.at(x, y)
                    }) by {}
                }
                let ghost dy0 = dy as int;
                let col = self.cursor_image[dx * MOUSE_HEIGHT + dy];
                let sx: isize = mouse.x + dx as isize;
                let sy: isize = mouse.y + dy as isize;
                if col != MOUSE_TRANSPARENT {
                    self.v_framebuffer.draw_something(sx, sy, col);
                    proof {
                        crate::framebuffer::lemma_write_at(pre, sx as int, sy as int, col);
                        assert forall|x: int, y: int| orig.back.in_bounds(x, y) implies self@.back
                            .at(x, y) == (if orig.mouse.contains(x, y) && (x - orig.mouse.x < dx
                            || (x - orig.mouse.x == dx && y - orig.mouse.y < dy0 + 1))
                            && cursor_cell(orig.cursor, orig.mouse, x, y) != MOUSE_TRANSPARENT {
                            cursor_cell(orig.cursor, orig.mouse, x, y)
                        } else {
                            orig.back.at(x, y)
                        }) by {
                            assert(pre.in_bounds(x, y));
                            assert(self@.back.at(x, y) == (if x == sx && y == sy && pre.in_bounds(
                                sx as int,
                                sy as int,
                            ) {
                                col
                            } else {
                                pre.at(x, y)
                            }));
                            if x == sx && y == sy {
                                assert(cursor_cell(orig.cursor, orig.mouse, x, y) == orig.cursor[(
                                dx as int) * (MOUSE_HEIGHT as int) + dy0]);
                            } else {
                                assert(!(x - orig.mouse.x == dx && y - orig.mouse.y == dy0));
                            }
                        }
                    }
                } else {
                    proof {
                        assert forall|x: int, y: int| orig.back.in_bounds(x, y) implies self@.back
                            .at(x, y) == (if orig.mouse.contains(x, y) && (x - orig.mouse.x < dx
                            || (x - orig.mouse.x == dx && y - orig.mouse.y < dy0 + 1))
                            && cursor_cell(orig.cursor, orig.mouse, x, y) != MOUSE_TRANSPARENT {
                            cursor_cell(orig.cursor, orig.mouse, x, y)
                        } else {
                            orig.back.at(x, y)
                        }) by {
                            if x == sx && y == sy {
                                assert(cursor_cell(orig.cursor, orig.mouse, x, y) == orig.cursor[(
                                dx as int) * (MOUSE_HEIGHT as int) + dy0]);
                                assert(cursor_cell(orig.cursor, orig.mouse, x, y)
                                    == MOUSE_TRANSPARENT);
                            } else {
                                assert(!(x - orig.mouse.x == dx && y - orig.mouse.y == dy0));
                            }
                        }
                    }
                }
                dy = dy + 1;
            }
            dx = dx + 1;
        }
    }

    /// One compositing pass: clear the back buffer, paint every live window
    /// in registration order (consuming each window's buffer), then overlay
    /// the cursor. The front buffer, the cursor and the registry order are
    /// untouched; what the display shows changes only on `render`.
    pub fn update(&mut self)
        requires
            old(self).wf(),
        ensures
            final(self).wf(),
            final(self)@.back.width == old(self)@.back.width,
            final(self)@.back.height == old(self)@.back.height,
            forall|x: int, y: int|
                old(self)@.back.in_bounds(x, y) ==> final(self)@.back.at(x, y) == old(
                    self,
                )@.frame_pixel(x, y),
            final(self)@.windows.len() == old(self)@.windows.len(),
            forall|i: int|
                0 <= i < old(self)@.windows.len() ==> final(self)@.windows[i] == slot_blanked(
                    old(self)@.windows[i],
                ),
            final(self)@.front == old(self)@.front,
            final(self)@.mouse == old(self)@.mouse,
            final(self)@.cursor == old(self)@.cursor,
    {
        let ghost m0 = self@;
        self.v_framebuffer.blank();
        let ghost m1 = self@;
        self.draw_windows();
        let ghost m2 = self@;
        self.draw_mouse();
        proof {
            let black = black_view(m0.back.width, m0.back.height);
            assert forall|x: int, y: int| m0.back.in_bounds(x, y) implies self@.back.at(x, y)
                == m0.frame_pixel(x, y) by {
                crate::framebuffer::lemma_index_in_range(
                    m0.back.width as int,
                    m0.back.height as int,
                    x,
                    y,
                );
                assert(m1.back.at(x, y) == black.at(x, y));
                lemma_composite_base(m1.back, black, m0.windows, x, y);
                assert(m2.back.at(x, y) == composite_at(black, m0.windows, x, y));
            }
        }
    }
}



/// Where one axis of the cursor lands after a proposed displacement: the
/// move is applied only when the whole `size`-wide cursor span stays inside
/// `[0, limit]`; otherwise the proposal for this axis is discarded entirely
/// (the position reverts, it is not clamped to the boundary).
pub open spec fn moved_axis(pos: int, delta: int, size: int, limit: int) -> int {
    let cand = pos + delta;
    if cand < 0 || cand + size > limit {
        pos
    } else {
        cand
    }
}

/// Where a dragged window's horizontal position lands: the move is
/// discarded when it would push the fixed drag margin off either side of
/// the screen (the left test keeps `margin` of the window's right part
/// reachable, the right test keeps `margin` pixels on-screen).
pub open spec fn drag_moved_x(wx: int, delta: int, width: int, limit: int) -> int {
    let cand = wx + delta;
    if cand + (width - DRAG_MARGIN) < 0 || cand + DRAG_MARGIN > limit {
        wx
    } else {
        cand
    }
}

/// Vertical counterpart of `drag_moved_x`: the top test pins the window
/// strictly below the screen's top edge.
pub open spec fn drag_moved_y(wy: int, delta: int, limit: int) -> int {
    let cand = wy + delta;
    if cand <= 0 || cand + DRAG_MARGIN > limit {
        wy
    } else {
        cand
    }
}

/// A resized dimension, saturated into the supported range.
pub open spec fn clamp_dim(v: int) -> int {
    if v < 0 {
        0
    } else if v > MAX_DIM {
        MAX_DIM as int
    } else {
        v
    }
}

/// What one drag step does to a window slot. A window not colliding with
/// the cursor is untouched. With the left button held, a colliding window
/// is translated by `(dx, -dy)` under the per-axis discard policy of
/// `drag_moved_x`/`drag_moved_y`. Otherwise, with the right button held,
/// it is resized by `(dx, -dy)` (saturated) and flagged for a deferred
/// buffer reallocation; its buffer itself is untouched. The two actions
/// are mutually exclusive, left taking precedence.
pub open spec fn dragged_slot(
    s: Option<WindowView>,
    mouse: Rect,
    dx: int,
    dy: int,
    ev: MouseEvent,
    limit_w: int,
    limit_h: int,
) -> Option<WindowView> {
    match s {
        None => None,
        Some(w) => {
            if !w.rect.spec_collides(mouse) {
                Some(w)
            } else if ev.buttonact.left_button_hold {
                Some(
                    WindowView {
                        rect: Rect {
                            width: w.rect.width,
                            height: w.rect.height,
                            x: drag_moved_x(
                                w.rect.x as int,
                                dx,
                                w.rect.width as int,
                                limit_w,
                            ) as isize,
                            y: drag_moved_y(w.rect.y as int, -dy, limit_h) as isize,
                        },
                        fb: w.fb,
                        resized: w.resized,
                    },
                )
            } else if ev.buttonact.right_button_hold {
                Some(
                    WindowView {
                        rect: Rect {
                            width: clamp_dim(w.rect.width + dx) as usize,
                            height: clamp_dim(w.rect.height - dy) as usize,
                            x: w.rect.x,
                            y: w.rect.y,
                        },
                        fb: w.fb,
                        resized: true,
                    },
                )
            } else {
                Some(w)
            }
        },
    }
}

impl WindowManager {
    /// Move the cursor by the device displacement `(x, y)`; the vertical
    /// axis is inverted to the usual relative-motion convention, so the
    /// candidate position is `(x + dx, y - dy)`. Each axis is accepted only
    /// if the whole cursor box stays on-screen on that axis, and otherwise
    /// reverts — a deliberate coarse discard, not a clamp.
    pub fn update_mouse_position(&mut self, x: isize, y: isize)
        requires
            old(self).wf(),
        ensures
            final(self).wf(),
            final(self)@.mouse.width == old(self)@.mouse.width,
            final(self)@.mouse.height == old(self)@.mouse.height,
            final(self)@.mouse.x as int == moved_axis(
                old(self)@.mouse.x as int,
                x as int,
                MOUSE_WIDTH as int,
                old(self)@.back.width as int,
            ),
            final(self)@.mouse.y as int == moved_axis(
                old(self)@.mouse.y as int,
                -(y as int),
                MOUSE_HEIGHT as int,
                old(self)@.back.height as int,
            ),
            final(self)@.windows == old(self)@.windows,
            final(self)@.back == old(self)@.back,
            final(self)@.front == old(self)@.front,
            final(self)@.cursor == old(self)@.cursor,
    {
        let screen_w = self.v_framebuffer.width();
        let screen_h = self.v_framebuffer.height();
        let mut new_x: isize = self.mouse.x;
        match self.mouse.x.checked_add(x) {
            Some(cand) => {
                if cand >= 0 && cand <= screen_w as isize - MOUSE_WIDTH as isize {
                    new_x = cand;
                }
            },
            None => {},
        }
        let mut new_y: isize = self.mouse.y;
        match self.mouse.y.checked_sub(y) {
            Some(cand) => {
                if cand >= 0 && cand <= screen_h as isize - MOUSE_HEIGHT as isize {
                    new_y = cand;
                }
            },
            None => {},
        }
        self.mouse.x = new_x;
        self.mouse.y = new_y;
        proof {
            assert(final(self)@.windows =~= old(self)@.windows);
        }
    }

    /// Apply one drag step to every live window: with the left button held,
    /// windows colliding with the cursor box are moved by `(x, -y)` under
    /// the fixed-margin discard policy; with the right button held they are
    /// resized (saturated) and flagged for deferred reallocation. Windows
    /// not colliding with the cursor, and tombstone slots, are untouched.
    #[verifier::rlimit(60)]
    pub fn drag_windows(&mut self, x: isize, y: isize, mouse_event: &MouseEvent)
        requires
            old(self).wf(),
        ensures
            final(self).wf(),
            final(self)@.windows.len() == old(self)@.windows.len(),
            forall|i: int|
                0 <= i < old(self)@.windows.len() ==> final(self)@.windows[i] == dragged_slot(
                    old(self)@.windows[i],
                    old(self)@.mouse,
                    x as int,
                    y as int,
                    *mouse_event,
                    old(self)@.back.width as int,
                    old(self)@.back.height as int,
                ),
            final(self)@.back == old(self)@.back,
            final(self)@.front == old(self)@.front,
            final(self)@.mouse == old(self)@.mouse,
            final(self)@.cursor == old(self)@.cursor,
    {
        let ghost orig = self@;
        let left = mouse_event.buttonact.left_button_hold;
        let right = mouse_event.buttonact.right_button_hold;
        if !left && !right {
            proof {
                assert forall|i: int| 0 <= i < orig.windows.len() implies self@.windows[i]
                    == dragged_slot(
                    orig.windows[i],
                    orig.mouse,
                    x as int,
                    y as int,
                    *mouse_event,
                    orig.back.width as int,
                    orig.back.height as int,
                ) by {}
            }
            return ;
        }
        let mouse = self.mouse;
        let limit_w: isize = self.v_framebuffer.width() as isize;
        let limit_h: isize = self.v_framebuffer.height() as isize;
        let n = self.windows.len();
        let mut i: usize = 0;
        while i < n
            invariant
                self.wf(),
                orig.wf(),
                n == orig.windows.len(),
                n == self@.windows.len(),
                i <= n,
                mouse == orig.mouse,
                left == mouse_event.buttonact.left_button_hold,
                right == mouse_event.buttonact.right_button_hold,
                limit_w == orig.back.width as int,
                limit_h == orig.back.height as int,
                forall|j: int|
                    0 <= j < i ==> self@.windows[j] == dragged_slot(
                        orig.windows[j],
                        orig.mouse,
                        x as int,
                        y as int,
                        *mouse_event,
                        orig.back.width as int,
                        orig.back.height as int,
                    ),
                forall|j: int| i <= j < n ==> self@.windows[j] == orig.windows[j],
                self@.back == orig.back,
                self@.front == orig.front,
                self@.mouse == orig.mouse,
                self@.cursor == orig.cursor,
            decreases n - i,
        {
            let ghost pre_ws = self@.windows;
            proof {
                assert forall|j: int| 0 <= j < i implies pre_ws[j] == dragged_slot(
                    orig.windows[j],
                    orig.mouse,
                    x as int,
                    y as int,
                    *mouse_event,
                    orig.back.width as int,
                    orig.back.height as int,
                ) by {}
                assert forall|j: int| i <= j < n implies pre_ws[j] == orig.windows[j] by {}
            }
            let slot_mut = &mut self.windows[i];
            match slot_mut {
                Some(w) => {
                    let ghost w0 = w@;
                    let ghost expected = dragged_slot(
                        orig.windows[i as int],
                        orig.mouse,
                        x as int,
                        y as int,
                        *mouse_event,
                        orig.back.width as int,
                        orig.back.height as int,
                    );
                    proof {
                        assert(pre_ws[i as int] == Some(w@));
                        assert(orig.windows[i as int] == Some(w@));
                        assert(w@.wf());
                    }
                    let wrect = w.rect();
                    if wrect.detect_collision(&mouse) {
                        if left {
                            let mut new_x: isize = wrect.x;
                            match wrect.x.checked_add(x) {
                                Some(cand) => {
                                    if !(cand < DRAG_MARGIN - wrect.width as isize) && !(cand
                                        > limit_w - DRAG_MARGIN) {
                                        new_x = cand;
                                    }
                                },
                                None => {},
                            }
                            let mut new_y: isize = wrect.y;
                            match wrect.y.checked_sub(y) {
                                Some(cand) => {
                                    if !(cand <= 0) && !(cand > limit_h - DRAG_MARGIN) {
                                        new_y = cand;
                                    }
                                },
                                None => {},
                            }
                            proof {
                                assert(new_x as int == drag_moved_x(
                                    wrect.x as int,
                                    x as int,
                                    wrect.width as int,
                                    limit_w as int,
                                ));
                                assert(new_y as int == drag_moved_y(
                                    wrect.y as int,
                                    -(y as int),
                                    limit_h as int,
                                ));
                            }
                            w.set_position(new_x, new_y);
                            proof {
                                assert(expected == Some(
                                    WindowView {
                                        rect: Rect {
                                            width: w0.rect.width,
                                            height: w0.rect.height,
                                            x: drag_moved_x(
                                                w0.rect.x as int,
                                                x as int,
                                                w0.rect.width as int,
                                                orig.back.width as int,
                                            ) as isize,
                                            y: drag_moved_y(
                                                w0.rect.y as int,
                                                -(y as int),
                                                orig.back.height as int,
                                            ) as isize,
                                        },
                                        fb: w0.fb,
                                        resized: w0.resized,
                                    },
                                ));
                                assert(Some(w@) == expected);
                            }
                        } else if right {
                            let mut new_w: usize = 0;
                            match (wrect.width as isize).checked_add(x) {
                                Some(cand) => {
                                    if cand < 0 {
                                        new_w = 0;
                                    } else if cand > MAX_DIM as isize {
                                        new_w = MAX_DIM;
                                    } else {
                                        new_w = cand as usize;
                                    }
                                },
                                None => {
                                    if x > 0 {
                                        new_w = MAX_DIM;
                                    } else {
                                        new_w = 0;
                                    }
                                },
                            }
                            let mut new_h: usize = 0;
                            match (wrect.height as isize).checked_sub(y) {
                                Some(cand) => {
                                    if cand < 0 {
                                        new_h = 0;
                                    } else if cand > MAX_DIM as isize {
                                        new_h = MAX_DIM;
                                    } else {
                                        new_h = cand as usize;
                                    }
                                },
                                None => {
                                    if y < 0 {
                                        new_h = MAX_DIM;
                                    } else {
                                        new_h = 0;
                                    }
                                },
                            }
                            proof {
                                assert(new_w as int == clamp_dim(wrect.width + x));
                                assert(new_h as int == clamp_dim(wrect.height - y));
                                assert(wrect.x < orig.mouse.x + MOUSE_WIDTH);
                                assert(wrect.y < orig.mouse.y + MOUSE_HEIGHT);
                            }
                            w.request_resize(new_w, new_h);
                            proof {
                                assert(expected == Some(
                                    WindowView {
                                        rect: Rect {
                                            width: clamp_dim(w0.rect.width + x) as usize,
                                            height: clamp_dim(w0.rect.height - y) as usize,
                                            x: w0.rect.x,
                                            y: w0.rect.y,
                                        },
                                        fb: w0.fb,
                                        resized: true,
                                    },
                                ));
                                assert(Some(w@) == expected);
                            }
                        }
                    } else {
                        proof {
                            assert(Some(w@) == expected);
                        }
                    }
                    proof {
                        assert(Some(w@) == expected);
                    }
                },
                None => {},
            }
            proof {
                assert(self@.windows.len() == n);
                assert(self@.windows[i as int] == dragged_slot(
                    orig.windows[i as int],
                    orig.mouse,
                    x as int,
                    y as int,
                    *mouse_event,
                    orig.back.width as int,
                    orig.back.height as int,
                ));
            }
            i = i + 1;
            proof {
                assert forall|j: int| 0 <= j < i implies self@.windows[j] == dragged_slot(
                    orig.windows[j],
                    orig.mouse,
                    x as int,
                    y as int,
                    *mouse_event,
                    orig.back.width as int,
                    orig.back.height as int,
                ) by {
                    if j < i - 1 {
                        assert(self@.windows[j] == pre_ws[j]);
                    }
                }
            }
        }
    }
}

/// Registry order decides occlusion. If slot `j` holds a live window
/// covering `(x, y)` and no later (more recently registered) slot does,
/// the composited frame shows slot `j`'s pixel there. In particular, of
/// two overlapping live windows the one registered second wins over the
/// one registered first wherever both cover.
pub proof fn lemma_registry_order_occludes(
    base: FrameBufferView,
    ws: Seq<Option<WindowView>>,
    j: int,
    x: int,
    y: int,
)
    requires
        0 <= j < ws.len(),
        slot_covers(ws[j], x, y),
        forall|k: int| j < k < ws.len() ==> !slot_covers(ws[k], x, y),
    ensures
        composite_at(base, ws, x, y) == slot_pixel(ws[j], x, y),
    decreases ws.len(),
{
    if j == ws.len() - 1 {
    } else {
        assert(!slot_covers(ws[ws.len() - 1], x, y));
        lemma_registry_order_occludes(base, ws.drop_last(), j, x, y);
    }
}

/// Consuming a consumed window changes nothing.
pub proof fn lemma_slot_blanked_idempotent(s: Option<WindowView>)
    ensures
        slot_blanked(slot_blanked(s)) == slot_blanked(s),
{
    match s {
        Some(w) => {
            assert(w.blanked().blanked().fb.pixels =~= w.blanked().fb.pixels);
            assert(w.blanked().blanked() =~= w.blanked());
        },
        None => {},
    }
}

/// The draw-then-consume law, read forward: `update` leaves every
/// composited window blank (that is its `ensures`), so a second `update`
/// and `render` with no window redraws and no cursor movement in between
/// composites the very same frame — the pass is idempotent on states whose
/// windows hold no content. `m` is such a state, `m2` any state whose
/// windows are the consumed windows of `m` and whose cursor, bitmap and
/// screen dimensions agree, exactly what `update`'s `ensures` leaves
/// behind; both then composite every pixel alike. A window that did not
/// redraw between the passes thus shows blank in the second frame.
pub proof fn lemma_update_idempotent(m: WindowManagerView, m2: WindowManagerView, x: int, y: int)
    requires
        forall|i: int| 0 <= i < m.windows.len() ==> m.windows[i] == slot_blanked(m.windows[i]),
        m2.windows.len() == m.windows.len(),
        forall|i: int| 0 <= i < m.windows.len() ==> m2.windows[i] == slot_blanked(m.windows[i]),
        m2.mouse == m.mouse,
        m2.cursor == m.cursor,
        m2.back.width == m.back.width,
        m2.back.height == m.back.height,
    ensures
        m2.frame_pixel(x, y) == m.frame_pixel(x, y),
{
    assert(m2.windows =~= m.windows);
}


} // verus!
