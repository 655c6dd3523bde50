use vstd::prelude::*;

verus! {

use vstd::string::StringSliceAdditionalSpecFns;

use crate::framebuffer::{FrameBufferView, MAX_DIM, lemma_pointwise_eq, lemma_write_at};
use crate::window::Window;

/// Width of one glyph cell in pixels: one font byte per row, one bit per
/// column, most-significant bit leftmost.
pub const CHARACTER_WIDTH: usize = 8;

/// Height of one glyph cell in pixels.
pub const CHARACTER_HEIGHT: usize = 16;

/// The byte that breaks a line in `print_string`.
pub const NEWLINE: u8 = 0x0A;

/// The bitmap font table: one bitmap row byte per glyph row, 16 rows for
/// each of the 256 byte values, glyphs in byte order. The glyph shapes
/// themselves are an asset the host supplies; this crate only indexes them.
pub struct FontTable {
    rows: Vec<u8>,
}

impl View for FontTable {
    type V = Seq<u8>;

    closed spec fn view(&self) -> Seq<u8> {
        self.rows@
    }
}

impl FontTable {
    pub open spec fn wf(self) -> bool {
        self@.len() == 4096
    }

    /// Wrap a raw table of 256 glyphs of 16 row bytes each; any other
    /// length is rejected.
    pub fn new(rows: Vec<u8>) -> (r: Result<FontTable, &'static str>)
        ensures
            r is Ok <==> rows@.len() == 4096,
            r matches Ok(f) ==> f.wf() && f@ == rows@,
    {
        if rows.len() == 4096 {
            Ok(FontTable { rows })
        } else {
            Err("font table must hold 16 row bytes for each of 256 glyphs")
        }
    }

    /// The bitmap row byte `row` of the glyph for byte value `c`.
    pub fn glyph_row(&self, c: u8, row: usize) -> (r: u8)
        requires
            self.wf(),
            row < CHARACTER_HEIGHT,
        ensures
            r == self@[(c as int) * 16 + row],
    {
        self.rows[(c as usize) * 16 + row]
    }
}

/// Is bit `j` (0 = leftmost = most significant) of a glyph row byte set?
pub open spec fn glyph_bit(b: u8, j: int) -> bool {
    b & (0x80u8 >> (j as u8)) != 0
}

/// Does the glyph cell at grid position `(col, line)` cover the
/// window-local pixel `(gx, gy)`?
pub open spec fn in_glyph_box(col: int, line: int, gx: int, gy: int) -> bool {
    col * 8 <= gx < col * 8 + 8 && line * 16 <= gy < line * 16 + 16
}

/// The color a glyph pixel shows: the foreground where the bitmap bit is
/// set, the background where it is clear.
pub open spec fn glyph_color(
    c: u8,
    fg: u32,
    bg: u32,
    font: Seq<u8>,
    col: int,
    line: int,
    gx: int,
    gy: int,
) -> u32 {
    if glyph_bit(font[(c as int) * 16 + (gy - line * 16)], gx - col * 8) {
        fg
    } else {
        bg
    }
}

/// What one drawn glyph leaves at the window-local pixel `(gx, gy)`.
pub open spec fn glyph_cell_color(
    v: FrameBufferView,
    c: u8,
    fg: u32,
    bg: u32,
    font: Seq<u8>,
    col: int,
    line: int,
    gx: int,
    gy: int,
) -> u32 {
    if in_glyph_box(col, line, gx, gy) {
        glyph_color(c, fg, bg, font, col, line, gx, gy)
    } else {
        v.at(gx, gy)
    }
}

/// The buffer after drawing the glyph for `c` at grid cell `(col, line)`,
/// clipped to the buffer as every drawing operation is.
pub open spec fn draw_glyph_view(
    v: FrameBufferView,
    c: u8,
    fg: u32,
    bg: u32,
    font: Seq<u8>,
    col: int,
    line: int,
) -> FrameBufferView {
    FrameBufferView {
        width: v.width,
        height: v.height,
        pixels: Seq::new(
            v.pixels.len(),
            |i: int|
                glyph_cell_color(
                    v,
                    c,
                    fg,
                    bg,
                    font,
                    col,
                    line,
                    i % v.width as int,
                    i / v.width as int,
                ),
        ),
    }
}

/// How a drawn glyph reads back, cell by cell.
pub proof fn lemma_draw_glyph_at(
    v: FrameBufferView,
    c: u8,
    fg: u32,
    bg: u32,
    font: Seq<u8>,
    col: int,
    line: int,
)
    requires
        v.wf(),
    ensures
        draw_glyph_view(v, c, fg, bg, font, col, line).wf(),
        draw_glyph_view(v, c, fg, bg, font, col, line).width == v.width,
        draw_glyph_view(v, c, fg, bg, font, col, line).height == v.height,
        forall|gx: int, gy: int|
            v.in_bounds(gx, gy) ==> draw_glyph_view(v, c, fg, bg, font, col, line).at(gx, gy)
                == glyph_cell_color(v, c, fg, bg, font, col, line, gx, gy),
{
    let w = v.width as int;
    assert forall|gx: int, gy: int| v.in_bounds(gx, gy) implies draw_glyph_view(
        v,
        c,
        fg,
        bg,
        font,
        col,
        line,
    ).at(gx, gy) == glyph_cell_color(v, c, fg, bg, font, col, line, gx, gy) by {
        crate::framebuffer::lemma_index_in_range(w, v.height as int, gx, gy);
        vstd::arithmetic::div_mod::lemma_fundamental_div_mod_converse(gy * w + gx, w, gy, gx);
    }
}

/// The buffer after rendering `bytes` as glyphs from grid cell
/// `(col, line)`: a newline byte moves to `start_col` on the next line; a
/// glyph that would start past `grid_w` wraps to `start_col` on the next
/// line first; rendering stops for good the moment the line count would
/// leave the `grid_h`-line grid.
pub open spec fn render_text_view(
    v: FrameBufferView,
    bytes: Seq<u8>,
    fg: u32,
    bg: u32,
    font: Seq<u8>,
    start_col: int,
    col: int,
    line: int,
    grid_w: int,
    grid_h: int,
) -> FrameBufferView
    decreases bytes.len(),
{
    if bytes.len() == 0 {
        v
    } else if bytes[0] == NEWLINE {
        if line + 1 >= grid_h {
            v
        } else {
            render_text_view(
                v,
                bytes.drop_first(),
                fg,
                bg,
                font,
                start_col,
                start_col,
                line + 1,
                grid_w,
                grid_h,
            )
        }
    } else {
        let c2 = if col >= grid_w {
            start_col
        } else {
            col
        };
        let l2 = if col >= grid_w {
            line + 1
        } else {
            line
        };
        if l2 >= grid_h {
            v
        } else {
            render_text_view(
                draw_glyph_view(v, bytes[0], fg, bg, font, c2, l2),
                bytes.drop_first(),
                fg,
                bg,
                font,
                start_col,
                c2 + 1,
                l2,
                grid_w,
                grid_h,
            )
        }
    }
}

/// A minimal text console record: a glyph grid with a current cell, the
/// colors to render with, the text it holds and a cache of what was last
/// rendered.
pub struct TextDisplay {
    pub width: usize,
    pub height: usize,
    pub next_col: usize,
    pub next_line: usize,
    pub text: String,
    pub fg_color: u32,
    pub bg_color: u32,
    pub cache: String,
}

impl TextDisplay {
    /// An empty console over a `width x height` glyph grid.
    pub fn new(width: usize, height: usize, fg_color: u32, bg_color: u32) -> (r: TextDisplay)
        ensures
            r.width == width,
            r.height == height,
            r.next_col == 0,
            r.next_line == 0,
            r.fg_color == fg_color,
            r.bg_color == bg_color,
            r.text@.len() == 0,
            r.cache@.len() == 0,
    {
        TextDisplay {
            width,
            height,
            next_col: 0,
            next_line: 0,
            text: String::new(),
            fg_color,
            bg_color,
            cache: String::new(),
        }
    }
}

impl Window {
    /// The masked bit `i` (0 = leftmost) of a glyph row byte; nonzero
    /// exactly when the bit is set.
    fn get_bit(&self, char_font: u8, i: usize) -> (r: u8)
        requires
            i < 8,
        ensures
            (r != 0) == glyph_bit(char_font, i as int),
    {
        char_font & (0x80u8 >> (i as u8))
    }

    /// Draw the glyph for `character` at the glyph-grid cell
    /// `(column, line)` of this window, in window-local coordinates: the
    /// foreground color where the bitmap bit is set, the background color
    /// elsewhere, each pixel clipped to the window's buffer.
    pub fn print_ascii_character(
        &mut self,
        character: u8,
        fg_color: u32,
        bg_color: u32,
        font: &FontTable,
        column: usize,
        line: usize,
    )
        requires
            old(self).wf(),
            font.wf(),
            column <= MAX_DIM,
            line <= MAX_DIM,
        ensures
            final(self).wf(),
            final(self)@.rect == old(self)@.rect,
            final(self)@.resized == old(self)@.resized,
            final(self)@.fb == draw_glyph_view(
                old(self)@.fb,
                character,
                fg_color,
                bg_color,
                font@,
                column as int,
                line as int,
            ),
    {
        let ghost orig = self@.fb;
        let ghost fseq = font@;
        let ghost coli = column as int;
        let ghost linei = line as int;
        let ghost rect0 = self@.rect;
        let ghost res0 = self@.resized;
        let start_x: usize = column * 8;
        let start_y: usize = line * 16;
        let mut row: usize = 0;
        while row < 16
            invariant
                self.wf(),
                orig.wf(),
                font.wf(),
                fseq == font@,
                row <= 16,
                start_x == column * 8,
                start_y == line * 16,
                coli == column as int,
                linei == line as int,
                column <= MAX_DIM,
                line <= MAX_DIM,
                self@.rect == rect0,
                self@.resized == res0,
                self@.fb.width == orig.width,
                self@.fb.height == orig.height,
                forall|gx: int, gy: int|
                    orig.in_bounds(gx, gy) ==> self@.fb.at(gx, gy) == (if in_glyph_box(
                        coli,
                        linei,
                        gx,
                        gy,
                    ) && gy - linei * 16 < row {
                        glyph_color(character, fg_color, bg_color, fseq, coli, linei, gx, gy)
                    } else {
                        orig.at(gx, gy)
                    }),
            decreases 16 - row,
        {
            let row_byte = font.glyph_row(character, row);
            let mut j: usize = 0;
            while j < 8
                invariant
                    self.wf(),
                    orig.wf(),
                    font.wf(),
                    fseq == font@,
                    row < 16,
                    j <= 8,
                    start_x == column * 8,
                    start_y == line * 16,
                    coli == column as int,
                    linei == line as int,
                    column <= MAX_DIM,
                    line <= MAX_DIM,
                    row_byte == fseq[(character as int) * 16 + row],
                    self@.rect == rect0,
                    self@.resized == res0,
                    self@.fb.width == orig.width,
                    self@.fb.height == orig.height,
                    forall|gx: int, gy: int|
                        orig.in_bounds(gx, gy) ==> self@.fb.at(gx, gy) == (if in_glyph_box(
                            coli,
                            linei,
                            gx,
                            gy,
                        ) && (gy - linei * 16 < row || (gy - linei * 16 == row && gx - coli * 8
                            < j)) {
                            glyph_color(character, fg_color, bg_color, fseq, coli, linei, gx, gy)
                        } else {
                            orig.at(gx, gy)
                        }),
                decreases 8 - j,
            {
                let bit = self.get_bit(row_byte, j);
                let color = if bit != 0 {
                    fg_color
                } else {
                    bg_color
                };
                let lx: isize = (start_x + j) as isize;
                let ly: isize = (start_y + row) as isize;
                let ghost pre = self@.fb;
                self.draw_something(lx, ly, color);
                j = j + 1;
                proof {
                    lemma_write_at(pre, lx as int, ly as int, color);
                    assert forall|gx: int, gy: int| orig.in_bounds(gx, gy) implies self@.fb.at(
                        gx,
                        gy,
                    ) == (if in_glyph_box(coli, linei, gx, gy) && (gy - linei * 16 < row || (gy
                        - linei * 16 == row && gx - coli * 8 < j)) {
                        glyph_color(character, fg_color, bg_color, fseq, coli, linei, gx, gy)
                    } else {
                        orig.at(gx, gy)
                    }) by {
                        assert(pre.in_bounds(gx, gy));
                        assert(self@.fb.at(gx, gy) == (if gx == lx && gy == ly && pre.in_bounds(
                            lx as int,
                            ly as int,
                        ) {
                            color
                        } else {
                            pre.at(gx, gy)
                        }));
                        if gx == lx as int && gy == ly as int {
                            assert(lx as int == start_x + (j - 1));
                            assert(ly as int == start_y + row);
                            assert(gy - linei * 16 == row);
                            assert(gx - coli * 8 == j - 1);
                            assert(in_glyph_box(coli, linei, gx, gy));
                        }
                    }
                }
            }
            row = row + 1;
        }
        proof {
            lemma_draw_glyph_at(orig, character, fg_color, bg_color, fseq, coli, linei);
            let target = draw_glyph_view(orig, character, fg_color, bg_color, fseq, coli, linei);
            assert forall|gx: int, gy: int| self@.fb.in_bounds(gx, gy) implies self@.fb.at(gx, gy)
                == target.at(gx, gy) by {
                assert(orig.in_bounds(gx, gy));
            }
            lemma_pointwise_eq(self@.fb, target);
        }
    }

    /// Render `slice` as fixed-width glyphs starting at grid cell
    /// `(column, line)` of this window's glyph grid (the window rectangle
    /// divided into 8 x 16 cells). A newline, and a glyph that would start
    /// past the grid's width, move to the next line at the starting
    /// column; rendering stops once the grid's height is exhausted. Every
    /// pixel is clipped to the window's buffer.
    pub fn print_string(
        &mut self,
        slice: &str,
        fg_color: u32,
        bg_color: u32,
        font: &FontTable,
        column: usize,
        line: usize,
    )
        requires
            old(self).wf(),
            font.wf(),
            column <= MAX_DIM,
            line <= MAX_DIM,
        ensures
            final(self).wf(),
            final(self)@.rect == old(self)@.rect,
            final(self)@.resized == old(self)@.resized,
            final(self)@.fb == render_text_view(
                old(self)@.fb,
                slice.spec_bytes(),
                fg_color,
                bg_color,
                font@,
                column as int,
                column as int,
                line as int,
                old(self)@.rect.width as int / 8,
                old(self)@.rect.height as int / 16,
            ),
    {
        let ghost orig = self@.fb;
        let ghost fseq = font@;
        let ghost all = slice.spec_bytes();
        let ghost res0 = self@.resized;
        let bytes = slice.as_bytes();
        let rect = self.rect();
        let grid_w: usize = rect.width / 8;
        let grid_h: usize = rect.height / 16;
        proof {
            assert(all.skip(0) =~= all);
            assert(grid_w <= MAX_DIM);
            assert(grid_h <= MAX_DIM);
        }
        let n = bytes.len();
        let mut z: usize = 0;
        let mut cur_col: usize = column;
        let mut cur_line: usize = line;
        let mut stopped: bool = false;
        while z < n && !stopped
            invariant
                self.wf(),
                orig.wf(),
                font.wf(),
                fseq == font@,
                bytes@ == all,
                n == all.len(),
                z <= n,
                grid_w == rect.width as int / 8,
                grid_h == rect.height as int / 16,
                grid_w <= MAX_DIM,
                grid_h <= MAX_DIM,
                column <= MAX_DIM,
                cur_col <= MAX_DIM + 1,
                cur_line <= MAX_DIM,
                self@.rect == rect,
                self@.resized == res0,
                render_text_view(
                    orig,
                    all,
                    fg_color,
                    bg_color,
                    fseq,
                    column as int,
                    column as int,
                    line as int,
                    grid_w as int,
                    grid_h as int,
                ) == render_text_view(
                    self@.fb,
                    all.skip(z as int),
                    fg_color,
                    bg_color,
                    fseq,
                    column as int,
                    cur_col as int,
                    cur_line as int,
                    grid_w as int,
                    grid_h as int,
                ),
                stopped ==> render_text_view(
                    self@.fb,
                    all.skip(z as int),
                    fg_color,
                    bg_color,
                    fseq,
                    column as int,
                    cur_col as int,
                    cur_line as int,
                    grid_w as int,
                    grid_h as int,
                ) == self@.fb,
            decreases n - z + (if stopped {
                0int
            } else {
                1
            }),
        {
            let ghost rest = all.skip(z as int);
            proof {
                assert(rest[0] == all[z as int]);
                assert(rest.drop_first() =~= all.skip(z as int + 1));
            }
            let b = bytes[z];
            if b == NEWLINE {
                if cur_line + 1 >= grid_h {
                    stopped = true;
                } else {
                    cur_col = column;
                    cur_line = cur_line + 1;
                    z = z + 1;
                }
            } else {
                let wrap = cur_col >= grid_w;
                let c2: usize = if wrap {
                    column
                } else {
                    cur_col
                };
                let l2: usize = if wrap {
                    cur_line + 1
                } else {
                    cur_line
                };
                if l2 >= grid_h {
                    stopped = true;
                } else {
                    self.print_ascii_character(b, fg_color, bg_color, font, c2, l2);
                    cur_col = c2 + 1;
                    cur_line = l2;
                    z = z + 1;
                }
            }
        }
        proof {
            if !stopped {
                assert(all.skip(n as int) =~= Seq::<u8>::empty());
            }
        }
    }
}

} // verus!
