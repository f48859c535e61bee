//! Framebuffer text console: an 8x16 bitmap font rendered into a BGRA
//! framebuffer, with line wrap and scroll. The console owns its pixel
//! buffer; the surrounding kernel blits it to the hardware framebuffer.
//!
//! The geometry — cursor movement, wrapping, and the scroll's byte-exact
//! effect — is the verified contract; glyph rendering stays inside the
//! buffer but its pixels are the font's business.

use vstd::prelude::*;

verus! {

/// Pixel height of one text line.
pub const LINE_HEIGHT: usize = 16;

/// Pixel width of one glyph.
pub const GLYPH_WIDTH: usize = 8;

/// A text console over a BGRA framebuffer.
pub struct FramebufferConsole {
    pub buf: Vec<u8>,
    pub width: usize,
    pub height: usize,
    pub pitch: usize,
    pub cursor_x: usize,
    pub cursor_y: usize,
    pub font: Vec<u8>,
}

impl FramebufferConsole {
    /// Geometry invariant: a whole number of glyph columns and text lines,
    /// four bytes per pixel within each scanline, the buffer covering every
    /// scanline, and a 96-glyph 8x16 font.
    pub open spec fn geom_wf(&self) -> bool {
        &&& self.buf@.len() == self.height * self.pitch
        &&& self.width * 4 <= self.pitch
        &&& self.width % 8 == 0
        &&& self.height % 16 == 0
        &&& 8 <= self.width
        &&& 16 <= self.height
        &&& self.font@.len() == 1536
    }

    /// Well-formed console: sound geometry and the cursor inside the grid.
    pub open spec fn wf(&self) -> bool {
        &&& self.geom_wf()
        &&& self.cursor_x * 8 < self.width
        &&& self.cursor_y * 16 < self.height
    }

    /// Text lines on the screen.
    pub open spec fn max_lines(&self) -> int {
        self.height as int / 16
    }

    /// A console over a zeroed buffer with the cursor at the origin.
    pub fn new(width: usize, height: usize, pitch: usize, font: Vec<u8>) -> (c:
        FramebufferConsole)
        requires
            width % 8 == 0,
            height % 16 == 0,
            8 <= width,
            16 <= height,
            width * 4 <= pitch,
            height * pitch <= usize::MAX,
            font@.len() == 1536,
        ensures
            c.wf(),
            c.width == width && c.height == height && c.pitch == pitch,
            c.cursor_x == 0 && c.cursor_y == 0,
            c.buf@ == Seq::new((height * pitch) as nat, |j: int| 0u8),
    {
        let total = height * pitch;
        let mut buf: Vec<u8> = Vec::new();
        let mut k: usize = 0;
        while k < total
            invariant
                k <= total,
                buf@ =~= Seq::new(k as nat, |j: int| 0u8),
            decreases total - k,
        {
            buf.push(0u8);
            assert(buf@ =~= Seq::new((k + 1) as nat, |j: int| 0u8));
            k += 1;
        }
        FramebufferConsole { buf, width, height, pitch, cursor_x: 0, cursor_y: 0, font }
    }

    /// Render one byte's glyph at a character cell. Pixels land inside the
    /// buffer; the cursor and geometry stay put. Codes outside the printable
    /// range render the fallback glyph.
    pub fn draw_char(&mut self, c: u8, x_char: usize, y_char: usize)
        requires
            old(self).wf(),
            (x_char + 1) * 8 <= old(self).width,
            (y_char + 1) * 16 <= old(self).height,
        ensures
            final(self).wf(),
            final(self).buf@.len() == old(self).buf@.len(),
            final(self).width == old(self).width,
            final(self).height == old(self).height,
            final(self).pitch == old(self).pitch,
            final(self).font == old(self).font,
            final(self).cursor_x == old(self).cursor_x,
            final(self).cursor_y == old(self).cursor_y,
    {
        let glyph_base: usize = if c < 32 || c > 127 {
            ((63 - 32) as usize) * 16
        } else {
            ((c - 32) as usize) * 16
        };
        proof {
            assert(glyph_base + 16 <= 1536);
        }
        let mut row: usize = 0;
        while row < 16
            invariant
                self.wf(),
                self.buf@.len() == old(self).buf@.len(),
                self.width == old(self).width,
                self.height == old(self).height,
                self.pitch == old(self).pitch,
                self.font == old(self).font,
                self.cursor_x == old(self).cursor_x,
                self.cursor_y == old(self).cursor_y,
                glyph_base + 16 <= self.font@.len(),
                (x_char + 1) * 8 <= self.width,
                (y_char + 1) * 16 <= self.height,
                row <= 16,
            decreases 16 - row,
        {
            let bits = self.font[glyph_base + row];
            let mut bit: usize = 0;
            while bit < 8
                invariant
                    self.wf(),
                    self.buf@.len() == old(self).buf@.len(),
                    self.width == old(self).width,
                    self.height == old(self).height,
                    self.pitch == old(self).pitch,
                    self.font == old(self).font,
                    self.cursor_x == old(self).cursor_x,
                    self.cursor_y == old(self).cursor_y,
                    (x_char + 1) * 8 <= self.width,
                    (y_char + 1) * 16 <= self.height,
                    row < 16,
                    bit <= 8,
                decreases 8 - bit,
            {
                proof {
                    assert(bit < 8 ==> 7 - bit < 8);
                }
                let on = bits & (1u8 << ((7 - bit) as u32)) != 0;
                let value: u8 = if on {
                    0xff
                } else {
                    0x00
                };
                let bl = self.buf.len();
                let ghost w = self.width as int;
                let ghost pi = self.pitch as int;
                proof {
                    assert((y_char * 16 + row) * pi + (x_char * 8 + bit) * 4 + 4 <= self.height
                        * pi) by (nonlinear_arith)
                        requires
                            pi >= w * 4,
                            (x_char + 1) * 8 <= w,
                            (y_char + 1) * 16 <= self.height,
                            row < 16,
                            bit < 8,
                            0 <= x_char,
                            0 <= y_char,
                            0 <= self.height,
                            0 <= pi,
                            0 <= w,
                    ;
                }
                let offset = (y_char * 16 + row) * self.pitch + (x_char * 8 + bit) * 4;
                self.buf[offset] = value;
                self.buf[offset + 1] = value;
                self.buf[offset + 2] = value;
                self.buf[offset + 3] = 0x00;
                bit += 1;
            }
            row += 1;
        }
    }

    /// Scroll one text line up: every byte moves one line height towards
    /// the start, and the freed last line is cleared.
    pub fn scroll_up(&mut self)
        requires
            old(self).wf(),
        ensures
            final(self).wf(),
            final(self).width == old(self).width,
            final(self).height == old(self).height,
            final(self).pitch == old(self).pitch,
            final(self).font == old(self).font,
            final(self).cursor_x == old(self).cursor_x,
            final(self).cursor_y == old(self).cursor_y,
            final(self).buf@ == old(self).buf@.skip(16 * old(self).pitch as int) + Seq::new(
                (16 * old(self).pitch) as nat,
                |j: int| 0u8,
            ),
    {
        let total = self.buf.len();
        proof {
            assert(16 * self.pitch as int <= self.height * self.pitch as int) by (nonlinear_arith)
                requires
                    self.height >= 16,
                    self.pitch >= 0,
            ;
        }
        let delta = 16 * self.pitch;
        let mut i: usize = 0;
        while i < total - delta
            invariant
                self.wf(),
                self.width == old(self).width,
                self.height == old(self).height,
                self.pitch == old(self).pitch,
                self.font == old(self).font,
                self.cursor_x == old(self).cursor_x,
                self.cursor_y == old(self).cursor_y,
                delta == 16 * self.pitch,
                total == self.buf@.len(),
                delta <= total,
                i <= total - delta,
                self.buf@.len() == old(self).buf@.len(),
                forall|m: int|
                    0 <= m < i ==> #[trigger] self.buf@[m] == old(self).buf@[m + delta],
                forall|m: int| i <= m < total ==> #[trigger] self.buf@[m] == old(self).buf@[m],
            decreases total - delta - i,
        {
            let v = self.buf[i + delta];
            self.buf[i] = v;
            i += 1;
        }
        while i < total
            invariant
                self.wf(),
                self.width == old(self).width,
                self.height == old(self).height,
                self.pitch == old(self).pitch,
                self.font == old(self).font,
                self.cursor_x == old(self).cursor_x,
                self.cursor_y == old(self).cursor_y,
                delta == 16 * self.pitch,
                total == self.buf@.len(),
                delta <= total,
                total - delta <= i <= total,
                self.buf@.len() == old(self).buf@.len(),
                forall|m: int|
                    0 <= m < total - delta ==> #[trigger] self.buf@[m] == old(self).buf@[m
                        + delta],
                forall|m: int| total - delta <= m < i ==> #[trigger] self.buf@[m] == 0,
            decreases total - i,
        {
            self.buf[i] = 0;
            i += 1;
        }
        proof {
            assert(final(self).buf@ =~= old(self).buf@.skip(16 * old(self).pitch as int)
                + Seq::new((16 * old(self).pitch) as nat, |j: int| 0u8));
        }
    }

    /// Scroll when the cursor has run off the bottom, pinning it to the
    /// last line.
    pub fn scroll_if_needed(&mut self)
        requires
            old(self).geom_wf(),
            old(self).cursor_x * 8 < old(self).width,
            old(self).cursor_y <= old(self).height / 16,
        ensures
            final(self).wf(),
            final(self).width == old(self).width,
            final(self).height == old(self).height,
            final(self).pitch == old(self).pitch,
            final(self).font == old(self).font,
            final(self).cursor_x == old(self).cursor_x,
            old(self).cursor_y * 16 < old(self).height ==> final(self).cursor_y == old(
                self,
            ).cursor_y && final(self).buf@ == old(self).buf@,
            old(self).cursor_y * 16 >= old(self).height ==> final(self).cursor_y == old(
                self,
            ).height / 16 - 1 && final(self).buf@ == old(self).buf@.skip(
                16 * old(self).pitch as int,
            ) + Seq::new((16 * old(self).pitch) as nat, |j: int| 0u8),
    {
        let max_lines = self.height / 16;
        if self.cursor_y >= max_lines {
            proof {
                assert(self.cursor_y * 16 >= (self.height / 16) * 16) by (nonlinear_arith)
                    requires
                        self.cursor_y >= self.height / 16,
                ;
                assert((self.height / 16) * 16 == self.height);
            }
            self.cursor_y = 0;
            self.scroll_up();
            self.cursor_y = max_lines - 1;
            proof {
                assert((self.height / 16 - 1) * 16 < self.height) by (nonlinear_arith)
                    requires
                        self.height >= 16,
                        self.height % 16 == 0,
                ;
            }
        } else {
            proof {
                assert(self.cursor_y * 16 < (self.height / 16) * 16) by (nonlinear_arith)
                    requires
                        self.cursor_y < self.height / 16,
                ;
            }
        }
    }

    /// Put one byte at the cursor: newline and carriage return move the
    /// cursor; anything else renders at the cursor cell and advances it,
    /// wrapping at the right edge; running off the bottom scrolls.
    pub fn put_char(&mut self, c: u8)
        requires
            old(self).wf(),
        ensures
            final(self).wf(),
            final(self).width == old(self).width,
            final(self).height == old(self).height,
            final(self).pitch == old(self).pitch,
            final(self).font == old(self).font,
            final(self).buf@.len() == old(self).buf@.len(),
            c == 10 ==> final(self).cursor_x == 0 && (if (old(self).cursor_y + 1) * 16 < old(
                self,
            ).height {
                final(self).cursor_y == old(self).cursor_y + 1
            } else {
                final(self).cursor_y == old(self).height / 16 - 1
            }),
            c == 13 ==> final(self).cursor_x == 0 && final(self).cursor_y == old(self).cursor_y
                && final(self).buf@ == old(self).buf@,
            c != 10 && c != 13 ==> (if (old(self).cursor_x + 1) * 8 < old(self).width {
                final(self).cursor_x == old(self).cursor_x + 1 && final(self).cursor_y == old(
                    self,
                ).cursor_y
            } else {
                final(self).cursor_x == 0 && (if (old(self).cursor_y + 1) * 16 < old(
                    self,
                ).height {
                    final(self).cursor_y == old(self).cursor_y + 1
                } else {
                    final(self).cursor_y == old(self).height / 16 - 1
                })
            }),
    {
        if c == 10 {
            self.cursor_x = 0;
            self.cursor_y = self.cursor_y + 1;
            proof {
                assert(self.cursor_y <= self.height / 16) by (nonlinear_arith)
                    requires
                        (self.cursor_y - 1) * 16 < self.height,
                        self.height % 16 == 0,
                        self.height >= 16,
                        self.cursor_y >= 1,
                ;
            }
            self.scroll_if_needed();
            return ;
        }
        if c == 13 {
            self.cursor_x = 0;
            return ;
        }
        let x = self.cursor_x;
        let y = self.cursor_y;
        proof {
            assert((x + 1) * 8 <= self.width && (y + 1) * 16 <= self.height) by (nonlinear_arith)
                requires
                    x * 8 < self.width,
                    y * 16 < self.height,
                    self.width % 8 == 0,
                    self.height % 16 == 0,
                    0 <= x,
                    0 <= y,
            ;
        }
        self.draw_char(c, x, y);
        if (self.cursor_x + 1) * 8 >= self.width {
            self.cursor_x = 0;
            self.cursor_y = self.cursor_y + 1;
            proof {
                assert(self.cursor_y <= self.height / 16) by (nonlinear_arith)
                    requires
                        (self.cursor_y - 1) * 16 < self.height,
                        self.height % 16 == 0,
                        self.height >= 16,
                        self.cursor_y >= 1,
                ;
            }
            self.scroll_if_needed();
        } else {
            self.cursor_x = self.cursor_x + 1;
        }
    }

    /// Write a string's bytes to the console.
    pub fn write_string(&mut self, s: &str)
        requires
            old(self).wf(),
        ensures
            final(self).wf(),
            final(self).width == old(self).width,
            final(self).height == old(self).height,
            final(self).pitch == old(self).pitch,
            final(self).font == old(self).font,
            final(self).buf@.len() == old(self).buf@.len(),
    {
        let bytes = s.as_bytes();
        let n = bytes.len();
        let mut i: usize = 0;
        while i < n
            invariant
                n == bytes@.len(),
                i <= n,
                self.wf(),
                self.width == old(self).width,
                self.height == old(self).height,
                self.pitch == old(self).pitch,
                self.font == old(self).font,
                self.buf@.len() == old(self).buf@.len(),
            decreases n - i,
        {
            self.put_char(bytes[i]);
            i += 1;
        }
    }
}

} // verus!
