use vstd::prelude::*;

verus! {

use crate::color::{raw_of, BGRPixel, PixelColor, RGBPixel, RawPixel};
use crate::font::{BACK, CP850Font, CP850FontView, CR, DEL, LF};
use crate::mailbox::{
    buf_status_code,
    MailboxBuf,
    MailboxBufStatus,
    MailboxBufView,
    pixel_order_code,
    MailboxTag,
    PixelOrder,
    tag_code,
};
use crate::surface::{
    lemma_glyph_pixel_msb_first,
    lemma_image_color_digits,
    lemma_glyph_lines_overwrite,
    lemma_blank_pixel,
    lemma_glyph_lines_len,
    image_color,
    lemma_image_rows_words,
    cell_span,
    cells_apart,
    fill_blocks,
    fill_rows,
    glyph_line,
    glyph_lines,
    glyph_pixel,
    image_line,
    image_rows,
    lemma_fill_rows_keeps_word,
    lemma_fill_rows_len,
    lemma_fill_rows_word,
    lemma_glyph_lines_outside,
    lemma_glyph_lines_words,
    lemma_mul_le,
    lemma_mul_step,
    put_word,
    store_word,
    word_at,
};

/// Pixel rows of one text line (the glyph height of the console font).
pub const GLYPH_HEIGHT: usize = 16;

/// Pixel columns of one text column (the glyph width of the console font).
pub const GLYPH_WIDTH: usize = 8;

/// Describes a video mode.
pub struct HDMIConfig {
    pub horizontal_resolution: u32,
    pub vertical_resolution: u32,
    pub color_depth: u32,
    pub virtual_vertical_multiplier: u32,
}

impl HDMIConfig {
    pub fn new(
        horizontal_resolution: u32,
        vertical_resolution: u32,
        color_depth: u32,
        virtual_vertical_multiplier: u32,
    ) -> (c: HDMIConfig)
        ensures
            c.horizontal_resolution == horizontal_resolution,
            c.vertical_resolution == vertical_resolution,
            c.color_depth == color_depth,
            c.virtual_vertical_multiplier == virtual_vertical_multiplier,
    {
        HDMIConfig {
            horizontal_resolution,
            vertical_resolution,
            color_depth,
            virtual_vertical_multiplier,
        }
    }
}

/// The state of a framebuffer console.
pub struct FrameView {
    pub framebuffer_address: usize,
    pub physical_width: usize,
    pub physical_height: usize,
    pub virtual_width: usize,
    pub virtual_height: usize,
    pub virtual_offset_x: usize,
    pub virtual_offset_y: usize,
    pub bit_depth: usize,
    pub pixel_order: PixelOrder,
    pub pitch: usize,
    pub cursor_x: usize,
    pub cursor_y: usize,
    pub foreground: PixelColor,
    pub background: PixelColor,
    pub font: CP850FontView,
    pub cursor: char,
    pub columns: usize,
}

impl FrameView {
    /// Byte offsets of every pixel row the console touches, and the sums of
    /// heights and offsets it forms, fit in a machine word.
    pub open spec fn within_limits(self) -> bool {
        &&& 2 * self.virtual_height + self.physical_height <= usize::MAX
        &&& self.virtual_offset_y + self.virtual_height + self.physical_height <= usize::MAX
        &&& (self.virtual_height + 17) * self.pitch + (self.virtual_width + self.physical_width + 8)
            * (self.bit_depth / 4) + 16 <= usize::MAX
    }

    /// What every operation keeps: a standard non-empty font, as many text
    /// columns as whole glyphs fit across the screen, the cursor on a glyph column
    /// (the first one when no column fits) at a row no lower than the virtual
    /// screen's height, and offsets within the machine limits.
    pub open spec fn wf(self) -> bool {
        &&& self.font.is_standard()
        &&& self.font.char_count > 0
        &&& self.columns == self.physical_width / 8
        &&& self.cursor_x % 8 == 0
        &&& (self.cursor_x == 0 || self.cursor_x < self.columns * 8)
        &&& self.cursor_y <= self.virtual_height
        &&& self.within_limits()
    }

    /// Bytes between horizontally adjacent pixels.
    pub open spec fn step(self) -> int {
        (self.bit_depth / 8) as int
    }

    /// The pixel row half the virtual screen away from the cursor row: every line
    /// is drawn there too, so that either half can be shown.
    pub open spec fn alt_row(self) -> int {
        (self.cursor_y + self.virtual_height / 2) % (self.virtual_height as int)
    }

    pub open spec fn fg_raw(self) -> u32 {
        raw_of(self.pixel_order, self.foreground)
    }

    pub open spec fn bg_raw(self) -> u32 {
        raw_of(self.pixel_order, self.background)
    }

    /// Memory after `count` pixel rows from row `line` on are cleared to the
    /// background colour; each row clears `virtual_width * bit_depth / 4` bytes.
    pub open spec fn clear_rows_mem(self, mem: Seq<u8>, line: int, count: nat) -> Seq<u8> {
        fill_rows(
            mem,
            line * self.pitch,
            self.virtual_width * (self.bit_depth / 4),
            self.pitch as int,
            count,
            self.bg_raw(),
        )
    }

    /// Memory after `glyph` is drawn in the cursor cell and in the cell half the
    /// virtual screen below it.
    pub open spec fn cell_mem(self, mem: Seq<u8>, glyph: Seq<u8>) -> Seq<u8> {
        glyph_lines(
            mem,
            self.cursor_y * self.pitch + self.cursor_x * self.step(),
            self.alt_row() * self.pitch + self.cursor_x * self.step(),
            self.pitch as int,
            self.step(),
            glyph,
            0,
            self.fg_raw(),
            self.bg_raw(),
        )
    }

    /// The byte offset of the top left pixel of the cursor cell.
    pub open spec fn cell_origin(self) -> int {
        self.cursor_y * self.pitch + self.cursor_x * self.step()
    }

    /// The byte offset of the top left pixel of the alternate cursor cell.
    pub open spec fn alt_cell_origin(self) -> int {
        self.alt_row() * self.pitch + self.cursor_x * self.step()
    }

    /// The byte offset of pixel `px` of glyph line `line` in the cursor cell.
    pub open spec fn cell_word(self, line: int, px: int) -> int {
        self.cell_origin() + line * self.pitch + px * self.step()
    }

    /// The byte offset of pixel `px` of glyph line `line` in the alternate cell.
    pub open spec fn alt_cell_word(self, line: int, px: int) -> int {
        self.alt_cell_origin() + line * self.pitch + px * self.step()
    }

    /// Memory after an image of `width` x `height` pixels is drawn with its top
    /// left corner at the cursor and again at the alternate row.
    pub open spec fn image_mem(self, mem: Seq<u8>, image: Seq<u8>, width: nat, height: nat) -> Seq<
        u8,
    > {
        image_rows(
            mem,
            self.cell_origin(),
            self.alt_cell_origin(),
            self.pitch as int,
            self.step(),
            image,
            0,
            width,
            height,
            self.pixel_order,
        )
    }

    /// The images that `draw_homer` can draw here: the data holds every pixel as
    /// four characters from 33 on, a row of pixels fits in a pitch, the image
    /// fits below the cursor in the virtual screen, and the offsets of the image
    /// and its alternate fit in a machine word.
    pub open spec fn image_fits(self, image: Seq<u8>, width: int, height: int) -> bool {
        &&& 4 * width * height <= image.len()
        &&& forall|i: int| 0 <= i < 4 * width * height ==> image[i] >= 33
        &&& width * self.step() <= self.pitch
        &&& self.cursor_y + height <= self.virtual_height
        &&& (self.virtual_height + height + 1) * self.pitch + (self.virtual_width
            + self.physical_width + 8) * (self.bit_depth / 4) <= usize::MAX
    }

    /// The sixteen glyph lines drawn for a byte.
    pub open spec fn glyph_of(self, ch_byte: u8) -> Seq<u8> {
        Seq::new(16, |line: int| self.font.glyph_byte(ch_byte, line))
    }
    pub open spec fn with_cursor_x(self, x: int) -> FrameView {
        FrameView { cursor_x: x as usize, ..self }
    }

    /// The state one text line further down. When the line after it would not
    /// fit in the virtual screen, the cursor and the virtual offset both move
    /// half the virtual screen on instead, wrapping around.
    pub open spec fn after_line_feed(self) -> FrameView {
        let y = self.cursor_y + 16;
        if y + 16 > self.virtual_height {
            FrameView {
                cursor_y: ((y + self.virtual_height / 2) % (self.virtual_height as int)) as usize,
                virtual_offset_y: ((self.virtual_offset_y + self.virtual_height / 2) % (
                self.virtual_height as int)) as usize,
                ..self
            }
        } else {
            FrameView { cursor_y: y as usize, ..self }
        }
    }

    /// Memory after a line feed: the new cursor line and its alternate are
    /// cleared.
    pub open spec fn line_feed_mem(self, mem: Seq<u8>) -> Seq<u8> {
        let w = self.after_line_feed();
        w.clear_rows_mem(w.clear_rows_mem(mem, w.cursor_y as int, 16), w.alt_row(), 16)
    }

    /// In a state just after a line feed: the virtual offset the display has to
    /// move to, when the cursor line is below the visible part, so that the
    /// cursor line becomes the last visible one.
    pub open spec fn scroll_target(self) -> Option<(u32, u32)> {
        if self.cursor_y >= self.virtual_offset_y + self.physical_height {
            Some(
                (
                    self.virtual_offset_x as u32,
                    (self.cursor_y - (self.physical_height - 16)) as u32,
                ),
            )
        } else {
            None
        }
    }

    /// Whether moving one column right leaves the last text column.
    pub open spec fn advance_wraps(self) -> bool {
        self.cursor_x + 8 >= self.columns * 8
    }

    /// The state one column further right, or at the start of the next line.
    pub open spec fn after_advance(self) -> FrameView {
        if self.advance_wraps() {
            self.with_cursor_x(0).after_line_feed()
        } else {
            self.with_cursor_x(self.cursor_x + 8)
        }
    }

    pub open spec fn advance_mem(self, mem: Seq<u8>) -> Seq<u8> {
        if self.advance_wraps() {
            self.with_cursor_x(0).line_feed_mem(mem)
        } else {
            mem
        }
    }

    pub open spec fn advance_scroll(self) -> Option<(u32, u32)> {
        if self.advance_wraps() {
            self.with_cursor_x(0).after_line_feed().scroll_target()
        } else {
            None
        }
    }

    /// The state one column further left, or at the last column of the line
    /// above.
    pub open spec fn after_retreat(self) -> FrameView {
        if self.cursor_x < 8 {
            FrameView {
                cursor_x: ((self.columns - 1) * 8) as usize,
                cursor_y: (self.cursor_y - 16) as usize,
                ..self
            }
        } else {
            self.with_cursor_x(self.cursor_x - 8)
        }
    }

    /// Whether a line feed from this state can compute its scroll target: a
    /// scroll is needed only when the visible screen is at least a line high.
    pub open spec fn line_feed_ok(self) -> bool {
        let w = self.after_line_feed();
        w.cursor_y >= w.virtual_offset_y + w.physical_height ==> w.physical_height >= 16
    }

    /// Bytes that the console takes in this state, that is, where writing them
    /// neither divides by a zero virtual height nor underflows: no backspace or
    /// delete in the first column of the top text line or on a screen without a
    /// whole text column, and no line feed (written or from the last column) that
    /// has to scroll a visible screen less than a line high.
    pub open spec fn accepts(self, byte: u8) -> bool {
        &&& self.virtual_height > 0
        &&& (byte == DEL || byte == BACK) ==> !(self.cursor_x < 8 && (self.cursor_y < 16
            || self.columns == 0))
        &&& byte == LF ==> self.line_feed_ok()
        &&& (byte != CR && byte != LF && byte != DEL && byte != BACK && self.advance_wraps())
            ==> self.with_cursor_x(0).line_feed_ok()
    }

    /// The state after writing `byte`: a carriage return goes to the first
    /// column, a line feed to the next line, backspace and delete one column
    /// back; any other byte is drawn and the cursor advances.
    pub open spec fn after_byte(self, byte: u8) -> FrameView {
        if byte == CR {
            self.with_cursor_x(0)
        } else if byte == LF {
            self.after_line_feed()
        } else if byte == DEL || byte == BACK {
            self.after_retreat()
        } else {
            self.after_advance()
        }
    }

    /// Memory after writing `byte`: a carriage return clears the cursor cell, a
    /// line feed clears the new line, backspace and delete clear the cursor cell
    /// and the one before it, any other byte draws its glyph in the cursor cell.
    pub open spec fn byte_mem(self, mem: Seq<u8>, byte: u8) -> Seq<u8> {
        if byte == CR {
            self.cell_mem(mem, blank_glyph())
        } else if byte == LF {
            self.line_feed_mem(mem)
        } else if byte == DEL || byte == BACK {
            self.after_retreat().cell_mem(self.cell_mem(mem, blank_glyph()), blank_glyph())
        } else {
            self.advance_mem(self.cell_mem(mem, self.glyph_of(byte)))
        }
    }

    /// The virtual offset that writing `byte` asks the display to move to.
    pub open spec fn byte_scroll(self, byte: u8) -> Option<(u32, u32)> {
        if byte == CR {
            None
        } else if byte == LF {
            self.after_line_feed().scroll_target()
        } else if byte == DEL || byte == BACK {
            None
        } else {
            self.advance_scroll()
        }
    }

    /// Whether writing `byte` as text first returns the carriage: a line feed
    /// anywhere but in the first column.
    pub open spec fn text_returns(self, byte: u8) -> bool {
        byte == LF && self.cursor_x != 0
    }

    /// The state after writing `byte` as text.
    pub open spec fn after_text_byte(self, byte: u8) -> FrameView {
        if self.text_returns(byte) {
            self.after_byte(CR).after_byte(byte)
        } else {
            self.after_byte(byte)
        }
    }

    pub open spec fn text_byte_mem(self, mem: Seq<u8>, byte: u8) -> Seq<u8> {
        if self.text_returns(byte) {
            self.after_byte(CR).byte_mem(self.byte_mem(mem, CR), byte)
        } else {
            self.byte_mem(mem, byte)
        }
    }

    pub open spec fn text_byte_scroll(self, byte: u8) -> Option<(u32, u32)> {
        if self.text_returns(byte) {
            self.after_byte(CR).byte_scroll(byte)
        } else {
            self.byte_scroll(byte)
        }
    }

    /// The state after the display reports the virtual offset it moved to.
    pub open spec fn after_offset_reply(self, reply: MailboxBufView) -> FrameView {
        FrameView {
            virtual_offset_x: reply.tags[3] as usize,
            virtual_offset_y: reply.tags[4] as usize,
            ..self
        }
    }
}

/// The request that moves the display's virtual offset to `(x, y)`.
pub open spec fn virtual_offset_request(x: u32, y: u32) -> MailboxBufView {
    MailboxBufView {
        size: 32,
        status: 0,
        tags: Seq::new(36, |i: int| 0u32).update(0, tag_code(MailboxTag::SetVirtualOffset)).update(
            1,
            8,
        ).update(2, 8).update(3, x).update(4, y).update(5, tag_code(MailboxTag::EndTag)),
    }
}

/// Whether a returned request is the one asked for by `target`.
pub open spec fn requests(r: Option<MailboxBuf>, target: Option<(u32, u32)>) -> bool {
    match (r, target) {
        (None, None) => true,
        (Some(b), Some((x, y))) => b@ == virtual_offset_request(x, y),
        _ => false,
    }
}

/// The byte drawn for the cursor character: itself when ASCII, 0 otherwise.
pub open spec fn cursor_byte(c: char) -> u8 {
    if (c as u32) < 128 {
        c as u8
    } else {
        0
    }
}

/// A glyph with no pixel set: drawing it clears a cell to the background.
pub open spec fn blank_glyph() -> Seq<u8> {
    Seq::new(16, |line: int| 0u8)
}

/// A text console drawn into a linear framebuffer, with a second copy of every
/// line kept half the virtual screen away so that the display can scroll by
/// moving its virtual offset.
///
/// The drawing operations take the framebuffer memory as a byte slice whose
/// byte 0 is the pixel at the top left of the virtual screen. Pixels are stored
/// as little-endian 32-bit words; a store that would not lie wholly inside the
/// slice is dropped.
pub struct HDMIFrameBuffer {
    framebuffer_address: usize,
    physical_width: usize,
    physical_height: usize,
    virtual_width: usize,
    virtual_height: usize,
    virtual_offset_x: usize,
    virtual_offset_y: usize,
    bit_depth: usize,
    pixel_order: PixelOrder,
    pitch: usize,
    cursor_x: usize,
    cursor_y: usize,
    foreground_color: PixelColor,
    background_color: PixelColor,
    font: CP850Font,
    cursor: char,
    columns: usize,
}

impl View for HDMIFrameBuffer {
    type V = FrameView;

    closed spec fn view(&self) -> FrameView {
        FrameView {
            framebuffer_address: self.framebuffer_address,
            physical_width: self.physical_width,
            physical_height: self.physical_height,
            virtual_width: self.virtual_width,
            virtual_height: self.virtual_height,
            virtual_offset_x: self.virtual_offset_x,
            virtual_offset_y: self.virtual_offset_y,
            bit_depth: self.bit_depth,
            pixel_order: self.pixel_order,
            pitch: self.pitch,
            cursor_x: self.cursor_x,
            cursor_y: self.cursor_y,
            foreground: self.foreground_color,
            background: self.background_color,
            font: self.font@,
            cursor: self.cursor,
            columns: self.columns,
        }
    }
}

impl HDMIFrameBuffer {
    /// The memory word of `color` in this framebuffer's component order.
    pub fn get_raw_pixel(&self, color: &PixelColor) -> (r: RawPixel)
        ensures
            r.0 == raw_of(self@.pixel_order, *color),
    {
        match self.pixel_order {
            PixelOrder::RBG => RGBPixel::from(color).raw(),
            PixelOrder::BGR => BGRPixel::from(color).raw(),
        }
    }

    fn alt_offset(&self) -> (n: usize)
        ensures
            n == self@.virtual_height / 2,
    {
        self.virtual_height / 2
    }

    /// The alternate row; on a virtual screen a whole number of line pairs high,
    /// with the cursor on a text line, it starts a text line inside the virtual
    /// screen, and its own alternate row is the cursor row.
    fn cursor_y_alt(&self) -> (n: usize)
        requires
            self@.wf(),
            self@.virtual_height > 0,
        ensures
            n == self@.alt_row(),
            self@.virtual_height % 32 == 0 && self@.cursor_y < self@.virtual_height
                && self@.cursor_y % 16 == 0 ==> n % 16 == 0 && n + 16 <= self@.virtual_height && (n
                + self@.virtual_height / 2) % (self@.virtual_height as int) == self@.cursor_y,
    {
        proof {
            if self@.virtual_height % 32 == 0 && self@.cursor_y < self@.virtual_height
                && self@.cursor_y % 16 == 0 {
                lemma_mirror_twice(self@);
            }
        }
        (self.cursor_y + self.alt_offset()) % self.virtual_height
    }

    /// Clears `count` pixel rows from row `line` on to the background colour.
    fn clear_lines(&self, mem: &mut [u8], line: usize, count: usize)
        requires
            self@.wf(),
            line + count <= self@.virtual_height + 16,
        ensures
            final(mem)@ == self@.clear_rows_mem(old(mem)@, line as int, count as nat),
    {
        let ghost v = self@;
        let ghost target = v.clear_rows_mem(old(mem)@, line as int, count as nat);
        let color = self.get_raw_pixel(&self.background_color).0;
        proof {
            lemma_mul_le(line as int, v.virtual_height + 16, v.pitch as int);
            lemma_mul_le(
                v.virtual_width as int,
                v.virtual_width + v.physical_width + 8,
                (v.bit_depth / 4) as int,
            );
            lemma_mul_le(v.virtual_height + 16, v.virtual_height + 17, v.pitch as int);
        }
        let width = self.virtual_width * (self.bit_depth / 4);
        let mut start = line * self.pitch;
        let mut end = start + width;
        let mut i: usize = 0;
        while i < count
            invariant
                v == self@,
                v.wf(),
                line + count <= v.virtual_height + 16,
                i <= count,
                width == v.virtual_width * (v.bit_depth / 4),
                width <= (v.virtual_width + v.physical_width + 8) * (v.bit_depth / 4),
                color == v.bg_raw(),
                start == (line + i) * v.pitch,
                end == start + width,
                fill_rows(mem@, start as int, width as int, v.pitch as int, (count - i) as nat, color)
                    == target,
            decreases count - i,
        {
            proof {
                lemma_mul_le(line + i + 1, v.virtual_height + 16, v.pitch as int);
                lemma_mul_step(line + i, v.pitch as int);
                lemma_mul_le(v.virtual_height + 16, v.virtual_height + 17, v.pitch as int);
            }
            let ghost row_start = start;
            let mut a = start;
            while a < end
                invariant
                    v == self@,
                    v.wf(),
                    color == v.bg_raw(),
                    row_start <= a,
                    a <= end + 16,
                    end == row_start + width,
                    end + 16 <= usize::MAX,
                    fill_rows(
                        fill_blocks(mem@, a as int, end as int, color),
                        row_start + v.pitch,
                        width as int,
                        v.pitch as int,
                        (count - i - 1) as nat,
                        color,
                    ) == target,
                decreases end + 16 - a,
            {
                put_word(mem, a, color);
                put_word(mem, a + 4, color);
                put_word(mem, a + 8, color);
                put_word(mem, a + 12, color);
                a = a + 16;
            }
            start = start + self.pitch;
            end = end + self.pitch;
            i = i + 1;
        }
    }

    /// Clears the whole virtual screen to the background colour.
    pub fn clear(&self, mem: &mut [u8])
        requires
            self@.wf(),
        ensures
            final(mem)@ == self@.clear_rows_mem(old(mem)@, 0, self@.virtual_height as nat),
    {
        self.clear_lines(mem, 0, self.virtual_height);
    }
    /// The word drawn for pixel `index` (0 leftmost) of a glyph line: the
    /// foreground where the line's bit `7 - index` is set, the background
    /// elsewhere.
    fn get_pixel_data(&self, font_byte: u8, index: usize) -> (r: RawPixel)
        requires
            index <= 7,
        ensures
            r.0 == glyph_pixel(font_byte, index as int, self@.fg_raw(), self@.bg_raw()),
    {
        if font_byte & (1u8 << ((7 - index) as u8)) == 0 {
            self.get_raw_pixel(&self.background_color)
        } else {
            self.get_raw_pixel(&self.foreground_color)
        }
    }

    /// Draws the glyph of `ch_byte`, or a blank cell, at the cursor and at the
    /// alternate row.
    fn paint_cell(&self, mem: &mut [u8], ch_byte: u8, blank: bool)
        requires
            self@.wf(),
            self@.virtual_height > 0,
        ensures
            final(mem)@ == self@.cell_mem(
                old(mem)@,
                if blank {
                    blank_glyph()
                } else {
                    self@.glyph_of(ch_byte)
                },
            ),
    {
        let ghost v = self@;
        let ghost glyph = if blank {
            blank_glyph()
        } else {
            v.glyph_of(ch_byte)
        };
        let ghost target = v.cell_mem(old(mem)@, glyph);
        let ghost fg = v.fg_raw();
        let ghost bg = v.bg_raw();
        let step = self.bit_depth / 8;
        let alt_y = self.cursor_y_alt();
        let ghost cy = v.cursor_y as int;
        let ghost cx = v.cursor_x as int;
        let ghost pitch = v.pitch as int;
        let ghost wide = (v.bit_depth / 4) as int;
        proof {
            assert(cx + 8 <= v.physical_width + 8);
            lemma_mul_le(cy + 16, v.virtual_height + 17, pitch);
            lemma_mul_le(alt_y + 16, v.virtual_height + 17, pitch);
            lemma_mul_le(cy, cy + 16, pitch);
            lemma_mul_le(alt_y as int, alt_y + 16, pitch);
            assert((cx + 8) * step <= (v.virtual_width + v.physical_width + 8) * wide)
                by (nonlinear_arith)
                requires
                    0 <= cx + 8 <= v.virtual_width + v.physical_width + 8,
                    0 <= step <= wide,
            ;
            lemma_mul_le(cx, cx + 8, step as int);
        }
        let base = self.cursor_y * self.pitch + self.cursor_x * step;
        let alt = alt_y * self.pitch + self.cursor_x * step;
        let mut line: usize = 0;
        let mut row = base;
        let mut arow = alt;
        while line < 16
            invariant
                v == self@,
                v.wf(),
                step == v.step(),
                alt_y == v.alt_row(),
                cy == v.cursor_y,
                cx == v.cursor_x,
                pitch == v.pitch,
                wide == v.bit_depth / 4,
                cx + 8 <= v.physical_width + 8,
                (cx + 8) * step <= (v.virtual_width + v.physical_width + 8) * wide,
                (cy + 16) * pitch <= (v.virtual_height + 17) * pitch,
                (alt_y + 16) * pitch <= (v.virtual_height + 17) * pitch,
                line <= 16,
                row == (cy + line) * pitch + cx * step,
                arow == (alt_y + line) * pitch + cx * step,
                glyph == (if blank {
                    blank_glyph()
                } else {
                    v.glyph_of(ch_byte)
                }),
                fg == v.fg_raw(),
                bg == v.bg_raw(),
                glyph_lines(mem@, row as int, arow as int, pitch, step as int, glyph, line as int, fg, bg)
                    == target,
            decreases 16 - line,
        {
            proof {
                lemma_mul_le(cy + line, cy + 16, pitch);
                lemma_mul_le(alt_y + line, alt_y + 16, pitch);
                lemma_mul_step(cy + line, pitch);
                lemma_mul_step(alt_y + line, pitch);
                lemma_mul_le(cx, cx + 8, step as int);
            }
            proof {
                v.font.lemma_glyph_in_data(ch_byte, line as int);
            }
            let bits: u8 = if blank {
                0
            } else {
                self.font.get_byte(ch_byte, line)
            };
            assert(bits == glyph[line as int]);
            let mut px: usize = 0;
            let mut r = row;
            let mut ar = arow;
            while px < 8
                invariant
                    v == self@,
                    v.wf(),
                    step == v.step(),
                    line < 16,
                    px <= 8,
                    cy == v.cursor_y,
                    cx == v.cursor_x,
                    alt_y == v.alt_row(),
                    cx + 8 <= v.physical_width + 8,
                    (cx + 8) * step <= (v.virtual_width + v.physical_width + 8) * wide,
                    (cy + line) * pitch <= (v.virtual_height + 17) * pitch,
                    (alt_y + line) * pitch <= (v.virtual_height + 17) * pitch,
                    wide == v.bit_depth / 4,
                    pitch == v.pitch,
                    row == (cy + line) * pitch + cx * step,
                    arow == (alt_y + line) * pitch + cx * step,
                    r == (cy + line) * pitch + (cx + px) * step,
                    ar == (alt_y + line) * pitch + (cx + px) * step,
                    fg == v.fg_raw(),
                    bg == v.bg_raw(),
                    glyph_lines(
                        glyph_line(mem@, r as int, ar as int, step as int, bits, px as int, fg, bg),
                        row + pitch,
                        arow + pitch,
                        pitch,
                        step as int,
                        glyph,
                        line + 1,
                        fg,
                        bg,
                    ) == target,
                decreases 8 - px,
            {
                proof {
                    lemma_mul_step(cx + px, step as int);
                    lemma_mul_le(cx + px + 1, cx + 8, step as int);
                }
                let p = self.get_pixel_data(bits, px).0;
                put_word(mem, r, p);
                put_word(mem, ar, p);
                r = r + step;
                ar = ar + step;
                px = px + 1;
            }
            proof {
                lemma_mul_le(cy + line + 1, cy + 16, pitch);
                lemma_mul_le(alt_y + line + 1, alt_y + 16, pitch);
                lemma_mul_step(cy + line, pitch);
                lemma_mul_step(alt_y + line, pitch);
            }
            row = row + self.pitch;
            arow = arow + self.pitch;
            line = line + 1;
        }
    }

    /// Draws the glyph of `char_byte` in the cursor cell and at the alternate row.
    fn draw_char_byte(&self, mem: &mut [u8], char_byte: u8)
        requires
            self@.wf(),
            self@.virtual_height > 0,
        ensures
            final(mem)@ == self@.cell_mem(old(mem)@, self@.glyph_of(char_byte)),
    {
        self.paint_cell(mem, char_byte, false);
    }

    /// Clears the cursor cell and its alternate to the background colour.
    fn clear_cursor(&self, mem: &mut [u8])
        requires
            self@.wf(),
            self@.virtual_height > 0,
        ensures
            final(mem)@ == self@.cell_mem(old(mem)@, blank_glyph()),
    {
        self.paint_cell(mem, 0, true);
    }
}

/// Builds the request that moves the display's virtual offset to `(x, y)`.
fn virtual_offset_request_buf(x: u32, y: u32) -> (b: MailboxBuf)
    ensures
        b@ == virtual_offset_request(x, y),
{
    let mut b = MailboxBuf::new();
    b.set_tag(0, MailboxTag::SetVirtualOffset.code());
    b.set_tag(1, 8);
    b.set_tag(2, 8);
    b.set_tag(3, x);
    b.set_tag(4, y);
    b.prepare_buf(5);
    b
}

/// A line feed keeps the console well formed.
proof fn lemma_line_feed_wf(v: FrameView)
    requires
        v.wf(),
        v.virtual_height > 0,
    ensures
        v.after_line_feed().wf(),
{
    let y = v.cursor_y + 16;
    let h = v.virtual_height as int;
    let half = h / 2;
    let o = v.virtual_offset_y + half;
    assert(0 <= (y + half) % h < h && 0 <= o % h < h) by (nonlinear_arith)
        requires
            h > 0,
            o >= 0,
            y >= 0,
    ;
}

impl HDMIFrameBuffer {
    /// Moves the cursor down one text line and clears that line and its
    /// alternate; when the line lies below the visible part, returns the request
    /// that scrolls the display to show it.
    fn next_line(&mut self, mem: &mut [u8]) -> (r: Option<MailboxBuf>)
        requires
            old(self)@.wf(),
            old(self)@.virtual_height > 0,
            old(self)@.line_feed_ok(),
        ensures
            final(self)@ == old(self)@.after_line_feed(),
            final(mem)@ == old(self)@.line_feed_mem(old(mem)@),
            requests(r, old(self)@.after_line_feed().scroll_target()),
    {
        proof {
            lemma_line_feed_wf(self@);
        }
        self.cursor_y = self.cursor_y + GLYPH_HEIGHT;
        if self.cursor_y + GLYPH_HEIGHT > self.virtual_height {
            self.cursor_y = (self.cursor_y + self.alt_offset()) % self.virtual_height;
            self.virtual_offset_y = (self.virtual_offset_y + self.alt_offset())
                % self.virtual_height;
        }
        self.clear_lines(mem, self.cursor_y, GLYPH_HEIGHT);
        let alt = self.cursor_y_alt();
        self.clear_lines(mem, alt, GLYPH_HEIGHT);
        if self.cursor_y >= self.virtual_offset_y + self.physical_height {
            let new_virtual_offset_y = self.cursor_y - (self.physical_height - GLYPH_HEIGHT);
            Some(
                virtual_offset_request_buf(
                    self.virtual_offset_x as u32,
                    new_virtual_offset_y as u32,
                ),
            )
        } else {
            None
        }
    }

    /// Moves the cursor one column right, or to the start of the next line.
    fn cursor_increment(&mut self, mem: &mut [u8]) -> (r: Option<MailboxBuf>)
        requires
            old(self)@.wf(),
            old(self)@.virtual_height > 0,
            old(self)@.advance_wraps() ==> old(self)@.with_cursor_x(0).line_feed_ok(),
        ensures
            final(self)@ == old(self)@.after_advance(),
            final(self)@.wf(),
            final(mem)@ == old(self)@.advance_mem(old(mem)@),
            requests(r, old(self)@.advance_scroll()),
    {
        self.cursor_x = self.cursor_x + GLYPH_WIDTH;
        if self.cursor_x >= self.columns * GLYPH_WIDTH {
            self.cursor_x = 0;
            proof {
                lemma_line_feed_wf(self@);
            }
            self.next_line(mem)
        } else {
            None
        }
    }

    /// Moves the cursor one column left, or to the last column of the line above.
    fn cursor_decrement(&mut self)
        requires
            old(self)@.wf(),
            !(old(self)@.cursor_x < 8 && (old(self)@.cursor_y < 16 || old(self)@.columns == 0)),
        ensures
            final(self)@ == old(self)@.after_retreat(),
            final(self)@.wf(),
    {
        if self.cursor_x < GLYPH_WIDTH {
            self.cursor_x = (self.columns - 1) * GLYPH_WIDTH;
            self.cursor_y = self.cursor_y - GLYPH_HEIGHT;
        } else {
            self.cursor_x = self.cursor_x - GLYPH_WIDTH;
        }
    }

    /// Writes one byte to the console. A carriage return clears the cursor cell
    /// and goes to the first column; a line feed goes to the next line;
    /// backspace and delete clear the cursor cell, step back one column and clear
    /// that cell; any other byte is drawn and the cursor advances. When the cursor
    /// line leaves the visible part, the request that scrolls the display is
    /// returned: send it and hand the reply to `apply_virtual_offset_reply`.
    pub fn write_byte(&mut self, mem: &mut [u8], byte: u8) -> (r: Option<MailboxBuf>)
        requires
            old(self)@.wf(),
            old(self)@.accepts(byte),
        ensures
            final(self)@ == old(self)@.after_byte(byte),
            final(self)@.wf(),
            final(mem)@ == old(self)@.byte_mem(old(mem)@, byte),
            requests(r, old(self)@.byte_scroll(byte)),
    {
        if byte == CR {
            self.clear_cursor(mem);
            self.cursor_x = 0;
            None
        } else if byte == LF {
            proof {
                lemma_line_feed_wf(self@);
            }
            self.next_line(mem)
        } else if byte == DEL || byte == BACK {
            self.clear_cursor(mem);
            self.cursor_decrement();
            self.clear_cursor(mem);
            None
        } else {
            self.draw_char_byte(mem, byte);
            self.cursor_increment(mem)
        }
    }
}

impl HDMIFrameBuffer {
    /// Writes one byte of text: a line feed anywhere but in the first column is
    /// preceded by a carriage return. Returns the scroll request as `write_byte`.
    pub fn write_str_byte(&mut self, mem: &mut [u8], byte: u8) -> (r: Option<MailboxBuf>)
        requires
            old(self)@.wf(),
            old(self)@.accepts(byte),
        ensures
            final(self)@ == old(self)@.after_text_byte(byte),
            final(self)@.wf(),
            final(mem)@ == old(self)@.text_byte_mem(old(mem)@, byte),
            requests(r, old(self)@.text_byte_scroll(byte)),
    {
        if byte == LF && self.cursor_x != 0 {
            let none = self.write_byte(mem, CR);
            assert(none is None);
        }
        self.write_byte(mem, byte)
    }

    /// Whether a line feed from here can compute its scroll target.
    fn line_feed_ok(&self) -> (b: bool)
        requires
            self@.wf(),
            self@.virtual_height > 0,
        ensures
            b == self@.line_feed_ok(),
    {
        proof {
            lemma_line_feed_wf(self@);
        }
        let mut y = self.cursor_y + GLYPH_HEIGHT;
        let mut offset_y = self.virtual_offset_y;
        if y + GLYPH_HEIGHT > self.virtual_height {
            y = (y + self.alt_offset()) % self.virtual_height;
            offset_y = (offset_y + self.alt_offset()) % self.virtual_height;
        }
        !(y >= offset_y + self.physical_height && self.physical_height < GLYPH_HEIGHT)
    }

    /// Whether `write_byte` takes `byte` now (see `FrameView::accepts`).
    pub fn accepts(&self, byte: u8) -> (b: bool)
        requires
            self@.wf(),
        ensures
            b == self@.accepts(byte),
    {
        if self.virtual_height == 0 {
            false
        } else if byte == DEL || byte == BACK {
            !(self.cursor_x < GLYPH_WIDTH && (self.cursor_y < GLYPH_HEIGHT || self.columns == 0))
        } else if byte == LF {
            self.line_feed_ok()
        } else if byte == CR {
            true
        } else if self.cursor_x + GLYPH_WIDTH >= self.columns * GLYPH_WIDTH {
            self.line_feed_ok()
        } else {
            true
        }
    }

    /// Draws the cursor character in the cursor cell.
    pub fn draw_cursor(&self, mem: &mut [u8])
        requires
            self@.wf(),
            self@.virtual_height > 0,
        ensures
            final(mem)@ == self@.cell_mem(old(mem)@, self@.glyph_of(cursor_byte(self@.cursor))),
    {
        let ch_byte: u8 = if (self.cursor as u32) < 128 {
            self.cursor as u8
        } else {
            0
        };
        self.draw_char_byte(mem, ch_byte);
    }

    /// Takes the virtual offset that the display reports, in tag words 3 and 4 of
    /// its reply to a scroll request.
    pub fn apply_virtual_offset_reply(&mut self, reply: &MailboxBuf)
        requires
            old(self)@.wf(),
            reply@.tags[4] + old(self)@.virtual_height + old(self)@.physical_height
                <= usize::MAX,
        ensures
            final(self)@ == old(self)@.after_offset_reply(reply@),
            final(self)@.wf(),
    {
        self.virtual_offset_x = reply.tag(3) as usize;
        self.virtual_offset_y = reply.tag(4) as usize;
    }

    /// Stores `pixel` at `(x, y)` of the virtual screen; coordinates outside it
    /// are refused and nothing is stored.
    pub fn set_pixel(&self, mem: &mut [u8], x: usize, y: usize, pixel: RawPixel) -> (r: Result<
        (),
        (),
    >)
        requires
            self@.wf(),
        ensures
            r is Err <==> (x >= self@.virtual_width || y >= self@.virtual_height),
            r is Err ==> final(mem)@ == old(mem)@,
            r is Ok ==> final(mem)@ == store_word(
                old(mem)@,
                y * self@.pitch + x * self@.step(),
                pixel.0,
            ),
    {
        if x >= self.virtual_width || y >= self.virtual_height {
            Err(())
        } else {
            proof {
                let v = self@;
                lemma_mul_le(y as int, v.virtual_height + 17, v.pitch as int);
                assert(x * v.step() <= (v.virtual_width + v.physical_width + 8) * (v.bit_depth / 4))
                    by (nonlinear_arith)
                    requires
                        0 <= x <= v.virtual_width + v.physical_width + 8,
                        0 <= v.step() <= v.bit_depth / 4,
                ;
            }
            let offset = y * self.pitch + (x * (self.bit_depth / 8));
            put_word(mem, offset, pixel.0);
            Ok(())
        }
    }

    pub fn physical_width(&self) -> (n: usize)
        ensures
            n == self@.physical_width,
    {
        self.physical_width
    }

    pub fn physical_height(&self) -> (n: usize)
        ensures
            n == self@.physical_height,
    {
        self.physical_height
    }

    pub fn virtual_width(&self) -> (n: usize)
        ensures
            n == self@.virtual_width,
    {
        self.virtual_width
    }

    pub fn virtual_height(&self) -> (n: usize)
        ensures
            n == self@.virtual_height,
    {
        self.virtual_height
    }

    pub fn virtual_offset_x(&self) -> (n: usize)
        ensures
            n == self@.virtual_offset_x,
    {
        self.virtual_offset_x
    }

    pub fn virtual_offset_y(&self) -> (n: usize)
        ensures
            n == self@.virtual_offset_y,
    {
        self.virtual_offset_y
    }

    pub fn cursor_x(&self) -> (n: usize)
        ensures
            n == self@.cursor_x,
    {
        self.cursor_x
    }

    pub fn cursor_y(&self) -> (n: usize)
        ensures
            n == self@.cursor_y,
    {
        self.cursor_y
    }

    /// The colour that glyphs are drawn in.
    pub fn foreground_color(&self) -> (c: PixelColor)
        ensures
            c == self@.foreground,
    {
        PixelColor {
            red: self.foreground_color.red,
            green: self.foreground_color.green,
            blue: self.foreground_color.blue,
            alpha: self.foreground_color.alpha,
        }
    }

    /// The colour that cells and lines are cleared to.
    pub fn background_color(&self) -> (c: PixelColor)
        ensures
            c == self@.background,
    {
        PixelColor {
            red: self.background_color.red,
            green: self.background_color.green,
            blue: self.background_color.blue,
            alpha: self.background_color.alpha,
        }
    }

    /// Sets the colour that glyphs are drawn in.
    pub fn set_foreground_color(&mut self, color: &PixelColor)
        ensures
            final(self)@ == (FrameView {
                foreground: PixelColor {
                    red: color.red,
                    green: color.green,
                    blue: color.blue,
                    alpha: color.alpha,
                },
                ..old(self)@
            }),
    {
        self.foreground_color.red = color.red;
        self.foreground_color.green = color.green;
        self.foreground_color.blue = color.blue;
        self.foreground_color.alpha = color.alpha;
    }

    /// Sets the colour that cells and lines are cleared to.
    pub fn set_background_color(&mut self, color: &PixelColor)
        ensures
            final(self)@ == (FrameView {
                background: PixelColor {
                    red: color.red,
                    green: color.green,
                    blue: color.blue,
                    alpha: color.alpha,
                },
                ..old(self)@
            }),
    {
        self.background_color.red = color.red;
        self.background_color.green = color.green;
        self.background_color.blue = color.blue;
        self.background_color.alpha = color.alpha;
    }
}

/// The request that sets up the framebuffer for `config`: physical size,
/// virtual size (`virtual_vertical_multiplier` screens high), virtual offset 0,
/// colour depth, pixel order 0, a buffer allocated 4096-aligned, and the pitch.
pub open spec fn framebuffer_request(c: HDMIConfig) -> MailboxBufView {
    MailboxBufView {
        size: 140,
        status: 0,
        tags: seq![
            tag_code(MailboxTag::SetPhysicalWidthHeight), 8u32, 8u32, c.horizontal_resolution,
            c.vertical_resolution,
            tag_code(MailboxTag::SetVirtualWidthHeight), 8u32, 8u32, c.horizontal_resolution,
            (c.vertical_resolution * c.virtual_vertical_multiplier) as u32,
            tag_code(MailboxTag::SetVirtualOffset), 8u32, 8u32, 0u32, 0u32,
            tag_code(MailboxTag::SetDepth), 4u32, 4u32, c.color_depth,
            tag_code(MailboxTag::SetPixelOrder), 4u32, 4u32, 0u32,
            tag_code(MailboxTag::AllocateBuffer), 8u32, 8u32, 4096u32, 0u32,
            tag_code(MailboxTag::GetPitch), 4u32, 0u32, 0u32,
            tag_code(MailboxTag::EndTag), 0u32, 0u32, 0u32,
        ],
    }
}

/// The pixel order named by a code that is 0 or 1.
pub open spec fn pixel_order_of(code: u32) -> PixelOrder {
    if code == 0 {
        PixelOrder::BGR
    } else {
        PixelOrder::RBG
    }
}

/// The console that the framebuffer described by `reply` shows: geometry, depth,
/// pixel order and pitch as the firmware answered them, the buffer address with
/// its bus alias bits cleared, the cursor at the top left, light grey text on
/// black, `_` as the cursor character and as many text columns as whole glyphs
/// fit across the screen.
pub open spec fn frame_from_reply(r: MailboxBufView, font: CP850FontView) -> FrameView {
    FrameView {
        framebuffer_address: (r.tags[26] & 0x3fff_ffff) as usize,
        physical_width: r.tags[3] as usize,
        physical_height: r.tags[4] as usize,
        virtual_width: r.tags[8] as usize,
        virtual_height: r.tags[9] as usize,
        virtual_offset_x: r.tags[13] as usize,
        virtual_offset_y: r.tags[14] as usize,
        bit_depth: r.tags[18] as usize,
        pixel_order: pixel_order_of(r.tags[22]),
        pitch: r.tags[31] as usize,
        cursor_x: 0,
        cursor_y: 0,
        foreground: PixelColor { red: 203, green: 203, blue: 203, alpha: 0 },
        background: PixelColor { red: 0, green: 0, blue: 0, alpha: 0 },
        font: font,
        cursor: '_',
        columns: (r.tags[3] / 8) as usize,
    }
}

impl HDMIFrameBuffer {
    /// The property request that sets up a framebuffer for `config`; it is sent on
    /// the property channel and its reply handed to `new`.
    pub fn request(config: &HDMIConfig) -> (b: MailboxBuf)
        requires
            config.vertical_resolution * config.virtual_vertical_multiplier <= u32::MAX,
        ensures
            b@ == framebuffer_request(*config),
    {
        let mut b = MailboxBuf::new();
        b.set_tag(0, MailboxTag::SetPhysicalWidthHeight.code());
        b.set_tag(1, 8);
        b.set_tag(2, 8);
        b.set_tag(3, config.horizontal_resolution);
        b.set_tag(4, config.vertical_resolution);
        b.set_tag(5, MailboxTag::SetVirtualWidthHeight.code());
        b.set_tag(6, 8);
        b.set_tag(7, 8);
        b.set_tag(8, config.horizontal_resolution);
        b.set_tag(9, config.vertical_resolution * config.virtual_vertical_multiplier);
        b.set_tag(10, MailboxTag::SetVirtualOffset.code());
        b.set_tag(11, 8);
        b.set_tag(12, 8);
        b.set_tag(13, 0);
        b.set_tag(14, 0);
        b.set_tag(15, MailboxTag::SetDepth.code());
        b.set_tag(16, 4);
        b.set_tag(17, 4);
        b.set_tag(18, config.color_depth);
        b.set_tag(19, MailboxTag::SetPixelOrder.code());
        b.set_tag(20, 4);
        b.set_tag(21, 4);
        b.set_tag(22, 0);
        b.set_tag(23, MailboxTag::AllocateBuffer.code());
        b.set_tag(24, 8);
        b.set_tag(25, 8);
        b.set_tag(26, 4096);
        b.set_tag(27, 0);
        b.set_tag(28, MailboxTag::GetPitch.code());
        b.set_tag(29, 4);
        b.set_tag(30, 0);
        b.set_tag(31, 0);
        b.prepare_buf(32);
        assert(b@.tags =~= framebuffer_request(*config).tags);
        b
    }

    /// The console on the framebuffer that the firmware set up, as described by
    /// its successful reply to `request`: see `frame_from_reply`. It is well formed exactly
    /// when its offsets are within the machine limits (`within_limits`).
    pub fn new(reply: &MailboxBuf, font: CP850Font) -> (fb: HDMIFrameBuffer)
        requires
            reply@.status == buf_status_code(MailboxBufStatus::RequestSuccessful),
            reply@.tags[22] <= 1,
            font@.is_standard(),
            font@.char_count > 0,
        ensures
            fb@ == frame_from_reply(reply@, font@),
            fb@.wf() <==> fb@.within_limits(),
            reads_reply(fb@, reply@),
            fb@.font == font@,
    {
        proof {
            reply.lemma_tag_count();
        }
        let ghost fv = font@;
        let framebuffer_address = (reply.tag(26) & 0x3fff_ffff) as usize;
        let physical_width = reply.tag(3) as usize;
        let physical_height = reply.tag(4) as usize;
        let virtual_width = reply.tag(8) as usize;
        let virtual_height = reply.tag(9) as usize;
        let virtual_offset_x = reply.tag(13) as usize;
        let virtual_offset_y = reply.tag(14) as usize;
        let bit_depth = reply.tag(18) as usize;
        let pixel_order = PixelOrder::from_code(reply.tag(22));
        let pitch = reply.tag(31) as usize;
        let fb = HDMIFrameBuffer {
            framebuffer_address,
            physical_width,
            physical_height,
            virtual_width,
            virtual_height,
            virtual_offset_x,
            virtual_offset_y,
            bit_depth,
            pixel_order,
            pitch,
            cursor_x: 0,
            cursor_y: 0,
            foreground_color: PixelColor::white(),
            background_color: PixelColor::black(),
            font,
            cursor: '_',
            columns: physical_width / GLYPH_WIDTH,
        };
        assert(fb@.font == fv);
        proof {
            lemma_console_reads_reply(reply@, fv);
        }
        fb
    }

    /// Whether the console's offsets are within the machine limits; a console
    /// from `new` is well formed exactly then.
    pub fn within_limits(&self) -> (b: bool)
        ensures
            b == self@.within_limits(),
    {
        let vh = self.virtual_height;
        let ph = self.physical_height;
        let heights = match vh.checked_mul(2) {
            Some(x) => x.checked_add(ph),
            None => None,
        };
        let offsets = match self.virtual_offset_y.checked_add(vh) {
            Some(x) => x.checked_add(ph),
            None => None,
        };
        if heights.is_none() || offsets.is_none() {
            return false;
        }
        let span = if self.pitch == 0 {
            Some(0)
        } else {
            match vh.checked_add(17) {
                Some(rows) => rows.checked_mul(self.pitch),
                None => None,
            }
        };
        let wide = self.bit_depth / 4;
        let across = if wide == 0 {
            Some(0)
        } else {
            match self.virtual_width.checked_add(self.physical_width) {
                Some(w) => match w.checked_add(8) {
                    Some(w8) => w8.checked_mul(wide),
                    None => None,
                },
                None => None,
            }
        };
        proof {
            let v = self@;
            let x = v.virtual_width + v.physical_width + 8;
            assert(x * wide >= x || wide == 0) by (nonlinear_arith)
                requires
                    x >= 0,
                    wide >= 0,
            ;
            assert((vh + 17) * v.pitch >= vh + 17 || v.pitch == 0) by (nonlinear_arith)
                requires
                    vh >= 0,
                    v.pitch >= 0,
            ;
            assert(wide == 0 ==> x * wide == 0) by (nonlinear_arith);
            assert(v.pitch == 0 ==> (vh + 17) * v.pitch == 0) by (nonlinear_arith);
        }
        match (span, across) {
            (Some(a), Some(c)) => match a.checked_add(c) {
                Some(t) => t.checked_add(16).is_some(),
                None => false,
            },
            _ => false,
        }
    }
}

/// Writing a printable byte and then a backspace leaves the console as it was,
/// unless the byte ended the last text line that fits in the virtual screen (the
/// line feed then wraps around half the screen); the backspace is always taken.
pub proof fn lemma_backspace_undoes_byte(v: FrameView, byte: u8)
    requires
        v.wf(),
        v.virtual_height > 0,
        v.columns >= 1,
        byte != CR && byte != LF && byte != DEL && byte != BACK,
        !(v.advance_wraps() && v.cursor_y + 32 > v.virtual_height),
    ensures
        v.after_byte(byte).accepts(BACK),
        v.after_byte(byte).after_byte(BACK) == v,
{
}

/// After a line feed that asks the display to scroll, and a reply that moved the
/// virtual offset where asked, the cursor line is the last visible line.
pub proof fn lemma_scroll_shows_cursor_line(v: FrameView, reply: MailboxBufView)
    requires
        v.wf(),
        v.virtual_height > 0,
        v.physical_height >= 16,
        v.after_line_feed().scroll_target() matches Some((x, y)) && reply.tags[3] == x
            && reply.tags[4] == y,
        v.virtual_height <= u32::MAX,
    ensures
        ({
            let w = v.after_line_feed().after_offset_reply(reply);
            &&& w.virtual_offset_y <= w.cursor_y
            &&& w.cursor_y + 16 == w.virtual_offset_y + w.physical_height
        }),
{
    lemma_line_feed_wf(v);
}

/// The cursor row and its alternate are at least half the virtual screen apart:
/// `rows` rows from the one lie wholly before or wholly after `rows` rows from
/// the other, for `rows` up to half the virtual height.
proof fn lemma_mirror_apart(v: FrameView, rows: int)
    requires
        v.wf(),
        v.virtual_height > 0,
        0 <= rows <= v.virtual_height / 2,
    ensures
        0 <= v.alt_row() < v.virtual_height,
        0 <= v.cell_origin(),
        0 <= v.alt_cell_origin(),
        v.cell_origin() + rows * v.pitch <= v.alt_cell_origin() || v.alt_cell_origin() + rows
            * v.pitch <= v.cell_origin(),
{
    let h = v.virtual_height as int;
    let y = v.cursor_y as int;
    let p = v.pitch as int;
    let a = v.alt_row();
    if y + h / 2 < h {
        assert((y + h / 2) % h == y + h / 2) by (nonlinear_arith)
            requires
                0 <= y + h / 2 < h,
        ;
        lemma_mul_le(y + rows, a, p);
        assert((y + rows) * p == y * p + rows * p) by (nonlinear_arith);
    } else {
        assert((y + h / 2) % h == y + h / 2 - h) by (nonlinear_arith)
            requires
                h <= y + h / 2 < 2 * h,
        ;
        lemma_mul_le(a + rows, y, p);
        assert((a + rows) * p == a * p + rows * p) by (nonlinear_arith);
    }
    lemma_mul_le(0, y, p);
    lemma_mul_le(0, a, p);
    lemma_mul_le(0, v.cursor_x as int, v.step());
}

/// The cursor cell and its alternate lie apart and inside memory of `len` bytes.
proof fn lemma_cells_apart(v: FrameView, len: int)
    requires
        v.wf(),
        v.virtual_height >= 32,
        v.pitch >= 32,
        v.cell_origin() + 15 * v.pitch + 32 <= len,
        v.alt_cell_origin() + 15 * v.pitch + 32 <= len,
    ensures
        cells_apart(len, v.cell_origin(), v.alt_cell_origin(), v.pitch as int, 0),
{
    lemma_mirror_apart(v, 16);
    assert(cell_span(0, v.pitch as int) == 15 * v.pitch + 32);
}

/// Drawing a glyph in the cursor cell of a 32-bit framebuffer shows it: in the
/// cell and in the alternate cell, the word of each pixel is the foreground where
/// the glyph's bit for it is set and the background elsewhere (for cells that lie
/// inside the memory).
pub proof fn lemma_cell_shows_glyph(v: FrameView, mem: Seq<u8>, glyph: Seq<u8>, line: int, px: int)
    requires
        v.wf(),
        v.virtual_height >= 32,
        v.bit_depth == 32,
        v.pitch >= 32,
        v.cell_origin() + 15 * v.pitch + 32 <= mem.len(),
        v.alt_cell_origin() + 15 * v.pitch + 32 <= mem.len(),
        0 <= line < 16,
        0 <= px < 8,
    ensures
        word_at(v.cell_mem(mem, glyph), v.cell_origin() + line * v.pitch + 4 * px) == glyph_pixel(
            glyph[line],
            px,
            v.fg_raw(),
            v.bg_raw(),
        ),
        word_at(v.cell_mem(mem, glyph), v.alt_cell_origin() + line * v.pitch + 4 * px)
            == glyph_pixel(glyph[line], px, v.fg_raw(), v.bg_raw()),
{
    lemma_cells_apart(v, mem.len() as int);
    lemma_glyph_lines_words(
        mem,
        v.cell_origin(),
        v.alt_cell_origin(),
        v.pitch as int,
        glyph,
        v.fg_raw(),
        v.bg_raw(),
        line,
        px,
    );
}

/// Drawing in the cursor cell of a 32-bit framebuffer leaves every byte outside
/// the cell and the alternate cell as it was.
pub proof fn lemma_cell_leaves_rest(v: FrameView, mem: Seq<u8>, glyph: Seq<u8>, i: int)
    requires
        v.wf(),
        v.virtual_height >= 32,
        v.bit_depth == 32,
        v.pitch >= 32,
        v.cell_origin() + 15 * v.pitch + 32 <= mem.len(),
        v.alt_cell_origin() + 15 * v.pitch + 32 <= mem.len(),
        0 <= i < mem.len(),
        !(v.cell_origin() <= i < v.cell_origin() + 15 * v.pitch + 32),
        !(v.alt_cell_origin() <= i < v.alt_cell_origin() + 15 * v.pitch + 32),
    ensures
        v.cell_mem(mem, glyph)[i] == mem[i],
{
    lemma_cells_apart(v, mem.len() as int);
    lemma_glyph_lines_outside(
        mem,
        v.cell_origin(),
        v.alt_cell_origin(),
        v.pitch as int,
        glyph,
        0,
        v.fg_raw(),
        v.bg_raw(),
        i,
    );
}

/// Clearing rows of a 32-bit framebuffer whose pitch is a whole number of words
/// leaves every pixel of those rows that lies inside the memory in the
/// background colour.
pub proof fn lemma_cleared_rows_show_background(
    v: FrameView,
    mem: Seq<u8>,
    line: int,
    count: nat,
    x: int,
    y: int,
)
    requires
        v.wf(),
        v.bit_depth == 32,
        v.pitch % 4 == 0,
        0 <= line <= y < line + count,
        0 <= x < v.virtual_width,
        y * v.pitch + 4 * x + 4 <= mem.len(),
    ensures
        word_at(v.clear_rows_mem(mem, line, count), y * v.pitch + 4 * x) == v.bg_raw(),
{
    let p = v.pitch as int;
    let k = y - line;
    assert(y * p == line * p + k * p) by (nonlinear_arith)
        requires
            k == y - line,
    ;
    lemma_mul_le(0, line, p);
    let q = p / 4;
    let lq = line * q;
    assert(line * p == lq * 4) by (nonlinear_arith)
        requires
            p == 4 * q,
            lq == line * q,
    ;
    lemma_fill_rows_word(mem, line * p, v.virtual_width * 8, p, count, v.bg_raw(), k, 4 * x);
}

/// After a line feed on a 32-bit framebuffer whose pitch is a whole number of
/// words, every pixel of the new cursor line and of its alternate that lies inside
/// the memory is in the background colour.
pub proof fn lemma_line_feed_clears_line(v: FrameView, mem: Seq<u8>, x: int, row: int, alt: bool)
    requires
        v.wf(),
        v.virtual_height > 0,
        v.bit_depth == 32,
        v.pitch % 4 == 0,
        0 <= x < v.virtual_width,
        0 <= row < 16,
        ({
            let w = v.after_line_feed();
            let y = if alt {
                w.alt_row() + row
            } else {
                w.cursor_y + row
            };
            y * v.pitch + 4 * x + 4 <= mem.len()
        }),
    ensures
        ({
            let w = v.after_line_feed();
            let y = if alt {
                w.alt_row() + row
            } else {
                w.cursor_y + row
            };
            word_at(v.line_feed_mem(mem), y * v.pitch + 4 * x) == v.bg_raw()
        }),
{
    lemma_line_feed_wf(v);
    let w = v.after_line_feed();
    let p = v.pitch as int;
    assert(0 <= w.alt_row()) by (nonlinear_arith)
        requires
            w.alt_row() == (w.cursor_y + w.virtual_height / 2) % (w.virtual_height as int),
            w.virtual_height > 0,
    ;
    let m1 = w.clear_rows_mem(mem, w.cursor_y as int, 16);
    lemma_clear_rows_len(w, mem, w.cursor_y as int, 16);
    if alt {
        lemma_cleared_rows_show_background(w, m1, w.alt_row(), 16, x, w.alt_row() + row);
    } else {
        let y = w.cursor_y + row;
        lemma_cleared_rows_show_background(w, mem, w.cursor_y as int, 16, x, y);
        let q = p / 4;
        let a = w.alt_row();
        let aq = a * q;
        let yq = y * q;
        assert(a * p == aq * 4 && y * p == yq * 4) by (nonlinear_arith)
            requires
                p == 4 * q,
                aq == a * q,
                yq == y * q,
        ;
        lemma_mul_le(0, y, p);
        lemma_fill_rows_keeps_word(m1, a * p, w.virtual_width * 8, p, 16, w.bg_raw(), y * p + 4 * x);
    }
}

proof fn lemma_clear_rows_len(v: FrameView, mem: Seq<u8>, line: int, count: nat)
    ensures
        v.clear_rows_mem(mem, line, count).len() == mem.len(),
{
    lemma_fill_rows_len(mem, line * v.pitch, v.virtual_width * (v.bit_depth / 4), v.pitch as int, count, v.bg_raw());
}

impl HDMIFrameBuffer {
    /// Draws an image of `width` x `height` pixels, stored four characters per
    /// pixel (see `image_color`), with its top left corner at the cursor and again
    /// at the alternate row, then moves the cursor down by the image's height.
    pub fn draw_homer(&mut self, mem: &mut [u8], image: &[u8], width: usize, height: usize)
        requires
            old(self)@.wf(),
            old(self)@.virtual_height > 0,
            old(self)@.image_fits(image@, width as int, height as int),
        ensures
            final(self)@ == (FrameView {
                cursor_y: (old(self)@.cursor_y + height) as usize,
                ..old(self)@
            }),
            final(self)@.wf(),
            final(mem)@ == old(self)@.image_mem(old(mem)@, image@, width as nat, height as nat),
    {
        let ghost v = self@;
        let ghost target = v.image_mem(old(mem)@, image@, width as nat, height as nat);
        let step = self.bit_depth / 8;
        let alt_y = self.cursor_y_alt();
        let ghost cy = v.cursor_y as int;
        let ghost cx = v.cursor_x as int;
        let ghost pitch = v.pitch as int;
        let ghost wide = (v.bit_depth / 4) as int;
        let ghost h = height as int;
        proof {
            assert(cx <= v.virtual_width + v.physical_width + 8);
            assert(cx * step <= (v.virtual_width + v.physical_width + 8) * wide) by (nonlinear_arith)
                requires
                    0 <= cx <= v.virtual_width + v.physical_width + 8,
                    0 <= step <= wide,
            ;
            lemma_mul_le(cy + h, v.virtual_height + h + 1, pitch);
            lemma_mul_le(alt_y + h, v.virtual_height + h + 1, pitch);
            lemma_mul_le(cy, cy + h, pitch);
            lemma_mul_le(alt_y as int, alt_y + h, pitch);
            lemma_mul_le(0, 4 * width, h);
        }
        let base = self.cursor_y * self.pitch + self.cursor_x * step;
        let alt = alt_y * self.pitch + self.cursor_x * step;
        let mut pixel_address = base;
        let mut pixel_address_alt = alt;
        let mut homer_offset: usize = 0;
        let mut r: usize = 0;
        while r < height
            invariant
                v == self@,
                v.wf(),
                v.image_fits(image@, width as int, height as int),
                step == v.step(),
                alt_y == v.alt_row(),
                cy == v.cursor_y,
                cx == v.cursor_x,
                pitch == v.pitch,
                wide == v.bit_depth / 4,
                h == height,
                cx * step <= (v.virtual_width + v.physical_width + 8) * wide,
                (cy + h) * pitch <= (v.virtual_height + h + 1) * pitch,
                (alt_y + h) * pitch <= (v.virtual_height + h + 1) * pitch,
                r <= height,
                pixel_address == (cy + r) * pitch + cx * step,
                pixel_address_alt == (alt_y + r) * pitch + cx * step,
                homer_offset == 4 * width * r,
                4 * width * r <= 4 * width * height,
                image_rows(
                    mem@,
                    pixel_address as int,
                    pixel_address_alt as int,
                    pitch,
                    step as int,
                    image@,
                    homer_offset as int,
                    width as nat,
                    (height - r) as nat,
                    v.pixel_order,
                ) == target,
            decreases height - r,
        {
            proof {
                lemma_mul_le(cy + r, cy + h, pitch);
                lemma_mul_le(alt_y + r, alt_y + h, pitch);
                lemma_mul_step(cy + r, pitch);
                lemma_mul_step(alt_y + r, pitch);
                lemma_mul_step(r as int, 4 * width);
                lemma_mul_le(r + 1, h, 4 * width);
                assert(4 * width * r == r * (4 * width)) by (nonlinear_arith);
                assert(4 * width * (r + 1) == (r + 1) * (4 * width)) by (nonlinear_arith);
                assert(4 * width * h == h * (4 * width)) by (nonlinear_arith);
                assert(width * step <= pitch);
                lemma_mul_le(cy + r + 1, cy + h, pitch);
                lemma_mul_le(alt_y + r + 1, alt_y + h, pitch);
                lemma_mul_le(v.virtual_height + h + 1, v.virtual_height + h + 1, pitch);
            }
            let ghost row_start = pixel_address;
            let ghost alt_start = pixel_address_alt;
            let ghost offset_start = homer_offset;
            let mut c: usize = 0;
            while c < width
                invariant
                    v == self@,
                    v.wf(),
                    v.image_fits(image@, width as int, height as int),
                    step == v.step(),
                    pitch == v.pitch,
                    r < height,
                    c <= width,
                    width * step <= pitch,
                    row_start + pitch <= usize::MAX,
                    alt_start + pitch <= usize::MAX,
                    offset_start + 4 * width <= 4 * width * height,
                    pixel_address == row_start + c * step,
                    pixel_address_alt == alt_start + c * step,
                    homer_offset == offset_start + 4 * c,
                    image_rows(
                        image_line(
                            mem@,
                            pixel_address as int,
                            pixel_address_alt as int,
                            step as int,
                            image@,
                            homer_offset as int,
                            (width - c) as nat,
                            v.pixel_order,
                        ),
                        row_start + pitch,
                        alt_start + pitch,
                        pitch,
                        step as int,
                        image@,
                        offset_start + 4 * width,
                        width as nat,
                        (height - r - 1) as nat,
                        v.pixel_order,
                    ) == target,
                decreases width - c,
            {
                proof {
                    lemma_mul_step(c as int, step as int);
                    lemma_mul_le(c + 1, width as int, step as int);
                    assert(image@[homer_offset as int] >= 33);
                    assert(image@[homer_offset + 1] >= 33);
                    assert(image@[homer_offset + 2] >= 33);
                    assert(image@[homer_offset + 3] >= 33);
                }
                let d0 = image[homer_offset] - 33;
                let d1 = image[homer_offset + 1] - 33;
                let d2 = image[homer_offset + 2] - 33;
                let d3 = image[homer_offset + 3] - 33;
                let pixel_color = PixelColor {
                    red: (d0 << 2u8) | (d1 >> 4u8),
                    green: ((d1 & 0xf) << 4u8) | (d2 >> 2u8),
                    blue: ((d2 & 0x3) << 6u8) | d3,
                    alpha: 0,
                };
                let homer_pixel = self.get_raw_pixel(&pixel_color).0;
                put_word(mem, pixel_address, homer_pixel);
                put_word(mem, pixel_address_alt, homer_pixel);
                homer_offset = homer_offset + 4;
                pixel_address = pixel_address + step;
                pixel_address_alt = pixel_address_alt + step;
                c = c + 1;
            }
            pixel_address = pixel_address + (self.pitch - width * step);
            pixel_address_alt = pixel_address_alt + (self.pitch - width * step);
            r = r + 1;
        }
        self.cursor_y = self.cursor_y + height;
    }
}

/// In text, a line feed always starts the next line at the first column, and at
/// the same line as a bare line feed would.
pub proof fn lemma_text_line_feed_starts_line(v: FrameView)
    requires
        v.wf(),
    ensures
        v.after_text_byte(LF).cursor_x == 0,
        v.after_text_byte(LF).cursor_y == v.after_byte(LF).cursor_y,
        v.after_text_byte(LF).virtual_offset_y == v.after_byte(LF).virtual_offset_y,
{
}

/// Drawing an image on a 32-bit framebuffer shows it: the word at each image
/// pixel's place, right of and below the cursor and again at the alternate row, is
/// that pixel's colour (for an image no higher than half the virtual screen, with
/// rows that fit in a pitch, whose two copies lie inside the memory).
pub proof fn lemma_image_shows_pixels(
    v: FrameView,
    mem: Seq<u8>,
    image: Seq<u8>,
    width: nat,
    height: nat,
    r: int,
    c: int,
)
    requires
        v.wf(),
        v.bit_depth == 32,
        4 * width <= v.pitch,
        height <= v.virtual_height / 2,
        v.cell_origin() + height * v.pitch <= mem.len(),
        v.alt_cell_origin() + height * v.pitch <= mem.len(),
        0 <= r < height,
        0 <= c < width,
    ensures
        word_at(v.image_mem(mem, image, width, height), v.cell_origin() + r * v.pitch + 4 * c)
            == raw_of(v.pixel_order, image_color(image, 4 * (width * r + c))),
        word_at(v.image_mem(mem, image, width, height), v.alt_cell_origin() + r * v.pitch + 4 * c)
            == raw_of(v.pixel_order, image_color(image, 4 * (width * r + c))),
{
    lemma_mirror_apart(v, height as int);
    lemma_image_rows_words(
        mem,
        v.cell_origin(),
        v.alt_cell_origin(),
        v.pitch as int,
        image,
        width,
        height,
        v.pixel_order,
        r,
        c,
    );
}

impl HDMIFrameBuffer {
    /// Whether `draw_homer` can draw `image` of `width` x `height` pixels now.
    pub fn fits_image(&self, image: &[u8], width: usize, height: usize) -> (b: bool)
        requires
            self@.wf(),
        ensures
            b == (self@.virtual_height > 0 && self@.image_fits(image@, width as int, height as int)),
    {
        let ghost v = self@;
        let ghost w = width as int;
        let ghost h = height as int;
        if self.virtual_height == 0 {
            return false;
        }
        let len = image.len();
        let count = match width.checked_mul(height) {
            Some(wh) => wh.checked_mul(4),
            None => None,
        };
        proof {
            assert(w * h >= 0 && 4 * w * h == 4 * (w * h) && 4 * w * h >= w * h) by (nonlinear_arith)
                requires
                    w >= 0,
                    h >= 0,
            ;
        }
        let n = match count {
            Some(n) => n,
            None => {
                return false;
            },
        };
        if n > len {
            return false;
        }
        let mut i: usize = 0;
        while i < n
            invariant
                v == self@,
                v.wf(),
                v.virtual_height > 0,
                w == width,
                h == height,
                i <= n,
                n <= image@.len(),
                n == 4 * w * h,
                forall|j: int| 0 <= j < i ==> image@[j] >= 33,
            decreases n - i,
        {
            if image[i] < 33 {
                assert(!v.image_fits(image@, w, h)) by {
                    assert(0 <= i < 4 * w * h && image@[i as int] < 33);
                }
                return false;
            }
            i = i + 1;
        }
        let step = self.bit_depth / 8;
        match width.checked_mul(step) {
            Some(row_bytes) => {
                if row_bytes > self.pitch {
                    return false;
                }
            },
            None => {
                return false;
            },
        }
        match self.cursor_y.checked_add(height) {
            Some(bottom) => {
                if bottom > self.virtual_height {
                    return false;
                }
            },
            None => {
                return false;
            },
        }
        proof {
            lemma_mul_le(0, v.virtual_height + 17, v.pitch as int);
            lemma_mul_le(0, v.virtual_width + v.physical_width + 8, (v.bit_depth / 4) as int);
        }
        let wide = self.bit_depth / 4;
        let across = if wide == 0 {
            proof {
                let x = v.virtual_width + v.physical_width + 8;
                assert(x * wide == 0) by (nonlinear_arith)
                    requires
                        wide == 0,
                ;
            }
            0
        } else {
            proof {
                let x = v.virtual_width + v.physical_width + 8;
                assert(x <= x * wide) by (nonlinear_arith)
                    requires
                        x >= 0,
                        wide >= 1,
                ;
            }
            (self.virtual_width + self.physical_width + 8) * wide
        };
        let span = if self.pitch == 0 {
            Some(0)
        } else {
            match self.virtual_height.checked_add(height) {
                Some(a) => match a.checked_add(1) {
                    Some(rows) => rows.checked_mul(self.pitch),
                    None => None,
                },
                None => None,
            }
        };
        proof {
            let r = v.virtual_height + h + 1;
            assert(r * v.pitch >= r || v.pitch == 0) by (nonlinear_arith)
                requires
                    r >= 0,
                    v.pitch >= 0,
            ;
            assert(v.pitch == 0 ==> r * v.pitch == 0) by (nonlinear_arith);
        }
        match span {
            Some(a) => a.checked_add(across).is_some(),
            None => false,
        }
    }
}

/// Backspace after a printable byte clears what the byte drew: on a 32-bit
/// framebuffer, every pixel of the cell the byte was drawn in, and of its
/// alternate, is in the background colour (unless the byte ended the last line
/// that fits, see `lemma_backspace_undoes_byte`).
pub proof fn lemma_backspace_clears_cell(
    v: FrameView,
    mem: Seq<u8>,
    byte: u8,
    line: int,
    px: int,
)
    requires
        v.wf(),
        v.virtual_height >= 32,
        v.columns >= 1,
        byte != CR && byte != LF && byte != DEL && byte != BACK,
        !(v.advance_wraps() && v.cursor_y + 32 > v.virtual_height),
        v.bit_depth == 32,
        v.pitch >= 32,
        v.cell_origin() + 15 * v.pitch + 32 <= mem.len(),
        v.alt_cell_origin() + 15 * v.pitch + 32 <= mem.len(),
        0 <= line < 16,
        0 <= px < 8,
    ensures
        ({
            let after = v.after_byte(byte).byte_mem(v.byte_mem(mem, byte), BACK);
            &&& word_at(after, v.cell_origin() + line * v.pitch + 4 * px) == v.bg_raw()
            &&& word_at(after, v.alt_cell_origin() + line * v.pitch + 4 * px) == v.bg_raw()
        }),
{
    lemma_backspace_undoes_byte(v, byte);
    let w = v.after_byte(byte);
    let m1 = v.byte_mem(mem, byte);
    let g = v.glyph_of(byte);
    let drawn = v.cell_mem(mem, g);
    lemma_cell_mem_len(v, mem, g);
    if v.advance_wraps() {
        lemma_clear_rows_len(
            v.with_cursor_x(0).after_line_feed(),
            drawn,
            v.with_cursor_x(0).after_line_feed().cursor_y as int,
            16,
        );
        lemma_clear_rows_len(
            v.with_cursor_x(0).after_line_feed(),
            v.with_cursor_x(0).after_line_feed().clear_rows_mem(
                drawn,
                v.with_cursor_x(0).after_line_feed().cursor_y as int,
                16,
            ),
            v.with_cursor_x(0).after_line_feed().alt_row(),
            16,
        );
    }
    assert(m1.len() == mem.len());
    let x = w.cell_mem(m1, blank_glyph());
    lemma_cell_mem_len(w, m1, blank_glyph());
    assert(w.after_retreat() == v);
    lemma_cell_shows_glyph(v, x, blank_glyph(), line, px);
    lemma_blank_pixel(px, v.fg_raw(), v.bg_raw());
}

proof fn lemma_cell_mem_len(v: FrameView, mem: Seq<u8>, glyph: Seq<u8>)
    ensures
        v.cell_mem(mem, glyph).len() == mem.len(),
{
    lemma_glyph_lines_len(
        mem,
        v.cell_origin(),
        v.alt_cell_origin(),
        v.pitch as int,
        v.step(),
        glyph,
        0,
        v.fg_raw(),
        v.bg_raw(),
    );
}

/// On a virtual screen a whole number of line pairs high, with the cursor on a
/// text line, the alternate row starts a text line inside the virtual screen,
/// and the alternate of the alternate row is the cursor row.
pub proof fn lemma_mirror_twice(v: FrameView)
    requires
        v.virtual_height > 0,
        v.virtual_height % 32 == 0,
        v.cursor_y < v.virtual_height,
        v.cursor_y % 16 == 0,
    ensures
        v.alt_row() % 16 == 0,
        v.alt_row() + 16 <= v.virtual_height,
        (v.alt_row() + v.virtual_height / 2) % (v.virtual_height as int) == v.cursor_y,
{
    let h = v.virtual_height as int;
    let y = v.cursor_y as int;
    let half = h / 2;
    assert(half % 16 == 0 && 2 * half == h);
    if y < half {
        assert((y + half) % h == y + half) by (nonlinear_arith)
            requires
                0 <= y + half < h,
        ;
        assert((y + half + half) % h == y) by (nonlinear_arith)
            requires
                y + half + half == y + h,
                0 <= y < h,
        ;
    } else {
        assert((y + half) % h == y - half) by (nonlinear_arith)
            requires
                h <= y + half < 2 * h,
                2 * half == h,
        ;
        assert((y - half + half) % h == y) by (nonlinear_arith)
            requires
                0 <= y < h,
        ;
    }
}

/// The state after writing each byte of `bytes` in turn.
pub open spec fn after_bytes(v: FrameView, bytes: Seq<u8>) -> FrameView
    decreases bytes.len(),
{
    if bytes.len() == 0 {
        v
    } else {
        after_bytes(v.after_byte(bytes[0]), bytes.drop_first())
    }
}

/// Whether two states have the same font, screen geometry, pixel layout and
/// horizontal virtual offset.
pub open spec fn same_geometry(a: FrameView, b: FrameView) -> bool {
    &&& a.framebuffer_address == b.framebuffer_address
    &&& a.physical_width == b.physical_width
    &&& a.physical_height == b.physical_height
    &&& a.virtual_width == b.virtual_width
    &&& a.virtual_height == b.virtual_height
    &&& a.virtual_offset_x == b.virtual_offset_x
    &&& a.bit_depth == b.bit_depth
    &&& a.pixel_order == b.pixel_order
    &&& a.pitch == b.pitch
    &&& a.font == b.font
    &&& a.columns == b.columns
    &&& a.foreground == b.foreground
    &&& a.background == b.background
    &&& a.cursor == b.cursor
}

/// Writing any sequence of bytes keeps the geometry: only the cursor and the
/// vertical virtual offset move; the horizontal offset changes only with a
/// reply to a scroll request.
pub proof fn lemma_bytes_keep_geometry(v: FrameView, bytes: Seq<u8>)
    ensures
        same_geometry(after_bytes(v, bytes), v),
    decreases bytes.len(),
{
    if bytes.len() > 0 {
        lemma_bytes_keep_geometry(v.after_byte(bytes[0]), bytes.drop_first());
    }
}

/// Drawing in the cursor cell of a 32-bit framebuffer overwrites what was drawn
/// there before, in the cell and its alternate.
pub proof fn lemma_cell_overwrites(v: FrameView, mem: Seq<u8>, first: Seq<u8>, second: Seq<u8>)
    requires
        v.wf(),
        v.virtual_height >= 32,
        v.bit_depth == 32,
        v.pitch >= 32,
        v.cell_origin() + 15 * v.pitch + 32 <= mem.len(),
        v.alt_cell_origin() + 15 * v.pitch + 32 <= mem.len(),
    ensures
        v.cell_mem(v.cell_mem(mem, first), second) == v.cell_mem(mem, second),
{
    lemma_cells_apart(v, mem.len() as int);
    lemma_glyph_lines_overwrite(
        mem,
        v.cell_origin(),
        v.alt_cell_origin(),
        v.pitch as int,
        first,
        second,
        v.fg_raw(),
        v.bg_raw(),
        v.fg_raw(),
        v.bg_raw(),
    );
}

/// Drawing the cursor and then writing a printable byte leaves the console and
/// the memory as writing the byte alone (on a 32-bit framebuffer whose cursor
/// cells lie inside the memory): the byte's glyph overwrites the cursor.
pub proof fn lemma_byte_overwrites_cursor(v: FrameView, mem: Seq<u8>, byte: u8)
    requires
        v.wf(),
        v.virtual_height >= 32,
        v.bit_depth == 32,
        v.pitch >= 32,
        v.cell_origin() + 15 * v.pitch + 32 <= mem.len(),
        v.alt_cell_origin() + 15 * v.pitch + 32 <= mem.len(),
        byte != CR && byte != LF && byte != DEL && byte != BACK,
    ensures
        v.byte_mem(v.cell_mem(mem, v.glyph_of(cursor_byte(v.cursor))), byte) == v.byte_mem(
            mem,
            byte,
        ),
{
    lemma_cell_overwrites(v, mem, v.glyph_of(cursor_byte(v.cursor)), v.glyph_of(byte));
}

/// A line feed on a virtual screen at least two text lines high keeps the cursor
/// line inside it; on a screen a whole number of line pairs high, a cursor on a
/// text line stays on one.
proof fn lemma_line_feed_keeps_cursor_line(v: FrameView)
    requires
        v.virtual_height >= 32,
        v.cursor_y + 16 <= v.virtual_height,
    ensures
        v.after_line_feed().cursor_y + 16 <= v.virtual_height,
        v.virtual_height % 32 == 0 && v.cursor_y % 16 == 0 ==> v.after_line_feed().cursor_y % 16
            == 0,
{
    let h = v.virtual_height as int;
    let half = h / 2;
    let y = v.cursor_y + 16;
    if y + 16 > h {
        assert((y + half) % h == y + half - h) by (nonlinear_arith)
            requires
                h <= y + half < 2 * h,
        ;
        if h % 32 == 0 && v.cursor_y % 16 == 0 {
            assert((y + half - h) % 16 == 0) by (nonlinear_arith)
                requires
                    h % 32 == 0,
                    half == h / 2,
                    y % 16 == 0,
            ;
        }
    }
}

/// Whether the console takes each byte of `bytes` in turn.
pub open spec fn accepts_all(v: FrameView, bytes: Seq<u8>) -> bool
    decreases bytes.len(),
{
    bytes.len() == 0 || (v.accepts(bytes[0]) && accepts_all(
        v.after_byte(bytes[0]),
        bytes.drop_first(),
    ))
}

/// On a virtual screen at least two text lines high, every byte the console takes,
/// written as a byte or as text, leaves the cursor's text line inside the virtual
/// screen; on a screen a whole number of line pairs high, the cursor stays on a
/// text line.
pub proof fn lemma_byte_keeps_cursor_line(v: FrameView, byte: u8)
    requires
        v.virtual_height >= 32,
        v.cursor_y + 16 <= v.virtual_height,
        v.accepts(byte),
    ensures
        v.after_byte(byte).virtual_height == v.virtual_height,
        v.after_byte(byte).cursor_y + 16 <= v.virtual_height,
        v.after_text_byte(byte).cursor_y + 16 <= v.virtual_height,
        v.virtual_height % 32 == 0 && v.cursor_y % 16 == 0 ==> v.after_byte(byte).cursor_y % 16
            == 0 && v.after_text_byte(byte).cursor_y % 16 == 0,
{
    lemma_line_feed_keeps_cursor_line(v);
    lemma_line_feed_keeps_cursor_line(v.with_cursor_x(0));
}

/// A console at least two text lines high whose cursor line lies inside the
/// virtual screen, as a new one's does (its cursor is at the top), keeps it there
/// through any run of bytes it takes; on a screen a whole number of line pairs
/// high, the cursor stays on a text line. Text is such a run too: a line feed
/// written as text is a carriage return and a line feed.
pub proof fn lemma_bytes_keep_cursor_line(v: FrameView, bytes: Seq<u8>)
    requires
        v.virtual_height >= 32,
        v.cursor_y + 16 <= v.virtual_height,
        accepts_all(v, bytes),
    ensures
        after_bytes(v, bytes).cursor_y + 16 <= v.virtual_height,
        v.virtual_height % 32 == 0 && v.cursor_y % 16 == 0 ==> after_bytes(v, bytes).cursor_y % 16
            == 0,
    decreases bytes.len(),
{
    if bytes.len() > 0 {
        lemma_byte_keeps_cursor_line(v, bytes[0]);
        lemma_bytes_keep_cursor_line(v.after_byte(bytes[0]), bytes.drop_first());
    }
}

/// On a 32-bit framebuffer whose virtual screen is a whole number of line pairs
/// high and whose memory holds every pixel row of it (`virtual_height * pitch`
/// bytes, each row at least as long as the visible width), with at least one text
/// column and the cursor on a text line inside the virtual screen, every pixel
/// word that drawing in the cursor cell or its alternate stores lies inside the
/// memory, and both cells meet the memory premise of the laws on drawing in them.
pub proof fn lemma_cells_in_memory(v: FrameView, len: int)
    requires
        v.wf(),
        v.bit_depth == 32,
        v.virtual_height > 0,
        v.virtual_height % 32 == 0,
        v.cursor_y % 16 == 0,
        v.cursor_y + 16 <= v.virtual_height,
        v.columns >= 1,
        4 * v.physical_width <= v.pitch,
        v.virtual_height * v.pitch <= len,
    ensures
        v.cell_origin() + 15 * v.pitch + 32 <= len,
        v.alt_cell_origin() + 15 * v.pitch + 32 <= len,
        forall|line: int, px: int|
            0 <= line < 16 && 0 <= px < 8 ==> {
                &&& 0 <= #[trigger] v.cell_word(line, px)
                &&& v.cell_word(line, px) + v.step() <= len
                &&& 0 <= v.alt_cell_word(line, px)
                &&& v.alt_cell_word(line, px) + v.step() <= len
            },
{
    lemma_mirror_twice(v);
    let p = v.pitch as int;
    let h = v.virtual_height as int;
    let x = v.cursor_x as int;
    let w = v.physical_width as int;
    assert(x + 8 <= w) by (nonlinear_arith)
        requires
            x % 8 == 0,
            x == 0 || x < v.columns * 8,
            v.columns == w / 8,
            v.columns >= 1,
            x >= 0,
    ;
    assert forall|line: int, px: int| 0 <= line < 16 && 0 <= px < 8 implies {
        &&& 0 <= #[trigger] v.cell_word(line, px)
        &&& v.cell_word(line, px) + v.step() <= len
        &&& 0 <= v.alt_cell_word(line, px)
        &&& v.alt_cell_word(line, px) + v.step() <= len
    } by {
        let y = v.cursor_y as int;
        let a = v.alt_row();
        assert(v.step() == 4);
        assert(0 <= a) by (nonlinear_arith)
            requires
                a == (y + h / 2) % h,
                h > 0,
        ;
        assert(v.cell_word(line, px) == y * p + line * p + 4 * x + 4 * px);
        assert(v.alt_cell_word(line, px) == a * p + line * p + 4 * x + 4 * px);
        lemma_mul_le(y + line, h - 1, p);
        lemma_mul_le(a + line, h - 1, p);
        assert(y * p + line * p == (y + line) * p) by (nonlinear_arith);
        assert(a * p + line * p == (a + line) * p) by (nonlinear_arith);
        assert((h - 1) * p + p == h * p) by (nonlinear_arith);
    }
    assert(v.cell_word(15, 7) + 4 == v.cell_origin() + 15 * v.pitch + 32);
    assert(v.alt_cell_word(15, 7) + 4 == v.alt_cell_origin() + 15 * v.pitch + 32);
}

/// Whether console `v` has what the firmware's reply `r` to the set-up request
/// says: the physical and virtual sizes, the virtual offset, the bit depth and
/// the pitch are the reply's words, the pixel order is the one the reply's code
/// names, and the buffer address is the reply's with the two bus alias bits
/// cleared; the cursor, drawn as `_`, is at the top left, text is light grey
/// (203, 203, 203) on black, and there are as many text columns as whole glyphs
/// fit across the physical width.
pub open spec fn reads_reply(v: FrameView, r: MailboxBufView) -> bool {
    &&& v.physical_width == r.tags[3]
    &&& v.physical_height == r.tags[4]
    &&& v.virtual_width == r.tags[8]
    &&& v.virtual_height == r.tags[9]
    &&& v.virtual_offset_x == r.tags[13]
    &&& v.virtual_offset_y == r.tags[14]
    &&& v.bit_depth == r.tags[18]
    &&& pixel_order_code(v.pixel_order) == r.tags[22]
    &&& v.framebuffer_address == r.tags[26] % 0x4000_0000
    &&& v.pitch == r.tags[31]
    &&& v.cursor_x == 0
    &&& v.cursor_y == 0
    &&& v.columns * 8 <= v.physical_width < v.columns * 8 + 8
    &&& v.foreground.red == 203 && v.foreground.green == 203 && v.foreground.blue == 203
    &&& v.foreground.alpha == 0
    &&& v.background.red == 0 && v.background.green == 0 && v.background.blue == 0
    &&& v.background.alpha == 0
    &&& v.cursor == '_'
}

/// The console built from a reply whose pixel order code is 0 or 1 has what the
/// reply says (see `reads_reply`).
pub proof fn lemma_console_reads_reply(r: MailboxBufView, font: CP850FontView)
    requires
        r.tags.len() == 36,
        r.tags[22] <= 1,
    ensures
        reads_reply(frame_from_reply(r, font), r),
        frame_from_reply(r, font).font == font,
{
    let w = r.tags[26];
    assert(w & 0x3fff_ffff == w % 0x4000_0000) by (bit_vector);
}

/// Writing a byte as text is writing it as a byte, except for a line feed outside
/// the first column, which is written as a carriage return followed by the line
/// feed: the state, the memory and the scroll request agree.
pub proof fn lemma_text_byte_is_byte(v: FrameView, mem: Seq<u8>, byte: u8)
    ensures
        !(byte == LF && v.cursor_x != 0) ==> {
            &&& v.after_text_byte(byte) == v.after_byte(byte)
            &&& v.text_byte_mem(mem, byte) == v.byte_mem(mem, byte)
            &&& v.text_byte_scroll(byte) == v.byte_scroll(byte)
        },
        byte == LF && v.cursor_x != 0 ==> {
            &&& v.after_text_byte(byte) == v.after_byte(CR).after_byte(LF)
            &&& v.text_byte_mem(mem, byte) == v.after_byte(CR).byte_mem(v.byte_mem(mem, CR), LF)
            &&& v.text_byte_scroll(byte) == v.after_byte(CR).byte_scroll(LF)
        },
{
}

/// Writing a printable byte that does not end the line on a 32-bit framebuffer
/// (with the cursor cells inside the memory) draws its glyph with the most
/// significant bit of each glyph line leftmost: pixel `px` of line `line`, in the
/// cursor cell and in the alternate cell, is the foreground colour exactly when
/// the glyph line's byte has a one in the binary digit worth `2^(7 - px)`, and the
/// background otherwise.
pub proof fn lemma_byte_draws_msb_first(v: FrameView, mem: Seq<u8>, byte: u8, line: int, px: int)
    requires
        v.wf(),
        v.virtual_height >= 32,
        v.bit_depth == 32,
        v.pitch >= 32,
        v.cell_origin() + 15 * v.pitch + 32 <= mem.len(),
        v.alt_cell_origin() + 15 * v.pitch + 32 <= mem.len(),
        byte != CR && byte != LF && byte != DEL && byte != BACK,
        !v.advance_wraps(),
        0 <= line < 16,
        0 <= px < 8,
    ensures
        ({
            let shown = if (v.font.glyph_byte(byte, line) as int / vstd::arithmetic::power2::pow2(
                (7 - px) as nat,
            ) as int) % 2 == 1 {
                v.fg_raw()
            } else {
                v.bg_raw()
            };
            &&& word_at(v.byte_mem(mem, byte), v.cell_word(line, px)) == shown
            &&& word_at(v.byte_mem(mem, byte), v.alt_cell_word(line, px)) == shown
        }),
{
    let g = v.glyph_of(byte);
    lemma_cell_shows_glyph(v, mem, g, line, px);
    lemma_glyph_pixel_msb_first(g[line], px, v.fg_raw(), v.bg_raw());
    assert(v.step() == 4);
}

/// Drawing an image on a 32-bit framebuffer stores, for each pixel whose four
/// characters are 33 plus six-bit digits, the colour whose 24 bits are those
/// digits, most significant first (red on top, blue at the bottom), in the
/// cursor's copy of the image and in the alternate one.
pub proof fn lemma_image_pixel_digits(
    v: FrameView,
    mem: Seq<u8>,
    image: Seq<u8>,
    width: nat,
    height: nat,
    r: int,
    c: int,
)
    requires
        v.wf(),
        v.bit_depth == 32,
        4 * width <= v.pitch,
        height <= v.virtual_height / 2,
        v.cell_origin() + height * v.pitch <= mem.len(),
        v.alt_cell_origin() + height * v.pitch <= mem.len(),
        0 <= r < height,
        0 <= c < width,
        4 * (width * r + c) + 4 <= image.len(),
        forall|i: int|
            0 <= i < 4 ==> 33 <= #[trigger] image[4 * (width * r + c) + i] < 97,
    ensures
        ({
            let o = 4 * (width * r + c);
            let color = image_color(image, o);
            &&& word_at(v.image_mem(mem, image, width, height), v.cell_origin() + r * v.pitch + 4 * c)
                == raw_of(v.pixel_order, color)
            &&& word_at(v.image_mem(mem, image, width, height), v.alt_cell_origin() + r * v.pitch + 4
                * c) == raw_of(v.pixel_order, color)
            &&& color.red * 0x1_0000 + color.green * 0x100 + color.blue == (image[o] - 33) * 0x4_0000
                + (image[o + 1] - 33) * 0x1000 + (image[o + 2] - 33) * 0x40 + (image[o + 3] - 33)
        }),
{
    lemma_image_shows_pixels(v, mem, image, width, height, r, c);
    let o = 4 * (width * r + c);
    assert(0 <= o) by (nonlinear_arith)
        requires
            o == 4 * (width * r + c),
            width >= 0,
            r >= 0,
            c >= 0,
    ;
    lemma_image_color_digits(image, o);
}

/// When the firmware grants the set-up request for `c` unchanged, the console
/// built from its reply shows the mode asked for: the physical size is the
/// configured resolution, the virtual screen is as wide and
/// `virtual_vertical_multiplier` screens high, the virtual offset is at the
/// origin, the bit depth is the configured colour depth and the pixel order is
/// BGR (code 0).
pub proof fn lemma_granted_request_gives_mode(c: HDMIConfig, font: CP850FontView)
    requires
        c.vertical_resolution * c.virtual_vertical_multiplier <= u32::MAX,
    ensures
        ({
            let v = frame_from_reply(framebuffer_request(c), font);
            &&& v.physical_width == c.horizontal_resolution
            &&& v.physical_height == c.vertical_resolution
            &&& v.virtual_width == c.horizontal_resolution
            &&& v.virtual_height == c.vertical_resolution * c.virtual_vertical_multiplier
            &&& v.virtual_offset_x == 0
            &&& v.virtual_offset_y == 0
            &&& v.bit_depth == c.color_depth
            &&& v.pixel_order == PixelOrder::BGR
        }),
{
    let r = framebuffer_request(c);
    assert(r.tags.len() == 36);
    assert(r.tags[22] == 0);
    lemma_console_reads_reply(r, font);
}

/// A carriage return moves the cursor to the first column of its line and clears
/// the cell it was on, and that cell's alternate, to the background colour (on a
/// 32-bit framebuffer with the cursor cells inside the memory); it asks for no
/// scroll.
pub proof fn lemma_carriage_return_clears_cell(v: FrameView, mem: Seq<u8>, line: int, px: int)
    requires
        v.wf(),
        v.virtual_height >= 32,
        v.bit_depth == 32,
        v.pitch >= 32,
        v.cell_origin() + 15 * v.pitch + 32 <= mem.len(),
        v.alt_cell_origin() + 15 * v.pitch + 32 <= mem.len(),
        0 <= line < 16,
        0 <= px < 8,
    ensures
        v.after_byte(CR).cursor_x == 0,
        v.after_byte(CR).cursor_y == v.cursor_y,
        v.byte_scroll(CR) is None,
        word_at(v.byte_mem(mem, CR), v.cell_word(line, px)) == v.bg_raw(),
        word_at(v.byte_mem(mem, CR), v.alt_cell_word(line, px)) == v.bg_raw(),
{
    lemma_cell_shows_glyph(v, mem, blank_glyph(), line, px);
    lemma_blank_pixel(px, v.fg_raw(), v.bg_raw());
    assert(v.step() == 4);
}

} // verus!
