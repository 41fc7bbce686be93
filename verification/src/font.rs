use vstd::prelude::*;

verus! {

use crate::color::pack_bytes;

/// Carriage return: back to the start of the line.
pub const CR: u8 = 13;

/// Line feed: down one line.
pub const LF: u8 = 10;

/// Bell.
pub const BELL: u8 = 7;

/// Backspace.
pub const BACK: u8 = 8;

/// Delete.
pub const DEL: u8 = 127;

/// Bytes of one glyph in the code page 850 font: one byte per line, sixteen lines.
pub const BYTES_PER_CHAR: usize = 16;

/// The code page 850 bitmap font: glyphs of 8 x 16 pixels, one byte per line,
/// most significant bit leftmost.
pub struct CP850Font {
    char_count: usize,
    char_size: usize,
    char_height: usize,
    char_width: usize,
    data: Vec<u8>,
}

pub struct CP850FontView {
    pub char_count: usize,
    pub char_size: usize,
    pub char_height: usize,
    pub char_width: usize,
    pub data: Seq<u8>,
}

impl View for CP850Font {
    type V = CP850FontView;

    closed spec fn view(&self) -> CP850FontView {
        CP850FontView {
            char_count: self.char_count,
            char_size: self.char_size,
            char_height: self.char_height,
            char_width: self.char_width,
            data: self.data@,
        }
    }
}

impl CP850FontView {
    /// The glyph drawn for a byte: itself when the font has it, glyph 0 otherwise.
    pub open spec fn glyph_index(self, ch_byte: u8) -> int {
        if (ch_byte as int) < self.char_count {
            ch_byte as int
        } else {
            0
        }
    }

    /// Line `line` of the glyph drawn for `ch_byte`.
    pub open spec fn glyph_byte(self, ch_byte: u8, line: int) -> u8 {
        self.data[self.glyph_index(ch_byte) * self.char_size + line]
    }

    /// A standard font with at least one glyph holds every line of every glyph
    /// it draws.
    pub proof fn lemma_glyph_in_data(self, ch_byte: u8, line: int)
        requires
            self.is_standard(),
            self.char_count > 0,
            0 <= line < 16,
        ensures
            self.glyph_index(ch_byte) * self.char_size + line < self.data.len(),
    {
        let i = self.glyph_index(ch_byte);
        assert(i * 16 + line < self.data.len()) by (nonlinear_arith)
            requires
                0 <= i < self.char_count,
                self.char_count == self.data.len() / 16,
                0 <= line < 16,
        ;
    }

    /// The shape that `new` gives a font: the fixed glyph size, and the glyph
    /// count that the data holds.
    pub open spec fn is_standard(self) -> bool {
        &&& self.char_size == 16
        &&& self.char_height == 16
        &&& self.char_width == 8
        &&& self.char_count == self.data.len() / 16
    }
}

impl CP850Font {
    /// The font whose glyphs are `font_data`, sixteen bytes each; a partial glyph
    /// at the end is not counted.
    pub fn new(font_data: Vec<u8>) -> (f: CP850Font)
        ensures
            f@.data == font_data@,
            f@.is_standard(),
    {
        let char_count = font_data.len() / BYTES_PER_CHAR;
        CP850Font {
            char_count,
            char_size: BYTES_PER_CHAR,
            char_height: 16,
            char_width: 8,
            data: font_data,
        }
    }

    /// Line `line` of the glyph for `ch_byte`; bytes past the end of the font
    /// are drawn with glyph 0. The byte read must lie inside the font data.
    pub fn get_byte(&self, ch_byte: u8, line: usize) -> (b: u8)
        requires
            self@.glyph_index(ch_byte) * self@.char_size + line < self@.data.len(),
        ensures
            b == self@.glyph_byte(ch_byte, line as int),
    {
        let char_index: usize = if (ch_byte as usize) < self.char_count {
            ch_byte as usize
        } else {
            0
        };
        let data_len = self.data.len();
        assert(0 <= char_index * self.char_size) by (nonlinear_arith)
            requires
                0 <= char_index,
                0 <= self.char_size,
        ;
        assert(char_index * self.char_size + line < data_len);
        self.data[(char_index * self.char_size) + line]
    }

    /// The number of glyphs.
    pub fn len(&self) -> (n: usize)
        ensures
            n == self@.char_count,
    {
        self.char_count
    }

    /// Bytes of one glyph.
    pub fn char_size(&self) -> (n: usize)
        ensures
            n == self@.char_size,
    {
        self.char_size
    }

    /// Pixel rows of one glyph.
    pub fn char_height(&self) -> (n: usize)
        ensures
            n == self@.char_height,
    {
        self.char_height
    }

    /// Pixel columns of one glyph.
    pub fn char_width(&self) -> (n: usize)
        ensures
            n == self@.char_width,
    {
        self.char_width
    }
}

/// The little-endian word at `offset` of `bytes`.
pub open spec fn le_word(bytes: Seq<u8>, offset: int) -> u32 {
    pack_bytes(bytes[offset], bytes[offset + 1], bytes[offset + 2], bytes[offset + 3])
}

/// The magic number that opens a PC Screen Font version 2 file.
pub const PSF2_MAGIC: u32 = 0x864A_B572;

/// Whether `raw` is long enough for a PC Screen Font 2 header and starts with its
/// magic number.
pub open spec fn spec_is_psf2(raw: Seq<u8>) -> bool {
    raw.len() >= 32 && le_word(raw, 0) == PSF2_MAGIC
}

fn read_le_word(raw: &Vec<u8>, offset: usize) -> (w: u32)
    requires
        offset + 4 <= raw@.len(),
    ensures
        w == le_word(raw@, offset as int),
{
    let len = raw.len();
    assert(offset + 3 < len);
    let b0 = raw[offset] as u32;
    let b1 = raw[offset + 1] as u32;
    let b2 = raw[offset + 2] as u32;
    let b3 = raw[offset + 3] as u32;
    b0 | (b1 << 8) | (b2 << 16) | (b3 << 24)
}

/// A PC Screen Font version 2 bitmap font: a header of eight little-endian words
/// (magic, version, header size, flags, glyph count, bytes per glyph, height,
/// width) followed by the glyphs, each line padded to whole bytes.
pub struct Font {
    header_size: usize,
    char_count: usize,
    char_size: usize,
    char_height: usize,
    char_width: usize,
    data: Vec<u8>,
}

pub struct FontView {
    pub header_size: usize,
    pub char_count: usize,
    pub char_size: usize,
    pub char_height: usize,
    pub char_width: usize,
    pub data: Seq<u8>,
}

impl View for Font {
    type V = FontView;

    closed spec fn view(&self) -> FontView {
        FontView {
            header_size: self.header_size,
            char_count: self.char_count,
            char_size: self.char_size,
            char_height: self.char_height,
            char_width: self.char_width,
            data: self.data@,
        }
    }
}

impl FontView {
    /// Bytes in one line of a glyph.
    pub open spec fn bytes_per_line(self) -> int {
        (self.char_width + 7) / 8
    }

    /// The glyph drawn for a byte: itself when the font has it, glyph 63 (`?`)
    /// otherwise.
    pub open spec fn glyph_index(self, ch_byte: u8) -> int {
        if (ch_byte as int) < self.char_count {
            ch_byte as int
        } else {
            63
        }
    }

    /// Where in the font file line `line` of the glyph for `ch_byte` starts.
    pub open spec fn byte_offset(self, ch_byte: u8, line: int) -> int {
        self.header_size + self.glyph_index(ch_byte) * self.char_size + line
            * self.bytes_per_line()
    }
}

impl Font {
    /// Whether `raw` holds a PC Screen Font 2 header.
    pub fn is_psf2(raw: &Vec<u8>) -> (b: bool)
        ensures
            b == spec_is_psf2(raw@),
    {
        raw.len() >= 32 && read_le_word(raw, 0) == PSF2_MAGIC
    }

    /// The font held in the PC Screen Font 2 file `raw_font`.
    pub fn new(raw_font: Vec<u8>) -> (f: Font)
        requires
            spec_is_psf2(raw_font@),
        ensures
            f@.data == raw_font@,
            f@.header_size == le_word(raw_font@, 8),
            f@.char_count == le_word(raw_font@, 16),
            f@.char_size == le_word(raw_font@, 20),
            f@.char_height == le_word(raw_font@, 24),
            f@.char_width == le_word(raw_font@, 28),
    {
        let header_size = read_le_word(&raw_font, 8) as usize;
        let char_count = read_le_word(&raw_font, 16) as usize;
        let char_size = read_le_word(&raw_font, 20) as usize;
        let char_height = read_le_word(&raw_font, 24) as usize;
        let char_width = read_le_word(&raw_font, 28) as usize;
        Font { header_size, char_count, char_size, char_height, char_width, data: raw_font }
    }

    /// Line `line` of the glyph for `ch_byte`; bytes past the end of the font are
    /// drawn with glyph 63.
    pub fn get_byte(&self, ch_byte: u8, line: usize) -> (b: u8)
        requires
            self@.byte_offset(ch_byte, line as int) < self@.data.len(),
        ensures
            b == self@.data[self@.byte_offset(ch_byte, line as int)],
    {
        let char_index: usize = if (ch_byte as usize) < self.char_count {
            ch_byte as usize
        } else {
            63
        };
        let per_line = self.bytes_per_line();
        let file_len = self.data.len();
        proof {
            let v = self@;
            let a = char_index * v.char_size;
            let b = line * per_line;
            assert(v.glyph_index(ch_byte) == char_index);
            assert(v.byte_offset(ch_byte, line as int) == v.header_size + a + b);
            assert(v.header_size + a + b < file_len);
            assert(0 <= a) by (nonlinear_arith)
                requires
                    a == char_index * v.char_size,
            ;
            assert(0 <= b) by (nonlinear_arith)
                requires
                    b == line * per_line,
            ;
        }
        self.data[self.header_size + (char_index * self.char_size) + (line * per_line)]
    }

    /// The number of glyphs.
    pub fn len(&self) -> (n: usize)
        ensures
            n == self@.char_count,
    {
        self.char_count
    }

    /// Bytes of one glyph.
    pub fn char_size(&self) -> (n: usize)
        ensures
            n == self@.char_size,
    {
        self.char_size
    }

    /// Pixel rows of one glyph.
    pub fn char_height(&self) -> (n: usize)
        ensures
            n == self@.char_height,
    {
        self.char_height
    }

    /// Pixel columns of one glyph.
    pub fn char_width(&self) -> (n: usize)
        ensures
            n == self@.char_width,
    {
        self.char_width
    }

    /// Bytes in one line of a glyph: the width rounded up to whole bytes.
    pub fn bytes_per_line(&self) -> (n: usize)
        ensures
            n == self@.bytes_per_line(),
    {
        let w = self.char_width;
        if w % 8 == 0 {
            w / 8
        } else {
            w / 8 + 1
        }
    }
}

} // verus!
