use vstd::prelude::*;

verus! {

use crate::mailbox::PixelOrder;
use vstd::std_specs::convert::FromSpec;

/// The `k`-th byte (`k < 4`, least significant first) of a 32-bit word: the byte
/// that lands at address `base + k` when the word is stored little-endian.
pub open spec fn word_byte(v: u32, k: u32) -> u8 {
    ((v >> (8 * k)) & 0xff) as u8
}

/// The little-endian word whose bytes, from the lowest address up, are `b0 .. b3`.
pub open spec fn pack_bytes(b0: u8, b1: u8, b2: u8, b3: u8) -> u32 {
    (b0 as u32) | ((b1 as u32) << 8) | ((b2 as u32) << 16) | ((b3 as u32) << 24)
}

/// The memory word of a colour in the given component order.
pub open spec fn raw_of(order: PixelOrder, c: PixelColor) -> u32 {
    match order {
        PixelOrder::RBG => pack_bytes(c.red, c.green, c.blue, c.alpha),
        PixelOrder::BGR => pack_bytes(c.blue, c.green, c.red, c.alpha),
    }
}

/// Each byte of a packed word is the byte that was packed at that position.
pub proof fn lemma_pack_bytes(b0: u8, b1: u8, b2: u8, b3: u8)
    ensures
        word_byte(pack_bytes(b0, b1, b2, b3), 0) == b0,
        word_byte(pack_bytes(b0, b1, b2, b3), 1) == b1,
        word_byte(pack_bytes(b0, b1, b2, b3), 2) == b2,
        word_byte(pack_bytes(b0, b1, b2, b3), 3) == b3,
{
    let w = pack_bytes(b0, b1, b2, b3);
    assert(((w >> 0u32) & 0xff) as u8 == b0 && ((w >> 8u32) & 0xff) as u8 == b1 && ((w >> 16u32)
        & 0xff) as u8 == b2 && ((w >> 24u32) & 0xff) as u8 == b3) by (bit_vector)
        requires
            w == (b0 as u32) | ((b1 as u32) << 8) | ((b2 as u32) << 16) | ((b3 as u32) << 24),
    ;
}

/// Packing the four bytes of a word gives the word back.
pub proof fn lemma_unpack_pack(v: u32)
    ensures
        pack_bytes(word_byte(v, 0), word_byte(v, 1), word_byte(v, 2), word_byte(v, 3)) == v,
{
    assert((((v >> 0u32) & 0xff) as u8 as u32) | ((((v >> 8u32) & 0xff) as u8 as u32) << 8) | ((((v
        >> 16u32) & 0xff) as u8 as u32) << 16) | ((((v >> 24u32) & 0xff) as u8 as u32) << 24) == v)
        by (bit_vector);
}

fn pack(b0: u8, b1: u8, b2: u8, b3: u8) -> (w: u32)
    ensures
        w == pack_bytes(b0, b1, b2, b3),
{
    (b0 as u32) | ((b1 as u32) << 8) | ((b2 as u32) << 16) | ((b3 as u32) << 24)
}

fn byte(v: u32, k: u32) -> (b: u8)
    requires
        k < 4,
    ensures
        b == word_byte(v, k),
{
    let s: u32 = 8 * k;
    let m: u32 = (v >> s) & 0xff;
    assert(m < 256) by (bit_vector)
        requires
            m == (v >> s) & 0xff,
    ;
    m as u8
}

/// The eight text colours of the console palette.
#[derive(Copy, Clone, PartialEq, Eq, Debug, Structural)]
pub enum Color {
    White,
    Yellow,
    Magenta,
    Red,
    Cyan,
    Green,
    Blue,
    Black,
}

pub open spec fn color_code(c: Color) -> u8 {
    match c {
        Color::White => 7,
        Color::Yellow => 6,
        Color::Magenta => 5,
        Color::Red => 4,
        Color::Cyan => 3,
        Color::Green => 2,
        Color::Blue => 1,
        Color::Black => 0,
    }
}

impl Color {
    /// The palette index of the colour.
    pub fn code(&self) -> (n: u8)
        ensures
            n == color_code(*self),
    {
        match self {
            Color::White => 7,
            Color::Yellow => 6,
            Color::Magenta => 5,
            Color::Red => 4,
            Color::Cyan => 3,
            Color::Green => 2,
            Color::Blue => 1,
            Color::Black => 0,
        }
    }
}

/// A colour as red, green, blue and alpha components.
pub struct PixelColor {
    pub blue: u8,
    pub green: u8,
    pub red: u8,
    pub alpha: u8,
}

/// A pixel laid out in memory as red, green, blue, alpha.
#[derive(Copy, Clone, PartialEq, Eq, Debug, Structural)]
pub struct RGBPixel {
    pub red: u8,
    pub green: u8,
    pub blue: u8,
    pub alpha: u8,
}

/// A pixel laid out in memory as blue, green, red, alpha.
#[derive(Copy, Clone, PartialEq, Eq, Debug, Structural)]
pub struct BGRPixel {
    pub blue: u8,
    pub green: u8,
    pub red: u8,
    pub alpha: u8,
}

/// A pixel as the 32-bit word that is stored into framebuffer memory.
#[derive(Copy, Clone, PartialEq, Eq, Debug, Structural)]
pub struct RawPixel(pub u32);

impl RGBPixel {
    /// The memory word of this pixel: red at the lowest address.
    pub open spec fn spec_raw(self) -> u32 {
        pack_bytes(self.red, self.green, self.blue, self.alpha)
    }

    pub fn raw(&self) -> (r: RawPixel)
        ensures
            r.0 == self.spec_raw(),
    {
        RawPixel(pack(self.red, self.green, self.blue, self.alpha))
    }
}

impl BGRPixel {
    /// The memory word of this pixel: blue at the lowest address.
    pub open spec fn spec_raw(self) -> u32 {
        pack_bytes(self.blue, self.green, self.red, self.alpha)
    }

    pub fn raw(&self) -> (r: RawPixel)
        ensures
            r.0 == self.spec_raw(),
    {
        RawPixel(pack(self.blue, self.green, self.red, self.alpha))
    }
}

impl<'a> From<&'a PixelColor> for RGBPixel {
    fn from(color: &'a PixelColor) -> (p: Self) {
        RGBPixel { red: color.red, green: color.green, blue: color.blue, alpha: color.alpha }
    }
}

impl<'a> vstd::std_specs::convert::FromSpecImpl<&'a PixelColor> for RGBPixel {
    open spec fn obeys_from_spec() -> bool {
        true
    }

    open spec fn from_spec(color: &'a PixelColor) -> Self {
        RGBPixel { red: color.red, green: color.green, blue: color.blue, alpha: color.alpha }
    }
}

impl<'a> From<&'a PixelColor> for BGRPixel {
    fn from(color: &'a PixelColor) -> (p: Self) {
        BGRPixel { red: color.red, green: color.green, blue: color.blue, alpha: color.alpha }
    }
}

impl<'a> vstd::std_specs::convert::FromSpecImpl<&'a PixelColor> for BGRPixel {
    open spec fn obeys_from_spec() -> bool {
        true
    }

    open spec fn from_spec(color: &'a PixelColor) -> Self {
        BGRPixel { red: color.red, green: color.green, blue: color.blue, alpha: color.alpha }
    }
}

/// The colour whose memory image, lowest address first, is the bytes of `value`
/// stored little-endian: blue, green, red, alpha.
pub open spec fn spec_color_from_word(value: u32) -> PixelColor {
    PixelColor {
        blue: word_byte(value, 0),
        green: word_byte(value, 1),
        red: word_byte(value, 2),
        alpha: word_byte(value, 3),
    }
}

impl From<u32> for PixelColor {
    fn from(value: u32) -> (c: Self) {
        PixelColor {
            blue: byte(value, 0),
            green: byte(value, 1),
            red: byte(value, 2),
            alpha: byte(value, 3),
        }
    }
}

impl vstd::std_specs::convert::FromSpecImpl<u32> for PixelColor {
    open spec fn obeys_from_spec() -> bool {
        true
    }

    open spec fn from_spec(value: u32) -> Self {
        spec_color_from_word(value)
    }
}

impl PixelColor {
    /// An opaque colour from its three components.
    pub fn new(red: u8, green: u8, blue: u8) -> (c: PixelColor)
        ensures
            c.red == red,
            c.green == green,
            c.blue == blue,
            c.alpha == 0,
    {
        PixelColor { red, green, blue, alpha: 0 }
    }

    pub fn white() -> (c: PixelColor)
        ensures
            c.red == 203 && c.green == 203 && c.blue == 203 && c.alpha == 0,
    {
        PixelColor { red: 203, green: 203, blue: 203, alpha: 0 }
    }

    pub fn grey() -> (c: PixelColor)
        ensures
            c.red == 127 && c.green == 127 && c.blue == 127 && c.alpha == 0,
    {
        PixelColor { red: 127, green: 127, blue: 127, alpha: 0 }
    }

    pub fn red() -> (c: PixelColor)
        ensures
            c.red == 191 && c.green == 47 && c.blue == 31 && c.alpha == 0,
    {
        PixelColor { red: 191, green: 47, blue: 31, alpha: 0 }
    }

    pub fn green() -> (c: PixelColor)
        ensures
            c.red == 31 && c.green == 191 && c.blue == 31 && c.alpha == 0,
    {
        PixelColor { red: 31, green: 191, blue: 31, alpha: 0 }
    }

    pub fn blue() -> (c: PixelColor)
        ensures
            c.red == 71 && c.green == 49 && c.blue == 223 && c.alpha == 0,
    {
        PixelColor { red: 71, green: 49, blue: 223, alpha: 0 }
    }

    pub fn yellow() -> (c: PixelColor)
        ensures
            c.red == 167 && c.green == 167 && c.blue == 39 && c.alpha == 0,
    {
        PixelColor { red: 167, green: 167, blue: 39, alpha: 0 }
    }

    pub fn cyan() -> (c: PixelColor)
        ensures
            c.red == 47 && c.green == 191 && c.blue == 199 && c.alpha == 0,
    {
        PixelColor { red: 47, green: 191, blue: 199, alpha: 0 }
    }

    pub fn magenta() -> (c: PixelColor)
        ensures
            c.red == 211 && c.green == 55 && c.blue == 211 && c.alpha == 0,
    {
        PixelColor { red: 211, green: 55, blue: 211, alpha: 0 }
    }

    pub fn b_white() -> (c: PixelColor)
        ensures
            c.red == 255 && c.green == 255 && c.blue == 255 && c.alpha == 0,
    {
        PixelColor { red: 255, green: 255, blue: 255, alpha: 0 }
    }

    pub fn black() -> (c: PixelColor)
        ensures
            c.red == 0 && c.green == 0 && c.blue == 0 && c.alpha == 0,
    {
        PixelColor { red: 0, green: 0, blue: 0, alpha: 0 }
    }

    pub fn b_red() -> (c: PixelColor)
        ensures
            c.red == 255 && c.green == 0 && c.blue == 0 && c.alpha == 0,
    {
        PixelColor { red: 255, green: 0, blue: 0, alpha: 0 }
    }

    pub fn b_green() -> (c: PixelColor)
        ensures
            c.red == 0 && c.green == 255 && c.blue == 0 && c.alpha == 0,
    {
        PixelColor { red: 0, green: 255, blue: 0, alpha: 0 }
    }

    pub fn b_blue() -> (c: PixelColor)
        ensures
            c.red == 0 && c.green == 0 && c.blue == 255 && c.alpha == 0,
    {
        PixelColor { red: 0, green: 0, blue: 255, alpha: 0 }
    }

    pub fn b_yellow() -> (c: PixelColor)
        ensures
            c.red == 255 && c.green == 255 && c.blue == 0 && c.alpha == 0,
    {
        PixelColor { red: 255, green: 255, blue: 0, alpha: 0 }
    }

    pub fn b_cyan() -> (c: PixelColor)
        ensures
            c.red == 0 && c.green == 255 && c.blue == 255 && c.alpha == 0,
    {
        PixelColor { red: 0, green: 255, blue: 255, alpha: 0 }
    }

    pub fn b_magenta() -> (c: PixelColor)
        ensures
            c.red == 255 && c.green == 0 && c.blue == 255 && c.alpha == 0,
    {
        PixelColor { red: 255, green: 0, blue: 255, alpha: 0 }
    }

    /// Reads the colour out of a 24-bit `0xRRGGBB` value; the top byte is ignored.
    pub fn from_hex(hex: u32) -> (c: PixelColor)
        ensures
            c.red == (hex >> 16) & 0xff,
            c.green == (hex >> 8) & 0xff,
            c.blue == hex & 0xff,
            c.alpha == 0,
    {
        let red = byte(hex, 2);
        let green = byte(hex, 1);
        let blue = byte(hex, 0);
        proof {
            assert(((hex >> 16u32) & 0xff) as u8 as u32 == (hex >> 16) & 0xff && ((hex >> 8u32)
                & 0xff) as u8 as u32 == (hex >> 8) & 0xff && ((hex >> 0u32) & 0xff) as u8 as u32
                == hex & 0xff) by (bit_vector);
        }
        PixelColor { blue, green, red, alpha: 0 }
    }
}

/// Storing a word as a colour and packing that colour back in blue-green-red
/// order gives the word back.
pub proof fn lemma_bgr_inverts_from_word(value: u32)
    ensures
        BGRPixel::from_spec(&spec_color_from_word(value)).spec_raw() == value,
{
    lemma_unpack_pack(value);
}

/// `from_hex` is the word conversion with the alpha byte cleared.
pub proof fn lemma_from_hex_is_masked_word(hex: u32, c: PixelColor)
    requires
        c.red == (hex >> 16) & 0xff,
        c.green == (hex >> 8) & 0xff,
        c.blue == hex & 0xff,
        c.alpha == 0,
    ensures
        c == spec_color_from_word(hex & 0x00ff_ffff),
{
    let m = hex & 0x00ff_ffff;
    assert(((m >> 0u32) & 0xff) as u8 as u32 == hex & 0xff && ((m >> 8u32) & 0xff) as u8 as u32
        == (hex >> 8) & 0xff && ((m >> 16u32) & 0xff) as u8 as u32 == (hex >> 16) & 0xff && ((m
        >> 24u32) & 0xff) as u8 == 0) by (bit_vector)
        requires
            m == hex & 0x00ff_ffff,
    ;
}

} // verus!
