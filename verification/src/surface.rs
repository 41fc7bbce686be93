use vstd::prelude::*;

verus! {

use crate::color::{pack_bytes, raw_of, word_byte, PixelColor};
use crate::mailbox::PixelOrder;

/// The bytes of `mem` after storing `value` little-endian at byte `offset`. A
/// store that would not lie wholly inside `mem` leaves it unchanged.
pub open spec fn store_word(mem: Seq<u8>, offset: int, value: u32) -> Seq<u8> {
    if 0 <= offset && offset + 4 <= mem.len() {
        mem.update(offset, word_byte(value, 0)).update(offset + 1, word_byte(value, 1)).update(
            offset + 2,
            word_byte(value, 2),
        ).update(offset + 3, word_byte(value, 3))
    } else {
        mem
    }
}

/// Stores `value` little-endian at byte `offset` of `mem`, when it fits.
pub fn put_word(mem: &mut [u8], offset: usize, value: u32)
    ensures
        final(mem)@ == store_word(old(mem)@, offset as int, value),
{
    let len = mem.len();
    if offset <= len && len - offset >= 4 {
        let v0: u32 = value & 0xff;
        let v1: u32 = (value >> 8u32) & 0xff;
        let v2: u32 = (value >> 16u32) & 0xff;
        let v3: u32 = (value >> 24u32) & 0xff;
        proof {
            assert(v0 < 256 && v1 < 256 && v2 < 256 && v3 < 256) by (bit_vector)
                requires
                    v0 == value & 0xff,
                    v1 == (value >> 8u32) & 0xff,
                    v2 == (value >> 16u32) & 0xff,
                    v3 == (value >> 24u32) & 0xff,
            ;
            assert(v0 == (value >> 0u32) & 0xff) by (bit_vector)
                requires
                    v0 == value & 0xff,
            ;
        }
        mem[offset] = v0 as u8;
        mem[offset + 1] = v1 as u8;
        mem[offset + 2] = v2 as u8;
        mem[offset + 3] = v3 as u8;
    }
}

/// Four words of `value` from byte `addr` on: the store of one 16-byte block.
pub open spec fn store_block(mem: Seq<u8>, addr: int, value: u32) -> Seq<u8> {
    store_word(
        store_word(store_word(store_word(mem, addr, value), addr + 4, value), addr + 8, value),
        addr + 12,
        value,
    )
}

/// Blocks of `value` stored from `addr` on, one every 16 bytes, for every block
/// start below `end`.
pub open spec fn fill_blocks(mem: Seq<u8>, addr: int, end: int, value: u32) -> Seq<u8>
    decreases end - addr,
{
    if addr >= end {
        mem
    } else if addr + 16 >= end {
        store_block(mem, addr, value)
    } else {
        fill_blocks(store_block(mem, addr, value), addr + 16, end, value)
    }
}

/// `count` rows filled with `value`, the first starting at `start`, each `width`
/// bytes wide (rounded up to whole blocks) and `pitch` bytes after the one before.
pub open spec fn fill_rows(
    mem: Seq<u8>,
    start: int,
    width: int,
    pitch: int,
    count: nat,
    value: u32,
) -> Seq<u8>
    decreases count,
{
    if count == 0 {
        mem
    } else {
        fill_rows(
            fill_blocks(mem, start, start + width, value),
            start + pitch,
            width,
            pitch,
            (count - 1) as nat,
            value,
        )
    }
}

/// Whether pixel `px` (0 leftmost) of a glyph line is set: bit `7 - px`.
pub open spec fn glyph_bit(bits: u8, px: int) -> bool {
    bits & (1u8 << ((7 - px) as u8)) != 0
}

/// The word drawn for pixel `px` of a glyph line.
pub open spec fn glyph_pixel(bits: u8, px: int, fg: u32, bg: u32) -> u32 {
    if glyph_bit(bits, px) {
        fg
    } else {
        bg
    }
}

/// Pixel `px` (0 leftmost) of a glyph line is drawn in the foreground exactly
/// when the line's byte, read as a binary number, has a one in the digit worth
/// `2^(7 - px)`, and in the background otherwise: the most significant bit is the
/// leftmost pixel.
pub proof fn lemma_glyph_pixel_msb_first(bits: u8, px: int, fg: u32, bg: u32)
    requires
        0 <= px < 8,
    ensures
        glyph_pixel(bits, px, fg, bg) == if (bits as int / vstd::arithmetic::power2::pow2((7 - px) as nat) as int) % 2 == 1 {
            fg
        } else {
            bg
        },
{
    vstd::arithmetic::power2::lemma2_to64();
    if px == 0 {
        assert(glyph_bit(bits, 0) == (bits & (1u8 << 7u8) != 0));
        assert((bits & (1u8 << 7u8) != 0) == ((bits / 128u8) % 2 == 1)) by (bit_vector);
    } else if px == 1 {
        assert(glyph_bit(bits, 1) == (bits & (1u8 << 6u8) != 0));
        assert((bits & (1u8 << 6u8) != 0) == ((bits / 64u8) % 2 == 1)) by (bit_vector);
    } else if px == 2 {
        assert(glyph_bit(bits, 2) == (bits & (1u8 << 5u8) != 0));
        assert((bits & (1u8 << 5u8) != 0) == ((bits / 32u8) % 2 == 1)) by (bit_vector);
    } else if px == 3 {
        assert(glyph_bit(bits, 3) == (bits & (1u8 << 4u8) != 0));
        assert((bits & (1u8 << 4u8) != 0) == ((bits / 16u8) % 2 == 1)) by (bit_vector);
    } else if px == 4 {
        assert(glyph_bit(bits, 4) == (bits & (1u8 << 3u8) != 0));
        assert((bits & (1u8 << 3u8) != 0) == ((bits / 8u8) % 2 == 1)) by (bit_vector);
    } else if px == 5 {
        assert(glyph_bit(bits, 5) == (bits & (1u8 << 2u8) != 0));
        assert((bits & (1u8 << 2u8) != 0) == ((bits / 4u8) % 2 == 1)) by (bit_vector);
    } else if px == 6 {
        assert(glyph_bit(bits, 6) == (bits & (1u8 << 1u8) != 0));
        assert((bits & (1u8 << 1u8) != 0) == ((bits / 2u8) % 2 == 1)) by (bit_vector);
    } else {
        assert(glyph_bit(bits, 7) == (bits & (1u8 << 0u8) != 0));
        assert((bits & (1u8 << 0u8) != 0) == ((bits / 1u8) % 2 == 1)) by (bit_vector);
    }
}

/// One line of a glyph, pixels `px` to 7, drawn at `row` and again at `alt`,
/// `step` bytes per pixel; each pixel is stored first at `row`, then at `alt`.
pub open spec fn glyph_line(
    mem: Seq<u8>,
    row: int,
    alt: int,
    step: int,
    bits: u8,
    px: int,
    fg: u32,
    bg: u32,
) -> Seq<u8>
    decreases 8 - px,
{
    if px >= 8 {
        mem
    } else {
        let p = glyph_pixel(bits, px, fg, bg);
        glyph_line(
            store_word(store_word(mem, row, p), alt, p),
            row + step,
            alt + step,
            step,
            bits,
            px + 1,
            fg,
            bg,
        )
    }
}

/// Lines `line` to 15 of a glyph drawn at `row` and at `alt`, one `pitch` apart.
pub open spec fn glyph_lines(
    mem: Seq<u8>,
    row: int,
    alt: int,
    pitch: int,
    step: int,
    glyph: Seq<u8>,
    line: int,
    fg: u32,
    bg: u32,
) -> Seq<u8>
    decreases 16 - line,
{
    if line >= 16 {
        mem
    } else {
        glyph_lines(
            glyph_line(mem, row, alt, step, glyph[line], 0, fg, bg),
            row + pitch,
            alt + pitch,
            pitch,
            step,
            glyph,
            line + 1,
            fg,
            bg,
        )
    }
}

pub(crate) proof fn lemma_mul_step(a: int, b: int)
    ensures
        (a + 1) * b == a * b + b,
{
    assert((a + 1) * b == a * b + b) by (nonlinear_arith);
}

pub(crate) proof fn lemma_mul_le(a: int, b: int, c: int)
    requires
        0 <= a <= b,
        0 <= c,
    ensures
        0 <= a * c <= b * c,
{
    assert(0 <= a * c <= b * c) by (nonlinear_arith)
        requires
            0 <= a <= b,
            0 <= c,
    ;
}

/// The little-endian word at byte `offset` of `mem`.
pub open spec fn word_at(mem: Seq<u8>, offset: int) -> u32 {
    pack_bytes(mem[offset], mem[offset + 1], mem[offset + 2], mem[offset + 3])
}

proof fn lemma_store_word_byte(mem: Seq<u8>, o: int, w: u32, i: int)
    requires
        0 <= i < mem.len(),
    ensures
        store_word(mem, o, w).len() == mem.len(),
        store_word(mem, o, w)[i] == if 0 <= o && o + 4 <= mem.len() && o <= i < o + 4 {
            word_byte(w, (i - o) as u32)
        } else {
            mem[i]
        },
{
}

/// What `glyph_line` leaves at byte `i`, when each stored pixel lies inside
/// `mem` and the row and the alternate row are apart.
proof fn lemma_glyph_line_byte(
    mem: Seq<u8>,
    row: int,
    alt: int,
    bits: u8,
    px: int,
    fg: u32,
    bg: u32,
    i: int,
)
    requires
        0 <= px <= 8,
        0 <= row,
        0 <= alt,
        row + 4 * (8 - px) <= mem.len(),
        alt + 4 * (8 - px) <= mem.len(),
        row + 4 * (8 - px) <= alt || alt + 4 * (8 - px) <= row,
        0 <= i < mem.len(),
    ensures
        glyph_line(mem, row, alt, 4, bits, px, fg, bg).len() == mem.len(),
        glyph_line(mem, row, alt, 4, bits, px, fg, bg)[i] == if row <= i < row + 4 * (8 - px) {
            word_byte(glyph_pixel(bits, px + (i - row) / 4, fg, bg), ((i - row) % 4) as u32)
        } else if alt <= i < alt + 4 * (8 - px) {
            word_byte(glyph_pixel(bits, px + (i - alt) / 4, fg, bg), ((i - alt) % 4) as u32)
        } else {
            mem[i]
        },
    decreases 8 - px,
{
    if px < 8 {
        let p = glyph_pixel(bits, px, fg, bg);
        let m0 = store_word(mem, row, p);
        let m1 = store_word(m0, alt, p);
        lemma_store_word_byte(mem, row, p, i);
        lemma_store_word_byte(m0, alt, p, i);
        assert forall|j: int| 0 <= j < mem.len() implies m1[j] == (if alt <= j < alt + 4 {
            word_byte(p, (j - alt) as u32)
        } else if row <= j < row + 4 {
            word_byte(p, (j - row) as u32)
        } else {
            mem[j]
        }) by {
            lemma_store_word_byte(mem, row, p, j);
            lemma_store_word_byte(m0, alt, p, j);
        }
        lemma_glyph_line_byte(m1, row + 4, alt + 4, bits, px + 1, fg, bg, i);
        if row + 4 <= i < row + 4 * (8 - px) {
            assert(px + 1 + (i - (row + 4)) / 4 == px + (i - row) / 4);
            assert((i - (row + 4)) % 4 == (i - row) % 4);
        }
        if alt + 4 <= i < alt + 4 * (8 - px) {
            assert(px + 1 + (i - (alt + 4)) / 4 == px + (i - alt) / 4);
            assert((i - (alt + 4)) % 4 == (i - alt) % 4);
        }
    }
}

/// The byte span of a glyph cell drawn from line `line` on: `16 - line` lines,
/// one `pitch` apart, the last one 32 bytes long.
pub open spec fn cell_span(line: int, pitch: int) -> int {
    if line < 16 {
        (15 - line) * pitch + 32
    } else {
        0
    }
}

/// Where `glyph_lines` may store, from line `line` on: two spans that lie inside
/// `mem` and apart from each other, with lines at least 32 bytes apart.
pub open spec fn cells_apart(len: int, row: int, alt: int, pitch: int, line: int) -> bool {
    &&& 0 <= line <= 16
    &&& pitch >= 32
    &&& 0 <= row
    &&& 0 <= alt
    &&& line < 16 ==> {
        &&& row + cell_span(line, pitch) <= len
        &&& alt + cell_span(line, pitch) <= len
        &&& (row + cell_span(line, pitch) <= alt || alt + cell_span(line, pitch) <= row)
    }
}

proof fn lemma_cell_span_step(line: int, pitch: int)
    requires
        0 <= line < 16,
        pitch >= 32,
    ensures
        line + 1 < 16 ==> cell_span(line, pitch) == cell_span(line + 1, pitch) + pitch,
        cell_span(line + 1, pitch) >= 0,
        cell_span(line, pitch) >= 32,
{
    lemma_mul_le(0, 15 - line, pitch);
    if line < 15 {
        lemma_mul_step(14 - line, pitch);
        lemma_mul_le(0, 14 - line, pitch);
    }
}

/// `glyph_lines` leaves every byte outside the two cell spans as it was.
pub proof fn lemma_glyph_lines_outside(
    mem: Seq<u8>,
    row: int,
    alt: int,
    pitch: int,
    glyph: Seq<u8>,
    line: int,
    fg: u32,
    bg: u32,
    i: int,
)
    requires
        cells_apart(mem.len() as int, row, alt, pitch, line),
        0 <= i < mem.len(),
        !(row <= i < row + cell_span(line, pitch)),
        !(alt <= i < alt + cell_span(line, pitch)),
    ensures
        glyph_lines(mem, row, alt, pitch, 4, glyph, line, fg, bg).len() == mem.len(),
        glyph_lines(mem, row, alt, pitch, 4, glyph, line, fg, bg)[i] == mem[i],
    decreases 16 - line,
{
    if line < 16 {
        lemma_cell_span_step(line, pitch);
        let m1 = glyph_line(mem, row, alt, 4, glyph[line], 0, fg, bg);
        lemma_glyph_line_byte(mem, row, alt, glyph[line], 0, fg, bg, i);
        lemma_glyph_lines_outside(m1, row + pitch, alt + pitch, pitch, glyph, line + 1, fg, bg, i);
    }
}

/// Byte `j` of pixel `k` of line `l` of a glyph drawn by `glyph_lines`, in the
/// cell and in the alternate cell, is that byte of the pixel's word.
proof fn lemma_glyph_lines_pixel(
    mem: Seq<u8>,
    row: int,
    alt: int,
    pitch: int,
    glyph: Seq<u8>,
    line: int,
    fg: u32,
    bg: u32,
    l: int,
    k: int,
    j: int,
)
    requires
        cells_apart(mem.len() as int, row, alt, pitch, line),
        line <= l < 16,
        0 <= k < 8,
        0 <= j < 4,
    ensures
        glyph_lines(mem, row, alt, pitch, 4, glyph, line, fg, bg)[row + (l - line) * pitch + 4 * k
            + j] == word_byte(glyph_pixel(glyph[l], k, fg, bg), j as u32),
        glyph_lines(mem, row, alt, pitch, 4, glyph, line, fg, bg)[alt + (l - line) * pitch + 4 * k
            + j] == word_byte(glyph_pixel(glyph[l], k, fg, bg), j as u32),
    decreases 16 - line,
{
    lemma_cell_span_step(line, pitch);
    let m1 = glyph_line(mem, row, alt, 4, glyph[line], 0, fg, bg);
    if l == line {
        let t = row + 4 * k + j;
        let u = alt + 4 * k + j;
        assert((4 * k + j) / 4 == k && (4 * k + j) % 4 == j);
        lemma_glyph_line_byte(mem, row, alt, glyph[line], 0, fg, bg, t);
        lemma_glyph_line_byte(mem, row, alt, glyph[line], 0, fg, bg, u);
        lemma_glyph_line_byte(mem, row, alt, glyph[line], 0, fg, bg, 0);
        lemma_glyph_lines_outside(m1, row + pitch, alt + pitch, pitch, glyph, line + 1, fg, bg, t);
        lemma_glyph_lines_outside(m1, row + pitch, alt + pitch, pitch, glyph, line + 1, fg, bg, u);
        let r = glyph_lines(mem, row, alt, pitch, 4, glyph, line, fg, bg);
        assert(r == glyph_lines(m1, row + pitch, alt + pitch, pitch, 4, glyph, line + 1, fg, bg));
        assert((l - line) * pitch == 0) by (nonlinear_arith)
            requires
                l == line,
        ;
        assert(m1[t] == word_byte(glyph_pixel(glyph[l], k, fg, bg), j as u32));
        assert(m1[u] == word_byte(glyph_pixel(glyph[l], k, fg, bg), j as u32));
    } else {
        lemma_glyph_line_byte(mem, row, alt, glyph[line], 0, fg, bg, 0);
        lemma_mul_step(l - line - 1, pitch);
        lemma_glyph_lines_pixel(m1, row + pitch, alt + pitch, pitch, glyph, line + 1, fg, bg, l, k, j);
    }
}

/// After `glyph_lines`, the word of pixel `k` of line `l`, in the cell and in the
/// alternate cell, is the glyph's pixel.
pub proof fn lemma_glyph_lines_words(
    mem: Seq<u8>,
    row: int,
    alt: int,
    pitch: int,
    glyph: Seq<u8>,
    fg: u32,
    bg: u32,
    l: int,
    k: int,
)
    requires
        cells_apart(mem.len() as int, row, alt, pitch, 0),
        0 <= l < 16,
        0 <= k < 8,
    ensures
        word_at(glyph_lines(mem, row, alt, pitch, 4, glyph, 0, fg, bg), row + l * pitch + 4 * k)
            == glyph_pixel(glyph[l], k, fg, bg),
        word_at(glyph_lines(mem, row, alt, pitch, 4, glyph, 0, fg, bg), alt + l * pitch + 4 * k)
            == glyph_pixel(glyph[l], k, fg, bg),
{
    let p = glyph_pixel(glyph[l], k, fg, bg);
    lemma_glyph_lines_pixel(mem, row, alt, pitch, glyph, 0, fg, bg, l, k, 0);
    lemma_glyph_lines_pixel(mem, row, alt, pitch, glyph, 0, fg, bg, l, k, 1);
    lemma_glyph_lines_pixel(mem, row, alt, pitch, glyph, 0, fg, bg, l, k, 2);
    lemma_glyph_lines_pixel(mem, row, alt, pitch, glyph, 0, fg, bg, l, k, 3);
    crate::color::lemma_unpack_pack(p);
}

/// Byte `i` holds the byte of `c` that an aligned store of `c` puts there.
pub open spec fn holds_fill(m: Seq<u8>, i: int, c: u32) -> bool {
    m[i] == word_byte(c, (i % 4) as u32)
}

proof fn lemma_store_aligned_keeps(m: Seq<u8>, o: int, c: u32, i: int)
    requires
        o % 4 == 0,
        0 <= i < m.len(),
        holds_fill(m, i, c),
    ensures
        store_word(m, o, c).len() == m.len(),
        holds_fill(store_word(m, o, c), i, c),
{
    lemma_store_word_byte(m, o, c, i);
    if 0 <= o && o + 4 <= m.len() && o <= i < o + 4 {
        assert(i - o == i % 4);
    }
}

proof fn lemma_store_block_keeps(m: Seq<u8>, a: int, c: u32, i: int)
    requires
        a % 4 == 0,
        0 <= i < m.len(),
        holds_fill(m, i, c),
    ensures
        store_block(m, a, c).len() == m.len(),
        holds_fill(store_block(m, a, c), i, c),
{
    lemma_store_aligned_keeps(m, a, c, i);
    let m1 = store_word(m, a, c);
    lemma_store_aligned_keeps(m1, a + 4, c, i);
    let m2 = store_word(m1, a + 4, c);
    lemma_store_aligned_keeps(m2, a + 8, c, i);
    let m3 = store_word(m2, a + 8, c);
    lemma_store_aligned_keeps(m3, a + 12, c, i);
}

proof fn lemma_fill_blocks_keeps(m: Seq<u8>, a: int, end: int, c: u32, i: int)
    requires
        a % 4 == 0,
        0 <= i < m.len(),
        holds_fill(m, i, c),
    ensures
        fill_blocks(m, a, end, c).len() == m.len(),
        holds_fill(fill_blocks(m, a, end, c), i, c),
    decreases end - a,
{
    if a < end {
        lemma_store_block_keeps(m, a, c, i);
        if a + 16 < end {
            lemma_fill_blocks_keeps(store_block(m, a, c), a + 16, end, c, i);
        }
    }
}

proof fn lemma_fill_blocks_len(m: Seq<u8>, a: int, end: int, c: u32)
    ensures
        fill_blocks(m, a, end, c).len() == m.len(),
    decreases end - a,
{
    if a < end && a + 16 < end {
        lemma_fill_blocks_len(store_block(m, a, c), a + 16, end, c);
    }
}

/// Every byte of an aligned word inside `[a, end)` that fits in `m` is filled.
proof fn lemma_fill_blocks_sets(m: Seq<u8>, a: int, end: int, c: u32, o: int, j: int)
    requires
        a % 4 == 0,
        o % 4 == 0,
        0 <= a <= o,
        o + 4 <= end,
        o + 4 <= m.len(),
        0 <= j < 4,
    ensures
        holds_fill(fill_blocks(m, a, end, c), o + j, c),
    decreases end - a,
{
    if o < a + 16 {
        let m1 = store_word(m, a, c);
        let m2 = store_word(m1, a + 4, c);
        let m3 = store_word(m2, a + 8, c);
        let m4 = store_word(m3, a + 12, c);
        assert((o + j) % 4 == j);
        assert(word_byte(c, ((o + j) % 4) as u32) == word_byte(c, (o + j - o) as u32));
        if o == a {
            lemma_store_word_byte(m, a, c, o + j);
            lemma_store_aligned_keeps(m1, a + 4, c, o + j);
            lemma_store_aligned_keeps(m2, a + 8, c, o + j);
            lemma_store_aligned_keeps(m3, a + 12, c, o + j);
        } else if o == a + 4 {
            lemma_store_word_byte(m1, a + 4, c, o + j);
            lemma_store_aligned_keeps(m2, a + 8, c, o + j);
            lemma_store_aligned_keeps(m3, a + 12, c, o + j);
        } else if o == a + 8 {
            lemma_store_word_byte(m2, a + 8, c, o + j);
            lemma_store_aligned_keeps(m3, a + 12, c, o + j);
        } else {
            assert(o == a + 12);
            lemma_store_word_byte(m3, a + 12, c, o + j);
        }
        if a + 16 < end {
            lemma_fill_blocks_keeps(m4, a + 16, end, c, o + j);
        }
    } else {
        lemma_fill_blocks_sets(store_block(m, a, c), a + 16, end, c, o, j);
    }
}

proof fn lemma_fill_rows_keeps(
    m: Seq<u8>,
    start: int,
    width: int,
    pitch: int,
    count: nat,
    c: u32,
    i: int,
)
    requires
        start % 4 == 0,
        pitch % 4 == 0,
        0 <= i < m.len(),
        holds_fill(m, i, c),
    ensures
        fill_rows(m, start, width, pitch, count, c).len() == m.len(),
        holds_fill(fill_rows(m, start, width, pitch, count, c), i, c),
    decreases count,
{
    if count > 0 {
        lemma_fill_blocks_keeps(m, start, start + width, c, i);
        lemma_fill_rows_keeps(
            fill_blocks(m, start, start + width, c),
            start + pitch,
            width,
            pitch,
            (count - 1) as nat,
            c,
            i,
        );
    }
}

/// Every byte of an aligned word in row `k < count` of a fill, inside the row's
/// width and inside `m`, is filled.
proof fn lemma_fill_rows_sets(
    m: Seq<u8>,
    start: int,
    width: int,
    pitch: int,
    count: nat,
    c: u32,
    k: int,
    off: int,
    j: int,
)
    requires
        start % 4 == 0,
        pitch % 4 == 0,
        off % 4 == 0,
        0 <= start,
        0 <= pitch,
        0 <= k < count,
        0 <= off,
        off + 4 <= width,
        start + k * pitch + off + 4 <= m.len(),
        0 <= j < 4,
    ensures
        holds_fill(fill_rows(m, start, width, pitch, count, c), start + k * pitch + off + j, c),
    decreases count,
{
    let m1 = fill_blocks(m, start, start + width, c);
    lemma_fill_blocks_len(m, start, start + width, c);
    if k == 0 {
        assert(k * pitch == 0);
        lemma_fill_blocks_sets(m, start, start + width, c, start + off, j);
        lemma_fill_rows_keeps(m1, start + pitch, width, pitch, (count - 1) as nat, c, start + off + j);
    } else {
        lemma_mul_step(k - 1, pitch);
        lemma_mul_le(0, k - 1, pitch);
        lemma_fill_rows_sets(m1, start + pitch, width, pitch, (count - 1) as nat, c, k - 1, off, j);
    }
}

/// After a fill of `count` rows, the aligned word at `off` of row `k` holds the
/// fill value (when it lies inside the row's width and inside `m`).
pub proof fn lemma_fill_rows_word(
    m: Seq<u8>,
    start: int,
    width: int,
    pitch: int,
    count: nat,
    c: u32,
    k: int,
    off: int,
)
    requires
        start % 4 == 0,
        pitch % 4 == 0,
        off % 4 == 0,
        0 <= start,
        0 <= pitch,
        0 <= k < count,
        0 <= off,
        off + 4 <= width,
        start + k * pitch + off + 4 <= m.len(),
    ensures
        word_at(fill_rows(m, start, width, pitch, count, c), start + k * pitch + off) == c,
{
    let o = start + k * pitch + off;
    lemma_fill_rows_sets(m, start, width, pitch, count, c, k, off, 0);
    lemma_fill_rows_sets(m, start, width, pitch, count, c, k, off, 1);
    lemma_fill_rows_sets(m, start, width, pitch, count, c, k, off, 2);
    lemma_fill_rows_sets(m, start, width, pitch, count, c, k, off, 3);
    let q = pitch / 4;
    let kq = k * q;
    assert(k * pitch == kq * 4) by (nonlinear_arith)
        requires
            pitch == 4 * q,
            kq == k * q,
    ;
    assert(o % 4 == 0);
    assert((o + 1) % 4 == 1 && (o + 2) % 4 == 2 && (o + 3) % 4 == 3 && o % 4 == 0);
    crate::color::lemma_unpack_pack(c);
}

/// A fill of aligned words leaves an aligned word that already held the fill
/// value holding it.
pub proof fn lemma_fill_rows_keeps_word(
    m: Seq<u8>,
    start: int,
    width: int,
    pitch: int,
    count: nat,
    c: u32,
    o: int,
)
    requires
        start % 4 == 0,
        pitch % 4 == 0,
        o % 4 == 0,
        0 <= o,
        o + 4 <= m.len(),
        word_at(m, o) == c,
    ensures
        word_at(fill_rows(m, start, width, pitch, count, c), o) == c,
{
    crate::color::lemma_pack_bytes(m[o], m[o + 1], m[o + 2], m[o + 3]);
    assert((o + 1) % 4 == 1 && (o + 2) % 4 == 2 && (o + 3) % 4 == 3);
    lemma_fill_rows_keeps(m, start, width, pitch, count, c, o);
    lemma_fill_rows_keeps(m, start, width, pitch, count, c, o + 1);
    lemma_fill_rows_keeps(m, start, width, pitch, count, c, o + 2);
    lemma_fill_rows_keeps(m, start, width, pitch, count, c, o + 3);
    crate::color::lemma_unpack_pack(c);
}

/// A fill keeps the length of the memory.
pub proof fn lemma_fill_rows_len(m: Seq<u8>, start: int, width: int, pitch: int, count: nat, c: u32)
    ensures
        fill_rows(m, start, width, pitch, count, c).len() == m.len(),
    decreases count,
{
    if count > 0 {
        lemma_fill_blocks_len(m, start, start + width, c);
        lemma_fill_rows_len(
            fill_blocks(m, start, start + width, c),
            start + pitch,
            width,
            pitch,
            (count - 1) as nat,
            c,
        );
    }
}

/// The colour of the pixel whose four characters start at `o` of image data
/// written six bits per character, each character offset by 33: red takes the
/// first character and the top two bits of the second, green the rest of the
/// second and the top four bits of the third, blue the rest of the third and the
/// fourth.
pub open spec fn image_color(data: Seq<u8>, o: int) -> PixelColor {
    let a = (data[o] - 33) as u8;
    let b = (data[o + 1] - 33) as u8;
    let c = (data[o + 2] - 33) as u8;
    let d = (data[o + 3] - 33) as u8;
    PixelColor {
        red: (a << 2u8) | (b >> 4u8),
        green: ((b & 0xf) << 4u8) | (c >> 2u8),
        blue: ((c & 0x3) << 6u8) | d,
        alpha: 0,
    }
}

/// The four characters of an image pixel, each 33 plus a six-bit digit, are the
/// base-64 digits of the pixel's 24-bit colour, most significant first, with red
/// the top byte of the colour and blue the bottom one; alpha is zero.
pub proof fn lemma_image_color_digits(data: Seq<u8>, o: int)
    requires
        0 <= o,
        o + 4 <= data.len(),
        forall|i: int| 0 <= i < 4 ==> 33 <= #[trigger] data[o + i] < 97,
    ensures
        ({
            let c = image_color(data, o);
            &&& c.red * 0x1_0000 + c.green * 0x100 + c.blue == (data[o] - 33) * 0x4_0000 + (
            data[o + 1] - 33) * 0x1000 + (data[o + 2] - 33) * 0x40 + (data[o + 3] - 33)
            &&& c.alpha == 0
        }),
{
    assert(33 <= data[o + 0] < 97);
    assert(33 <= data[o + 1] < 97);
    assert(33 <= data[o + 2] < 97);
    assert(33 <= data[o + 3] < 97);
    let a = (data[o] - 33) as u8;
    let b = (data[o + 1] - 33) as u8;
    let c = (data[o + 2] - 33) as u8;
    let d = (data[o + 3] - 33) as u8;
    assert(((a << 2u8) | (b >> 4u8)) as u32 * 0x1_0000u32 + (((b & 0xf) << 4u8) | (c >> 2u8))
        as u32 * 0x100u32 + (((c & 0x3) << 6u8) | d) as u32 == a as u32 * 0x4_0000u32 + b as u32
        * 0x1000u32 + c as u32 * 0x40u32 + d as u32) by (bit_vector)
        requires
            a < 64,
            b < 64,
            c < 64,
            d < 64,
    ;
}

/// `n` image pixels from data offset `o` on, drawn at `row` and again at `alt`,
/// `step` bytes apart, each stored as its word in component order `order`.
pub open spec fn image_line(
    mem: Seq<u8>,
    row: int,
    alt: int,
    step: int,
    data: Seq<u8>,
    o: int,
    n: nat,
    order: PixelOrder,
) -> Seq<u8>
    decreases n,
{
    if n == 0 {
        mem
    } else {
        let p = raw_of(order, image_color(data, o));
        image_line(
            store_word(store_word(mem, row, p), alt, p),
            row + step,
            alt + step,
            step,
            data,
            o + 4,
            (n - 1) as nat,
            order,
        )
    }
}

/// `rows` rows of `width` image pixels from data offset `o` on, one `pitch` apart.
pub open spec fn image_rows(
    mem: Seq<u8>,
    row: int,
    alt: int,
    pitch: int,
    step: int,
    data: Seq<u8>,
    o: int,
    width: nat,
    rows: nat,
    order: PixelOrder,
) -> Seq<u8>
    decreases rows,
{
    if rows == 0 {
        mem
    } else {
        image_rows(
            image_line(mem, row, alt, step, data, o, width, order),
            row + pitch,
            alt + pitch,
            pitch,
            step,
            data,
            o + 4 * width,
            width,
            (rows - 1) as nat,
            order,
        )
    }
}

/// What `image_line` leaves at byte `i`, when each stored pixel lies inside `mem`
/// and the row and the alternate row are apart.
proof fn lemma_image_line_byte(
    mem: Seq<u8>,
    row: int,
    alt: int,
    data: Seq<u8>,
    o: int,
    n: nat,
    order: PixelOrder,
    i: int,
)
    requires
        0 <= row,
        0 <= alt,
        row + 4 * n <= mem.len(),
        alt + 4 * n <= mem.len(),
        row + 4 * n <= alt || alt + 4 * n <= row,
        0 <= i < mem.len(),
    ensures
        image_line(mem, row, alt, 4, data, o, n, order).len() == mem.len(),
        image_line(mem, row, alt, 4, data, o, n, order)[i] == if row <= i < row + 4 * n {
            word_byte(
                raw_of(order, image_color(data, o + 4 * ((i - row) / 4))),
                ((i - row) % 4) as u32,
            )
        } else if alt <= i < alt + 4 * n {
            word_byte(
                raw_of(order, image_color(data, o + 4 * ((i - alt) / 4))),
                ((i - alt) % 4) as u32,
            )
        } else {
            mem[i]
        },
    decreases n,
{
    if n > 0 {
        let p = raw_of(order, image_color(data, o));
        let m0 = store_word(mem, row, p);
        let m1 = store_word(m0, alt, p);
        lemma_store_word_byte(mem, row, p, i);
        lemma_store_word_byte(m0, alt, p, i);
        lemma_image_line_byte(m1, row + 4, alt + 4, data, o + 4, (n - 1) as nat, order, i);
        if row + 4 <= i < row + 4 * n {
            assert(o + 4 + 4 * ((i - (row + 4)) / 4) == o + 4 * ((i - row) / 4));
            assert((i - (row + 4)) % 4 == (i - row) % 4);
        }
        if alt + 4 <= i < alt + 4 * n {
            assert(o + 4 + 4 * ((i - (alt + 4)) / 4) == o + 4 * ((i - alt) / 4));
            assert((i - (alt + 4)) % 4 == (i - alt) % 4);
        }
    }
}

/// Where `image_rows` may store: `rows` rows of `4 * width` bytes one `pitch`
/// apart, from `row` and from `alt`, inside `mem` and apart from each other.
pub open spec fn images_apart(len: int, row: int, alt: int, pitch: int, width: int, rows: int) -> bool {
    &&& 0 <= width
    &&& 0 <= rows
    &&& 4 * width <= pitch
    &&& 0 <= row
    &&& 0 <= alt
    &&& row + rows * pitch <= len
    &&& alt + rows * pitch <= len
    &&& (row + rows * pitch <= alt || alt + rows * pitch <= row)
}

proof fn lemma_rows_span_step(rows: int, pitch: int)
    requires
        rows > 0,
        pitch >= 0,
    ensures
        rows * pitch == (rows - 1) * pitch + pitch,
        (rows - 1) * pitch >= 0,
{
    lemma_mul_step(rows - 1, pitch);
    lemma_mul_le(0, rows - 1, pitch);
}

/// `image_rows` leaves every byte outside the two image spans as it was.
proof fn lemma_image_rows_outside(
    mem: Seq<u8>,
    row: int,
    alt: int,
    pitch: int,
    data: Seq<u8>,
    o: int,
    width: nat,
    rows: nat,
    order: PixelOrder,
    i: int,
)
    requires
        images_apart(mem.len() as int, row, alt, pitch, width as int, rows as int),
        0 <= i < mem.len(),
        !(row <= i < row + rows * pitch),
        !(alt <= i < alt + rows * pitch),
    ensures
        image_rows(mem, row, alt, pitch, 4, data, o, width, rows, order).len() == mem.len(),
        image_rows(mem, row, alt, pitch, 4, data, o, width, rows, order)[i] == mem[i],
    decreases rows,
{
    if rows > 0 {
        lemma_rows_span_step(rows as int, pitch);
        let m1 = image_line(mem, row, alt, 4, data, o, width, order);
        lemma_image_line_byte(mem, row, alt, data, o, width, order, i);
        lemma_image_rows_outside(
            m1,
            row + pitch,
            alt + pitch,
            pitch,
            data,
            o + 4 * width,
            width,
            (rows - 1) as nat,
            order,
            i,
        );
    }
}

/// Byte `j` of pixel `c` of row `r` of an image drawn by `image_rows`, in both
/// copies, is that byte of the pixel's word.
proof fn lemma_image_rows_pixel(
    mem: Seq<u8>,
    row: int,
    alt: int,
    pitch: int,
    data: Seq<u8>,
    o: int,
    width: nat,
    rows: nat,
    order: PixelOrder,
    r: int,
    c: int,
    j: int,
)
    requires
        images_apart(mem.len() as int, row, alt, pitch, width as int, rows as int),
        0 <= r < rows,
        0 <= c < width,
        0 <= j < 4,
    ensures
        image_rows(mem, row, alt, pitch, 4, data, o, width, rows, order)[row + r * pitch + 4 * c
            + j] == word_byte(raw_of(order, image_color(data, o + 4 * (width * r + c))), j as u32),
        image_rows(mem, row, alt, pitch, 4, data, o, width, rows, order)[alt + r * pitch + 4 * c
            + j] == word_byte(raw_of(order, image_color(data, o + 4 * (width * r + c))), j as u32),
    decreases rows,
{
    lemma_rows_span_step(rows as int, pitch);
    let m1 = image_line(mem, row, alt, 4, data, o, width, order);
    lemma_image_line_byte(mem, row, alt, data, o, width, order, 0);
    if r == 0 {
        let t = row + 4 * c + j;
        let u = alt + 4 * c + j;
        assert((4 * c + j) / 4 == c && (4 * c + j) % 4 == j);
        assert(r * pitch == 0 && width * r == 0) by (nonlinear_arith)
            requires
                r == 0,
        ;
        lemma_image_line_byte(mem, row, alt, data, o, width, order, t);
        lemma_image_line_byte(mem, row, alt, data, o, width, order, u);
        lemma_image_rows_outside(
            m1,
            row + pitch,
            alt + pitch,
            pitch,
            data,
            o + 4 * width,
            width,
            (rows - 1) as nat,
            order,
            t,
        );
        lemma_image_rows_outside(
            m1,
            row + pitch,
            alt + pitch,
            pitch,
            data,
            o + 4 * width,
            width,
            (rows - 1) as nat,
            order,
            u,
        );
    } else {
        lemma_mul_step(r - 1, pitch);
        assert(width * r == width * (r - 1) + width) by (nonlinear_arith);
        lemma_image_rows_pixel(
            m1,
            row + pitch,
            alt + pitch,
            pitch,
            data,
            o + 4 * width,
            width,
            (rows - 1) as nat,
            order,
            r - 1,
            c,
            j,
        );
    }
}

/// After `image_rows`, the word of pixel `c` of row `r`, in both copies, is the
/// image's pixel there.
pub proof fn lemma_image_rows_words(
    mem: Seq<u8>,
    row: int,
    alt: int,
    pitch: int,
    data: Seq<u8>,
    width: nat,
    rows: nat,
    order: PixelOrder,
    r: int,
    c: int,
)
    requires
        images_apart(mem.len() as int, row, alt, pitch, width as int, rows as int),
        0 <= r < rows,
        0 <= c < width,
    ensures
        word_at(image_rows(mem, row, alt, pitch, 4, data, 0, width, rows, order), row + r * pitch + 4
            * c) == raw_of(order, image_color(data, 4 * (width * r + c))),
        word_at(image_rows(mem, row, alt, pitch, 4, data, 0, width, rows, order), alt + r * pitch + 4
            * c) == raw_of(order, image_color(data, 4 * (width * r + c))),
{
    lemma_image_rows_pixel(mem, row, alt, pitch, data, 0, width, rows, order, r, c, 0);
    lemma_image_rows_pixel(mem, row, alt, pitch, data, 0, width, rows, order, r, c, 1);
    lemma_image_rows_pixel(mem, row, alt, pitch, data, 0, width, rows, order, r, c, 2);
    lemma_image_rows_pixel(mem, row, alt, pitch, data, 0, width, rows, order, r, c, 3);
    crate::color::lemma_unpack_pack(raw_of(order, image_color(data, 4 * (width * r + c))));
}

/// Drawing keeps the length of the memory.
pub proof fn lemma_glyph_lines_len(
    mem: Seq<u8>,
    row: int,
    alt: int,
    pitch: int,
    step: int,
    glyph: Seq<u8>,
    line: int,
    fg: u32,
    bg: u32,
)
    ensures
        glyph_lines(mem, row, alt, pitch, step, glyph, line, fg, bg).len() == mem.len(),
    decreases 16 - line,
{
    if line < 16 {
        lemma_glyph_line_len(mem, row, alt, step, glyph[line], 0, fg, bg);
        lemma_glyph_lines_len(
            glyph_line(mem, row, alt, step, glyph[line], 0, fg, bg),
            row + pitch,
            alt + pitch,
            pitch,
            step,
            glyph,
            line + 1,
            fg,
            bg,
        );
    }
}

proof fn lemma_glyph_line_len(
    mem: Seq<u8>,
    row: int,
    alt: int,
    step: int,
    bits: u8,
    px: int,
    fg: u32,
    bg: u32,
)
    ensures
        glyph_line(mem, row, alt, step, bits, px, fg, bg).len() == mem.len(),
    decreases 8 - px,
{
    if px < 8 {
        let p = glyph_pixel(bits, px, fg, bg);
        lemma_glyph_line_len(
            store_word(store_word(mem, row, p), alt, p),
            row + step,
            alt + step,
            step,
            bits,
            px + 1,
            fg,
            bg,
        );
    }
}

/// A glyph line with no bit set is drawn in the background colour.
pub proof fn lemma_blank_pixel(px: int, fg: u32, bg: u32)
    requires
        0 <= px < 8,
    ensures
        glyph_pixel(0, px, fg, bg) == bg,
{
    let s = (7 - px) as u8;
    assert(0u8 & (1u8 << s) == 0) by (bit_vector);
}

/// Whether `glyph_lines` stores into byte `i`, from line `line` on: the byte lies
/// in the 32 bytes of a line of the cell or of the alternate cell.
pub open spec fn in_cell(i: int, row: int, alt: int, pitch: int, line: int) -> bool
    decreases 16 - line,
{
    if line >= 16 {
        false
    } else {
        (row <= i < row + 32) || (alt <= i < alt + 32) || in_cell(
            i,
            row + pitch,
            alt + pitch,
            pitch,
            line + 1,
        )
    }
}

/// `glyph_lines` leaves every byte it does not store into as it was.
proof fn lemma_glyph_lines_unstored(
    mem: Seq<u8>,
    row: int,
    alt: int,
    pitch: int,
    glyph: Seq<u8>,
    line: int,
    fg: u32,
    bg: u32,
    i: int,
)
    requires
        cells_apart(mem.len() as int, row, alt, pitch, line),
        0 <= i < mem.len(),
        !in_cell(i, row, alt, pitch, line),
    ensures
        glyph_lines(mem, row, alt, pitch, 4, glyph, line, fg, bg)[i] == mem[i],
    decreases 16 - line,
{
    if line < 16 {
        lemma_cell_span_step(line, pitch);
        let m1 = glyph_line(mem, row, alt, 4, glyph[line], 0, fg, bg);
        lemma_glyph_line_byte(mem, row, alt, glyph[line], 0, fg, bg, i);
        lemma_glyph_lines_unstored(m1, row + pitch, alt + pitch, pitch, glyph, line + 1, fg, bg, i);
    }
}

/// What `glyph_lines` leaves at byte `i` depends on the memory only at `i`, and
/// not even there when it stores into `i`.
proof fn lemma_glyph_lines_local(
    m1: Seq<u8>,
    m2: Seq<u8>,
    row: int,
    alt: int,
    pitch: int,
    glyph: Seq<u8>,
    line: int,
    fg: u32,
    bg: u32,
    i: int,
)
    requires
        cells_apart(m1.len() as int, row, alt, pitch, line),
        m2.len() == m1.len(),
        0 <= i < m1.len(),
        m1[i] == m2[i] || in_cell(i, row, alt, pitch, line),
    ensures
        glyph_lines(m1, row, alt, pitch, 4, glyph, line, fg, bg)[i] == glyph_lines(
            m2,
            row,
            alt,
            pitch,
            4,
            glyph,
            line,
            fg,
            bg,
        )[i],
    decreases 16 - line,
{
    if line < 16 {
        lemma_cell_span_step(line, pitch);
        let n1 = glyph_line(m1, row, alt, 4, glyph[line], 0, fg, bg);
        let n2 = glyph_line(m2, row, alt, 4, glyph[line], 0, fg, bg);
        lemma_glyph_line_byte(m1, row, alt, glyph[line], 0, fg, bg, i);
        lemma_glyph_line_byte(m2, row, alt, glyph[line], 0, fg, bg, i);
        lemma_glyph_line_byte(m1, row, alt, glyph[line], 0, fg, bg, 0);
        lemma_glyph_line_byte(m2, row, alt, glyph[line], 0, fg, bg, 0);
        lemma_glyph_lines_local(n1, n2, row + pitch, alt + pitch, pitch, glyph, line + 1, fg, bg, i);
    }
}

/// Drawing a glyph into a cell overwrites whatever glyph was drawn there before.
pub proof fn lemma_glyph_lines_overwrite(
    mem: Seq<u8>,
    row: int,
    alt: int,
    pitch: int,
    first: Seq<u8>,
    second: Seq<u8>,
    fg: u32,
    bg: u32,
    fg2: u32,
    bg2: u32,
)
    requires
        cells_apart(mem.len() as int, row, alt, pitch, 0),
    ensures
        glyph_lines(
            glyph_lines(mem, row, alt, pitch, 4, first, 0, fg, bg),
            row,
            alt,
            pitch,
            4,
            second,
            0,
            fg2,
            bg2,
        ) == glyph_lines(mem, row, alt, pitch, 4, second, 0, fg2, bg2),
{
    let a = glyph_lines(mem, row, alt, pitch, 4, first, 0, fg, bg);
    lemma_glyph_lines_len(mem, row, alt, pitch, 4, first, 0, fg, bg);
    lemma_glyph_lines_len(a, row, alt, pitch, 4, second, 0, fg2, bg2);
    lemma_glyph_lines_len(mem, row, alt, pitch, 4, second, 0, fg2, bg2);
    let r1 = glyph_lines(a, row, alt, pitch, 4, second, 0, fg2, bg2);
    let r2 = glyph_lines(mem, row, alt, pitch, 4, second, 0, fg2, bg2);
    assert forall|i: int| 0 <= i < r1.len() implies r1[i] == r2[i] by {
        if !in_cell(i, row, alt, pitch, 0) {
            lemma_glyph_lines_unstored(mem, row, alt, pitch, first, 0, fg, bg, i);
        }
        lemma_glyph_lines_local(a, mem, row, alt, pitch, second, 0, fg2, bg2, i);
    }
    assert(r1 =~= r2);
}

} // verus!
