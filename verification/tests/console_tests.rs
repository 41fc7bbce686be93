use pi::color::{PixelColor, RawPixel};
use pi::font::CP850Font;
use pi::hdmi::{HDMIConfig, HDMIFrameBuffer};
use pi::mailbox::{MailboxBuf, MailboxTag};

const PITCH: usize = 256;
const HEIGHT: usize = 64;
const WHITE: u32 = 0x00cb_cbcb;

fn font() -> CP850Font {
    let mut data = vec![0u8; 256 * 16];
    for line in 0..16 {
        data[65 * 16 + line] = 0b1000_0001;
        data[95 * 16 + line] = if line == 15 { 0xff } else { 0 };
    }
    CP850Font::new(data)
}

fn reply(width: u32, height: u32, multiplier: u32, order: u32) -> MailboxBuf {
    let mut b = HDMIFrameBuffer::request(&HDMIConfig::new(width, height, 32, multiplier));
    b.set_tag(22, order);
    b.set_tag(26, 0xc010_0000);
    b.set_tag(27, width * 4 * height * multiplier);
    b.set_tag(31, width * 4);
    // The firmware marks a reply it carried out as a successful response.
    b.set_status_code(0x8000_0000);
    b
}

fn console() -> HDMIFrameBuffer {
    HDMIFrameBuffer::new(&reply(64, 32, 2, 0), font())
}

fn word(mem: &[u8], offset: usize) -> u32 {
    u32::from_le_bytes([mem[offset], mem[offset + 1], mem[offset + 2], mem[offset + 3]])
}

fn pixel(mem: &[u8], x: usize, y: usize) -> u32 {
    word(mem, y * PITCH + 4 * x)
}

#[test]
fn config_new_keeps_fields() {
    let c = HDMIConfig::new(1, 2, 3, 4);
    assert_eq!(
        (c.horizontal_resolution, c.vertical_resolution, c.color_depth, c.virtual_vertical_multiplier),
        (1, 2, 3, 4)
    );
}

#[test]
fn request_lists_the_mode() {
    let b = HDMIFrameBuffer::request(&HDMIConfig::new(960, 540, 32, 3));
    let expected: [u32; 36] = [
        0x0004_8003, 8, 8, 960, 540,
        0x0004_8004, 8, 8, 960, 1620,
        0x0004_8009, 8, 8, 0, 0,
        0x0004_8005, 4, 4, 32,
        0x0004_8006, 4, 4, 0,
        0x0004_0001, 8, 8, 4096, 0,
        0x0004_0008, 4, 0, 0,
        0, 0, 0, 0,
    ];
    assert_eq!(b.tag_sequence(), expected);
    assert_eq!(b.size(), 140);
    assert_eq!(b.status_code(), 0);
}

#[test]
fn new_takes_geometry_from_reply() {
    let fb = console();
    assert_eq!(fb.physical_width(), 64);
    assert_eq!(fb.physical_height(), 32);
    assert_eq!(fb.virtual_width(), 64);
    assert_eq!(fb.virtual_height(), HEIGHT);
    assert_eq!(fb.virtual_offset_x(), 0);
    assert_eq!(fb.virtual_offset_y(), 0);
    assert_eq!((fb.cursor_x(), fb.cursor_y()), (0, 0));
    assert_eq!(parts(&fb.foreground_color()), (203, 203, 203, 0));
    assert_eq!(parts(&fb.background_color()), (0, 0, 0, 0));
}

fn parts(c: &PixelColor) -> (u8, u8, u8, u8) {
    (c.red, c.green, c.blue, c.alpha)
}

#[test]
fn new_takes_any_geometry() {
    let fb = HDMIFrameBuffer::new(&reply(4, 32, 2, 0), font());
    assert_eq!((fb.physical_width(), fb.physical_height(), fb.virtual_height()), (4, 32, 64));
    assert!(fb.within_limits());
    let fb = HDMIFrameBuffer::new(&reply(64, 8, 2, 0), font());
    assert_eq!((fb.physical_height(), fb.virtual_height()), (8, 16));
    assert!(fb.within_limits());
}

#[test]
fn accepts_leaves_out_underflows() {
    let fb = console();
    assert!(fb.accepts(b'A'));
    assert!(fb.accepts(b'\n'));
    assert!(!fb.accepts(8));
    assert!(!fb.accepts(127));
    // No whole text column: backspace has no column to go back to.
    let mut narrow = HDMIFrameBuffer::new(&reply(4, 32, 2, 0), font());
    let mut mem = vec![0u8; 16 * 64];
    assert!(narrow.write_byte(&mut mem, b'\n').is_none());
    assert!(!narrow.accepts(8));
    // Every printable byte ends the line at once; this line feed scrolls.
    assert!(narrow.write_byte(&mut mem, b'A').is_some());
    assert_eq!((narrow.cursor_x(), narrow.cursor_y()), (0, 32));
    // A visible screen less than a line high cannot be scrolled.
    let short = HDMIFrameBuffer::new(&reply(64, 8, 4, 0), font());
    assert!(!short.accepts(b'\n'));
    assert!(short.accepts(b'A'));
}

#[test]
fn small_virtual_screen_wraps_cursor() {
    // 24 rows: one text line and a half.
    let mut fb = HDMIFrameBuffer::new(&reply(64, 24, 1, 0), font());
    let mut mem = vec![0u8; PITCH * 24];
    assert!(fb.write_byte(&mut mem, b'\n').is_none());
    assert_eq!(fb.cursor_y(), (16 + 12) % 24);
    assert_eq!(fb.virtual_offset_y(), 12);
    fb.write_byte(&mut mem, b'A');
    assert_eq!(fb.cursor_x(), 8);
}

#[test]
fn raw_pixel_follows_pixel_order() {
    let c = PixelColor::new(0x11, 0x22, 0x33);
    let bgr = console();
    assert_eq!(bgr.get_raw_pixel(&c), RawPixel(0x0011_2233));
    let rgb = HDMIFrameBuffer::new(&reply(64, 32, 2, 1), font());
    assert_eq!(rgb.get_raw_pixel(&c), RawPixel(0x0033_2211));
}

#[test]
fn printable_byte_draws_glyph_and_alternate() {
    let mut fb = console();
    let mut mem = vec![0x55u8; PITCH * HEIGHT];
    assert!(fb.write_byte(&mut mem, b'A').is_none());
    assert_eq!((fb.cursor_x(), fb.cursor_y()), (8, 0));
    for line in 0..16 {
        for (y, x0) in [(line, 0usize), (32 + line, 0)] {
            assert_eq!(pixel(&mem, x0, y), WHITE);
            for x in 1..7 {
                assert_eq!(pixel(&mem, x0 + x, y), 0);
            }
            assert_eq!(pixel(&mem, x0 + 7, y), WHITE);
            assert_eq!(pixel(&mem, x0 + 8, y), 0x5555_5555);
        }
    }
    assert_eq!(pixel(&mem, 0, 16), 0x5555_5555);
}

#[test]
fn carriage_return_clears_cell_and_returns() {
    let mut fb = console();
    let mut mem = vec![0x55u8; PITCH * HEIGHT];
    fb.write_byte(&mut mem, b'A');
    fb.write_byte(&mut mem, b'\r');
    assert_eq!((fb.cursor_x(), fb.cursor_y()), (0, 0));
    // The cell the cursor was on is cleared; the drawn glyph stays.
    assert_eq!(pixel(&mem, 8, 0), 0);
    assert_eq!(pixel(&mem, 8, 32), 0);
    assert_eq!(pixel(&mem, 0, 0), WHITE);
}

#[test]
fn backspace_undoes_printable_byte() {
    let mut fb = console();
    let mut mem = vec![0x55u8; PITCH * HEIGHT];
    fb.write_byte(&mut mem, b'A');
    fb.write_byte(&mut mem, 8);
    assert_eq!((fb.cursor_x(), fb.cursor_y()), (0, 0));
    assert_eq!(pixel(&mem, 0, 0), 0);
    assert_eq!(pixel(&mem, 7, 15), 0);
    fb.write_byte(&mut mem, b'A');
    fb.write_byte(&mut mem, 127);
    assert_eq!((fb.cursor_x(), fb.cursor_y()), (0, 0));
}

#[test]
fn backspace_at_line_start_goes_to_last_column_above() {
    let mut fb = console();
    let mut mem = vec![0u8; PITCH * HEIGHT];
    fb.write_byte(&mut mem, b'\n');
    fb.write_byte(&mut mem, 8);
    assert_eq!((fb.cursor_x(), fb.cursor_y()), (56, 0));
}

#[test]
fn line_feed_clears_the_new_line() {
    let mut fb = console();
    let mut mem = vec![0x55u8; PITCH * HEIGHT];
    assert!(fb.write_byte(&mut mem, b'\n').is_none());
    assert_eq!((fb.cursor_x(), fb.cursor_y()), (0, 16));
    for y in 16..32 {
        for x in 0..64 {
            assert_eq!(pixel(&mem, x, y), 0);
        }
    }
    for x in 0..64 {
        assert_eq!(pixel(&mem, x, 48), 0);
        assert_eq!(pixel(&mem, x, 15), 0x5555_5555);
    }
}

#[test]
fn eighth_column_wraps_to_next_line() {
    let mut fb = console();
    let mut mem = vec![0u8; PITCH * HEIGHT];
    for _ in 0..7 {
        fb.write_byte(&mut mem, b'A');
    }
    assert_eq!((fb.cursor_x(), fb.cursor_y()), (56, 0));
    fb.write_byte(&mut mem, b'A');
    assert_eq!((fb.cursor_x(), fb.cursor_y()), (0, 16));
    assert_eq!(pixel(&mem, 56, 0), WHITE);
}

#[test]
fn scroll_request_and_reply() {
    let mut fb = console();
    let mut mem = vec![0u8; PITCH * HEIGHT];
    assert!(fb.write_byte(&mut mem, b'\n').is_none());
    let req = fb.write_byte(&mut mem, b'\n').expect("scroll request");
    assert_eq!(fb.cursor_y(), 32);
    assert_eq!(req.size(), 32);
    assert_eq!(req.status_code(), 0);
    assert_eq!(&req.tag_sequence()[..6], &[MailboxTag::SetVirtualOffset.code(), 8, 8, 0, 16, 0]);
    assert!(req.tag_sequence()[6..].iter().all(|&w| w == 0));
    fb.apply_virtual_offset_reply(&req);
    assert_eq!((fb.virtual_offset_x(), fb.virtual_offset_y()), (0, 16));
    // The cursor line is now the last visible line.
    assert_eq!(fb.cursor_y() + 16, fb.virtual_offset_y() + fb.physical_height());
}

#[test]
fn line_feed_wraps_half_the_virtual_screen() {
    let mut fb = console();
    let mut mem = vec![0u8; PITCH * HEIGHT];
    for _ in 0..3 {
        if let Some(req) = fb.write_byte(&mut mem, b'\n') {
            fb.apply_virtual_offset_reply(&req);
        }
    }
    assert_eq!(fb.cursor_y(), 48);
    assert_eq!(fb.virtual_offset_y(), 32);
    let r = fb.write_byte(&mut mem, b'\n');
    assert_eq!(fb.cursor_y(), 32);
    assert_eq!(fb.virtual_offset_y(), 0);
    let req = r.expect("scroll request");
    assert_eq!(req.tag(4), 16);
}

#[test]
fn text_line_feed_returns_the_carriage() {
    let mut fb = console();
    let mut mem = vec![0u8; PITCH * HEIGHT];
    fb.write_str_byte(&mut mem, b'A');
    fb.write_str_byte(&mut mem, b'\n');
    assert_eq!((fb.cursor_x(), fb.cursor_y()), (0, 16));
    let mut fb = console();
    fb.write_byte(&mut mem, b'A');
    fb.write_byte(&mut mem, b'\n');
    assert_eq!((fb.cursor_x(), fb.cursor_y()), (8, 16));
}

#[test]
fn set_pixel_stores_inside_and_refuses_outside() {
    let fb = console();
    let mut mem = vec![0u8; PITCH * HEIGHT];
    assert_eq!(fb.set_pixel(&mut mem, 3, 5, RawPixel(0x0102_0304)), Ok(()));
    assert_eq!(pixel(&mem, 3, 5), 0x0102_0304);
    assert_eq!(fb.set_pixel(&mut mem, 64, 0, RawPixel(1)), Err(()));
    assert_eq!(fb.set_pixel(&mut mem, 0, 64, RawPixel(1)), Err(()));
    assert_eq!(mem.iter().filter(|&&b| b != 0).count(), 4);
}

#[test]
fn clear_paints_background_everywhere() {
    let mut fb = console();
    fb.set_background_color(&PixelColor::new(1, 2, 3));
    let mut mem = vec![0u8; PITCH * HEIGHT];
    fb.clear(&mut mem);
    for y in 0..HEIGHT {
        for x in 0..64 {
            assert_eq!(pixel(&mem, x, y), 0x0001_0203);
        }
    }
}

#[test]
fn colours_are_used_for_drawing() {
    let mut fb = console();
    fb.set_foreground_color(&PixelColor::new(9, 8, 7));
    fb.set_background_color(&PixelColor::new(1, 2, 3));
    let mut mem = vec![0u8; PITCH * HEIGHT];
    fb.write_byte(&mut mem, b'A');
    assert_eq!(pixel(&mem, 0, 0), 0x0009_0807);
    assert_eq!(pixel(&mem, 1, 0), 0x0001_0203);
}

#[test]
fn cursor_draws_underscore_glyph() {
    let fb = console();
    let mut mem = vec![0x55u8; PITCH * HEIGHT];
    fb.draw_cursor(&mut mem);
    assert_eq!(pixel(&mem, 0, 0), 0);
    assert_eq!(pixel(&mem, 3, 15), WHITE);
    assert_eq!(pixel(&mem, 3, 47), WHITE);
    assert_eq!((fb.cursor_x(), fb.cursor_y()), (0, 0));
}

#[test]
fn writes_past_the_memory_are_dropped() {
    let mut fb = console();
    let mut mem = vec![0u8; PITCH * 40];
    fb.write_byte(&mut mem, b'A');
    assert_eq!(pixel(&mem, 0, 0), WHITE);
    assert_eq!(pixel(&mem, 0, 32), WHITE);
    assert_eq!(pixel(&mem, 0, 39), WHITE);
}

#[test]
fn image_is_decoded_and_cursor_moves_down() {
    let mut fb = console();
    let mut mem = vec![0u8; PITCH * HEIGHT];
    // Pixel 0: red 0xff, green 0x80, blue 0x01; pixel 1: black.
    let a = 33 + 0x3f;
    let b = 33 + 0x38;
    let c = 33 + 0x00;
    let d = 33 + 0x01;
    let image = [a, b, c, d, 33, 33, 33, 33];
    fb.draw_homer(&mut mem, &image, 2, 1);
    assert_eq!(pixel(&mem, 0, 0), 0x00ff_8001);
    assert_eq!(pixel(&mem, 1, 0), 0);
    assert_eq!(pixel(&mem, 0, 32), 0x00ff_8001);
    assert_eq!(fb.cursor_y(), 1);
}

#[test]
fn image_rows_land_one_pitch_apart() {
    let mut fb = console();
    fb.write_byte(&mut vec![0u8; PITCH * HEIGHT], b'A');
    let mut mem = vec![0u8; PITCH * HEIGHT];
    // Four pixels: blue 1, 2, 3, 4 in reading order.
    let mut image = Vec::new();
    for n in 1..=4u8 {
        image.extend_from_slice(&[33, 33, 33, 33 + n]);
    }
    fb.draw_homer(&mut mem, &image, 2, 2);
    assert_eq!(pixel(&mem, 8, 0), 1);
    assert_eq!(pixel(&mem, 9, 0), 2);
    assert_eq!(pixel(&mem, 8, 1), 3);
    assert_eq!(pixel(&mem, 9, 1), 4);
    assert_eq!(pixel(&mem, 9, 33), 4);
    assert_eq!(pixel(&mem, 10, 0), 0);
    assert_eq!((fb.cursor_x(), fb.cursor_y()), (8, 2));
}

#[test]
fn backspace_clears_both_copies_of_the_cell() {
    let mut fb = console();
    let mut mem = vec![0x55u8; PITCH * HEIGHT];
    fb.write_byte(&mut mem, b'A');
    fb.write_byte(&mut mem, 8);
    for line in 0..16 {
        for x in 0..8 {
            assert_eq!(pixel(&mem, x, line), 0);
            assert_eq!(pixel(&mem, x, 32 + line), 0);
        }
    }
}

#[test]
fn cursor_is_overwritten_by_next_byte() {
    let mut with_cursor = console();
    let mut alone = console();
    let mut m1 = vec![0x55u8; PITCH * HEIGHT];
    let mut m2 = m1.clone();
    with_cursor.draw_cursor(&mut m1);
    with_cursor.write_byte(&mut m1, b'A');
    alone.write_byte(&mut m2, b'A');
    assert_eq!(m1, m2);
    assert_eq!((with_cursor.cursor_x(), with_cursor.cursor_y()), (alone.cursor_x(), alone.cursor_y()));
}

#[test]
fn second_line_mirrors_to_second_half() {
    let mut fb = console();
    let mut mem = vec![0u8; PITCH * HEIGHT];
    fb.write_byte(&mut mem, b'\n');
    fb.write_byte(&mut mem, b'A');
    assert_eq!(pixel(&mem, 0, 16), WHITE);
    assert_eq!(pixel(&mem, 0, 48), WHITE);
}

#[test]
fn writing_keeps_geometry() {
    let mut fb = console();
    let mut mem = vec![0u8; PITCH * HEIGHT];
    for &b in b"AB\nC\rD\x08\nEFGHIJKLMN\n\n\n" {
        if let Some(req) = fb.write_byte(&mut mem, b) {
            fb.apply_virtual_offset_reply(&req);
        }
    }
    assert_eq!(
        (fb.physical_width(), fb.physical_height(), fb.virtual_width(), fb.virtual_height()),
        (64, 32, 64, HEIGHT)
    );
    assert_eq!(fb.virtual_offset_x(), 0);
}

#[test]
fn image_fit_is_checked() {
    let fb = console();
    let image = [33u8; 8];
    assert!(fb.fits_image(&image, 2, 1));
    assert!(!fb.fits_image(&image, 2, 2));
    assert!(!fb.fits_image(&[32u8, 33, 33, 33], 1, 1));
    assert!(!fb.fits_image(&[33u8; 4 * 65], 65, 1));
    assert!(fb.fits_image(&[33u8; 4 * 64], 1, 64));
    assert!(!fb.fits_image(&[33u8; 4 * 65], 1, 65));
}

#[test]
fn cursor_line_stays_inside_virtual_screen() {
    let mut fb = console();
    let mut mem = vec![0u8; PITCH * HEIGHT];
    for byte in b"ab\ncd\n\nefghijklmnopq\n\n\nr\x08\x08\rs".iter().cycle().take(200) {
        if fb.accepts(*byte) {
            fb.write_byte(&mut mem, *byte);
        }
        assert!(fb.cursor_y() + 16 <= fb.virtual_height());
        assert_eq!(fb.cursor_y() % 16, 0);
    }
}

#[test]
fn last_cell_is_drawn_inside_exact_memory() {
    let mut fb = console();
    // Exactly `virtual_height * pitch` bytes.
    let mut mem = vec![0x55u8; PITCH * HEIGHT];
    for _ in 0..3 {
        fb.write_byte(&mut mem, b'\n');
    }
    for _ in 0..7 {
        fb.write_byte(&mut mem, b' ');
    }
    assert_eq!((fb.cursor_x(), fb.cursor_y()), (56, 48));
    fb.write_byte(&mut mem, b'A');
    assert_eq!((fb.cursor_x(), fb.cursor_y()), (0, 32));
    // The bottom right pixel of the last cell, and of its alternate at row 16.
    assert_eq!(pixel(&mem, 63, 63), WHITE);
    assert_eq!(pixel(&mem, 62, 63), 0);
    assert_eq!(pixel(&mem, 56, 49), WHITE);
    assert_eq!(pixel(&mem, 63, 31), WHITE);
    assert_eq!(pixel(&mem, 56, 17), WHITE);
    // The line feed that ended the line clears two rows' worth of bytes per
    // row, so the top rows of both cells are cleared with the new lines.
    assert_eq!(pixel(&mem, 56, 48), 0);
    assert_eq!(pixel(&mem, 56, 16), 0);
}
