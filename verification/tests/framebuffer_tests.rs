use pi::color::PixelColor;
use pi::font::CP850Font;
use pi::framebuffer::FrameBuffer;
use pi::hdmi::{HDMIConfig, HDMIFrameBuffer};

fn console(background_blue: u8) -> HDMIFrameBuffer {
    let mut b = HDMIFrameBuffer::request(&HDMIConfig::new(64, 32, 32, 2));
    b.set_tag(31, 256);
    b.set_status_code(0x8000_0000);
    let mut fb = HDMIFrameBuffer::new(&b, CP850Font::new(vec![0xffu8; 256 * 16]));
    fb.set_background_color(&PixelColor::new(0, 0, background_blue));
    fb
}

#[test]
fn default_mode() {
    let c = FrameBuffer::config();
    assert_eq!(
        (c.horizontal_resolution, c.vertical_resolution, c.color_depth, c.virtual_vertical_multiplier),
        (960, 540, 32, 3)
    );
}

#[test]
fn first_write_sets_up() {
    let mut f = FrameBuffer::new();
    let mut mem = vec![0u8; 256 * 64];
    assert!(!f.is_initialized());
    assert!(f.accepts(b'a', &Some(console(0))));
    assert!(f.write_byte(&mut mem, b'a', Some(console(0))).is_none());
    assert!(f.is_initialized());
    // The glyph of a full font fills the first cell with the foreground colour.
    assert_eq!(&mem[0..4], &[0xcb, 0xcb, 0xcb, 0]);
}

#[test]
fn set_up_once() {
    let mut f = FrameBuffer::new();
    let mut mem = vec![0u8; 256 * 64];
    f.clear(&mut mem, Some(console(1)));
    assert_eq!(mem[0], 1);
    // A later set-up framebuffer is ignored: the first background colour stays.
    f.clear(&mut mem, Some(console(2)));
    assert_eq!(mem[0], 1);
    f.clear(&mut mem, None);
    assert_eq!(mem[0], 1);
}

#[test]
fn colours_set_up_first() {
    let mut f = FrameBuffer::new();
    let mut mem = vec![0u8; 256 * 64];
    f.set_background_color(&PixelColor::new(0, 0, 7), Some(console(1)));
    assert!(f.is_initialized());
    f.clear(&mut mem, None);
    assert_eq!(mem[0], 7);
}
