use pi::color::{BGRPixel, Color, PixelColor, RGBPixel};

fn parts(c: &PixelColor) -> (u8, u8, u8, u8) {
    (c.red, c.green, c.blue, c.alpha)
}

#[test]
fn new_is_opaque() {
    assert_eq!(parts(&PixelColor::new(1, 2, 3)), (1, 2, 3, 0));
}

#[test]
fn named_colours() {
    assert_eq!(parts(&PixelColor::white()), (203, 203, 203, 0));
    assert_eq!(parts(&PixelColor::grey()), (127, 127, 127, 0));
    assert_eq!(parts(&PixelColor::red()), (191, 47, 31, 0));
    assert_eq!(parts(&PixelColor::green()), (31, 191, 31, 0));
    assert_eq!(parts(&PixelColor::blue()), (71, 49, 223, 0));
    assert_eq!(parts(&PixelColor::yellow()), (167, 167, 39, 0));
    assert_eq!(parts(&PixelColor::cyan()), (47, 191, 199, 0));
    assert_eq!(parts(&PixelColor::magenta()), (211, 55, 211, 0));
    assert_eq!(parts(&PixelColor::b_white()), (255, 255, 255, 0));
    assert_eq!(parts(&PixelColor::black()), (0, 0, 0, 0));
    assert_eq!(parts(&PixelColor::b_red()), (255, 0, 0, 0));
    assert_eq!(parts(&PixelColor::b_green()), (0, 255, 0, 0));
    assert_eq!(parts(&PixelColor::b_blue()), (0, 0, 255, 0));
    assert_eq!(parts(&PixelColor::b_yellow()), (255, 255, 0, 0));
    assert_eq!(parts(&PixelColor::b_cyan()), (0, 255, 255, 0));
    assert_eq!(parts(&PixelColor::b_magenta()), (255, 0, 255, 0));
}

#[test]
fn from_hex_splits_components_and_ignores_top_byte() {
    assert_eq!(parts(&PixelColor::from_hex(0x12_34_56)), (0x12, 0x34, 0x56, 0));
    assert_eq!(parts(&PixelColor::from_hex(0xff12_3456)), (0x12, 0x34, 0x56, 0));
}

#[test]
fn from_hex_is_word_conversion_without_alpha() {
    let a = PixelColor::from_hex(0xab12_3456);
    let b = PixelColor::from(0x0012_3456u32);
    assert_eq!(parts(&a), parts(&b));
}

#[test]
fn word_conversion_reads_memory_order() {
    let c = PixelColor::from(0xaabb_ccddu32);
    assert_eq!((c.blue, c.green, c.red, c.alpha), (0xdd, 0xcc, 0xbb, 0xaa));
}

#[test]
fn bgr_packing_inverts_word_conversion() {
    for v in [0u32, 1, 0xaabb_ccdd, 0xffff_ffff, 0x8000_0001] {
        let c = PixelColor::from(v);
        assert_eq!(BGRPixel::from(&c).raw().0, v);
    }
}

#[test]
fn pixel_layouts() {
    let c = PixelColor { red: 0x11, green: 0x22, blue: 0x33, alpha: 0x44 };
    let rgb = RGBPixel::from(&c);
    assert_eq!((rgb.red, rgb.green, rgb.blue, rgb.alpha), (0x11, 0x22, 0x33, 0x44));
    assert_eq!(rgb.raw().0.to_le_bytes(), [0x11, 0x22, 0x33, 0x44]);
    let bgr = BGRPixel::from(&c);
    assert_eq!(bgr.raw().0.to_le_bytes(), [0x33, 0x22, 0x11, 0x44]);
}

#[test]
fn palette_codes() {
    let all = [
        (Color::Black, 0),
        (Color::Blue, 1),
        (Color::Green, 2),
        (Color::Cyan, 3),
        (Color::Red, 4),
        (Color::Magenta, 5),
        (Color::Yellow, 6),
        (Color::White, 7),
    ];
    for (c, n) in all {
        assert_eq!(c.code(), n);
    }
}
