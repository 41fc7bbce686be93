use pi::font::{CP850Font, Font, BACK, BELL, BYTES_PER_CHAR, CR, DEL, LF};

fn table(glyphs: usize) -> Vec<u8> {
    (0..glyphs * BYTES_PER_CHAR).map(|i| (i % 251) as u8).collect()
}

#[test]
fn control_bytes() {
    assert_eq!((CR, LF, BELL, BACK, DEL), (b'\r', b'\n', 7, 8, 127));
}

#[test]
fn cp850_shape() {
    let f = CP850Font::new(table(256));
    assert_eq!(f.len(), 256);
    assert_eq!((f.char_size(), f.char_height(), f.char_width()), (16, 16, 8));
    let f = CP850Font::new(vec![0u8; 16 * 3 + 5]);
    assert_eq!(f.len(), 3);
}

#[test]
fn cp850_glyph_lines() {
    let data = table(128);
    let f = CP850Font::new(data.clone());
    assert_eq!(f.get_byte(b'A', 3), data[65 * 16 + 3]);
    assert_eq!(f.get_byte(0, 15), data[15]);
    // Bytes the font does not hold are drawn with glyph 0.
    assert_eq!(f.get_byte(200, 5), data[5]);
}

fn psf2(header_size: u32, count: u32, size: u32, height: u32, width: u32, body: &[u8]) -> Vec<u8> {
    let mut v = Vec::new();
    for w in [0x864A_B572u32, 0, header_size, 0, count, size, height, width] {
        v.extend_from_slice(&w.to_le_bytes());
    }
    v.extend_from_slice(body);
    v
}

#[test]
fn psf2_header_is_recognised() {
    let raw = psf2(32, 2, 16, 16, 8, &[0u8; 32]);
    assert!(Font::is_psf2(&raw));
    let mut bad = raw.clone();
    bad[0] = 0;
    assert!(!Font::is_psf2(&bad));
    assert!(!Font::is_psf2(&raw[..31].to_vec()));
}

#[test]
fn psf2_fields_and_glyph_bytes() {
    let body: Vec<u8> = (0..64u8).map(|i| i * 3).collect();
    // 12 pixels wide: two bytes per line, 4 lines, 8 bytes per glyph.
    let raw = psf2(32, 8, 8, 4, 12, &body);
    let f = Font::new(raw);
    assert_eq!(f.len(), 8);
    assert_eq!((f.char_size(), f.char_height(), f.char_width()), (8, 4, 12));
    assert_eq!(f.bytes_per_line(), 2);
    // glyph 3, line 2: offset 32 + 3 * 8 + 2 * 2 within the file.
    assert_eq!(f.get_byte(3, 2), body[3 * 8 + 2 * 2]);
}

#[test]
fn psf2_missing_glyph_uses_question_mark() {
    let body: Vec<u8> = (0..=255u8).cycle().take(64 * 16 + 16).collect();
    let raw = psf2(32, 64, 16, 16, 8, &body);
    let f = Font::new(raw);
    assert_eq!(f.get_byte(200, 1), body[63 * 16 + 1]);
    assert_eq!(f.get_byte(10, 1), body[10 * 16 + 1]);
}

#[test]
fn bytes_per_line_rounds_up() {
    for (w, n) in [(1u32, 1usize), (8, 1), (9, 2), (16, 2), (17, 3)] {
        let f = Font::new(psf2(32, 0, 0, 0, w, &[]));
        assert_eq!(f.bytes_per_line(), n);
    }
}
