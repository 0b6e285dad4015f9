use chip8::fonts::{font_4x5_chip8, Font4x5};

#[test]
fn test_font4x5() {
    const CHIP8_REFERENCE_FONT: Font4x5 =
        [0xF0, 0x90, 0x90, 0x90, 0xF0 /* 0 */, 0x20, 0x60, 0x20, 0x20, 0x70 /* 1 */,
         0xF0, 0x10, 0xF0, 0x80, 0xF0 /* 2 */, 0xF0, 0x10, 0xF0, 0x10, 0xF0 /* 3 */,
         0x90, 0x90, 0xF0, 0x10, 0x10 /* 4 */, 0xF0, 0x80, 0xF0, 0x10, 0xF0 /* 5 */,
         0xF0, 0x80, 0xF0, 0x90, 0xF0 /* 6 */, 0xF0, 0x10, 0x20, 0x40, 0x40 /* 7 */,
         0xF0, 0x90, 0xF0, 0x90, 0xF0 /* 8 */, 0xF0, 0x90, 0xF0, 0x10, 0xF0 /* 9 */,
         0xF0, 0x90, 0xF0, 0x90, 0x90 /* A */, 0xE0, 0x90, 0xE0, 0x90, 0xE0 /* B */,
         0xF0, 0x80, 0x80, 0x80, 0xF0 /* C */, 0xE0, 0x90, 0x90, 0x90, 0xE0 /* D */,
         0xF0, 0x80, 0xF0, 0x80, 0xF0 /* E */, 0xF0, 0x80, 0xF0, 0x80, 0x80 /* F */];

    for (i, glyph) in font_4x5_chip8().iter().enumerate() {
        let re_glyph = CHIP8_REFERENCE_FONT[i];
        println!("Glyph {:X}.{}: {:08b} ?= {:08b}",
                 i / 5,
                 i % 5,
                 glyph,
                 re_glyph);
        assert_eq!(*glyph, re_glyph);
    }
}

#[test]
fn test_font_tables_shape() {
    let small = chip8::fonts::font_4x5_chip8();
    let smooth = chip8::fonts::font_4x5_smooth();
    assert_eq!(small.len(), 80);
    assert_eq!(smooth.len(), 80);
    // every glyph row uses only the high nibble
    for row in small.iter().chain(smooth.iter()) {
        assert_eq!(row & 0x0F, 0);
    }
    // the two tables drawn from different designs differ somewhere
    assert!(small.iter().zip(smooth.iter()).any(|(a, b)| a != b));
}
