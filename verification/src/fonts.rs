//! The built-in 4x5 hexadecimal glyph tables.
//!
//! Each glyph is five bytes tall and uses the most significant four bits of
//! every byte, so a full table of sixteen glyphs is eighty bytes.

use vstd::prelude::*;

verus! {

/// Font selector injected by the instruction table for the small font.
pub const CODE_SMALL: usize = 0;

/// Font selector injected by the instruction table for the big font.
pub const CODE_BIG: usize = 1;

/// A table of sixteen 4x5 glyphs, five bytes per glyph.
pub type Font4x5 = [MemoryCell; 80];

use crate::types::MemoryCell;

/// The contents of the canonical CHIP-8 font, one byte per glyph row.
pub open spec fn font_4x5_chip8_spec() -> Seq<u8> {
    seq![
        0xF0u8, 0x90, 0x90, 0x90, 0xF0, // 0
        0x20, 0x60, 0x20, 0x20, 0x70, // 1
        0xF0, 0x10, 0xF0, 0x80, 0xF0, // 2
        0xF0, 0x10, 0xF0, 0x10, 0xF0, // 3
        0x90, 0x90, 0xF0, 0x10, 0x10, // 4
        0xF0, 0x80, 0xF0, 0x10, 0xF0, // 5
        0xF0, 0x80, 0xF0, 0x90, 0xF0, // 6
        0xF0, 0x10, 0x20, 0x40, 0x40, // 7
        0xF0, 0x90, 0xF0, 0x90, 0xF0, // 8
        0xF0, 0x90, 0xF0, 0x10, 0xF0, // 9
        0xF0, 0x90, 0xF0, 0x90, 0x90, // A
        0xE0, 0x90, 0xE0, 0x90, 0xE0, // B
        0xF0, 0x80, 0x80, 0x80, 0xF0, // C
        0xE0, 0x90, 0x90, 0x90, 0xE0, // D
        0xF0, 0x80, 0xF0, 0x80, 0xF0, // E
        0xF0, 0x80, 0xF0, 0x80, 0x80, // F
    ]
}

/// The canonical CHIP-8 font.
pub fn font_4x5_chip8() -> (r: Font4x5)
    ensures
        r@ == font_4x5_chip8_spec(),
{
    let r: Font4x5 = [
        0xF0, 0x90, 0x90, 0x90, 0xF0, // 0
        0x20, 0x60, 0x20, 0x20, 0x70, // 1
        0xF0, 0x10, 0xF0, 0x80, 0xF0, // 2
        0xF0, 0x10, 0xF0, 0x10, 0xF0, // 3
        0x90, 0x90, 0xF0, 0x10, 0x10, // 4
        0xF0, 0x80, 0xF0, 0x10, 0xF0, // 5
        0xF0, 0x80, 0xF0, 0x90, 0xF0, // 6
        0xF0, 0x10, 0x20, 0x40, 0x40, // 7
        0xF0, 0x90, 0xF0, 0x90, 0xF0, // 8
        0xF0, 0x90, 0xF0, 0x10, 0xF0, // 9
        0xF0, 0x90, 0xF0, 0x90, 0x90, // A
        0xE0, 0x90, 0xE0, 0x90, 0xE0, // B
        0xF0, 0x80, 0x80, 0x80, 0xF0, // C
        0xE0, 0x90, 0x90, 0x90, 0xE0, // D
        0xF0, 0x80, 0xF0, 0x80, 0xF0, // E
        0xF0, 0x80, 0xF0, 0x80, 0x80, // F
    ];
    assert(r@ =~= font_4x5_chip8_spec());
    r
}

/// The contents of the rounded variant of the 4x5 font.
pub open spec fn font_4x5_smooth_spec() -> Seq<u8> {
    seq![
        0x60u8, 0x90, 0x90, 0x90, 0x60, // 0
        0x10, 0x30, 0x10, 0x10, 0x10, // 1
        0xF0, 0x10, 0xF0, 0x80, 0xF0, // 2
        0xF0, 0x10, 0x70, 0x10, 0xF0, // 3
        0x80, 0x90, 0xF0, 0x10, 0x10, // 4
        0xF0, 0x80, 0xE0, 0x10, 0xE0, // 5
        0x20, 0x40, 0xE0, 0x90, 0x60, // 6
        0x70, 0x10, 0x10, 0x10, 0x10, // 7
        0x60, 0x90, 0x60, 0x90, 0x60, // 8
        0x60, 0x90, 0x70, 0x20, 0x40, // 9
        0x60, 0x90, 0xF0, 0x90, 0x90, // A
        0xE0, 0x90, 0xE0, 0x90, 0xE0, // B
        0x70, 0x80, 0x80, 0x80, 0x70, // C
        0xE0, 0x90, 0x90, 0x90, 0xE0, // D
        0xF0, 0x80, 0xE0, 0x80, 0xF0, // E
        0xF0, 0x80, 0xF0, 0x80, 0x80, // F
    ]
}

/// A rounded 4x5 font, kept to show that different tables can be configured.
pub fn font_4x5_smooth() -> (r: Font4x5)
    ensures
        r@ == font_4x5_smooth_spec(),
{
    let r: Font4x5 = [
        0x60, 0x90, 0x90, 0x90, 0x60, // 0
        0x10, 0x30, 0x10, 0x10, 0x10, // 1
        0xF0, 0x10, 0xF0, 0x80, 0xF0, // 2
        0xF0, 0x10, 0x70, 0x10, 0xF0, // 3
        0x80, 0x90, 0xF0, 0x10, 0x10, // 4
        0xF0, 0x80, 0xE0, 0x10, 0xE0, // 5
        0x20, 0x40, 0xE0, 0x90, 0x60, // 6
        0x70, 0x10, 0x10, 0x10, 0x10, // 7
        0x60, 0x90, 0x60, 0x90, 0x60, // 8
        0x60, 0x90, 0x70, 0x20, 0x40, // 9
        0x60, 0x90, 0xF0, 0x90, 0x90, // A
        0xE0, 0x90, 0xE0, 0x90, 0xE0, // B
        0x70, 0x80, 0x80, 0x80, 0x70, // C
        0xE0, 0x90, 0x90, 0x90, 0xE0, // D
        0xF0, 0x80, 0xE0, 0x80, 0xF0, // E
        0xF0, 0x80, 0xF0, 0x80, 0x80, // F
    ];
    assert(r@ =~= font_4x5_smooth_spec());
    r
}

} // verus!
