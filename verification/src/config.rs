//! Configuration of the CHIP-8 machine.

use vstd::prelude::*;

use crate::fonts::{font_4x5_chip8, Font4x5};

verus! {

/// Defines the configuration of the CHIP-8 system being simulated.
///
/// These settings account for various historical implementation oddities and
/// also allow for modern instruction set enhancements.
#[derive(Copy, Clone, Debug)]
pub struct Config {
    /// The size of RAM in bytes.
    pub ram_bytes: usize,
    /// The number of addresses that can be placed on the call stack.
    pub stack_size: usize,
    /// The number of pixels in the frame buffer.
    pub vram_size: usize,
    /// The base address where a program is loaded.
    pub addr_program: usize,
    /// The base address where the small system font is loaded.
    pub addr_font: usize,
    /// The base address assigned to the big system font.
    pub addr_font_big: usize,
    /// The small font table.
    pub font_small: Font4x5,
    /// The big font table.
    pub font_big: Font4x5,
    /// When true, shifts modify vX in place and ignore vY.
    pub quirk_shift: bool,
    /// Enables the base CHIP-8 instruction table.
    pub isa_chip8: bool,
    /// Enables the SUPERCHIP instruction table.
    pub isa_superchip: bool,
    /// Enables the XO-CHIP instruction table.
    pub isa_xochip: bool,
}

impl Config {
    /// A configuration the machine can actually be built from: addresses fit
    /// the 16-bit address space, the small font fits in RAM, and the frame
    /// buffer has the fixed 64 x 32 layout that the drawing operations use.
    pub open spec fn wf(self) -> bool {
        &&& self.ram_bytes <= 0x10000
        &&& self.addr_font + 80 <= self.ram_bytes
        &&& self.addr_program < self.ram_bytes
        &&& self.addr_font_big <= 0x10000
        &&& self.vram_size == 64 * 32
    }

    /// Returns a new Config, using the default machine description.
    pub fn new() -> (c: Config)
        ensures
            is_cosmac_vip(c),
            c.wf(),
    {
        cosmac_vip()
    }
}

impl Default for Config {
    fn default() -> (c: Config)
        ensures
            is_cosmac_vip(c),
            c.wf(),
    {
        cosmac_vip()
    }
}

/// Describes the configuration of a stock COSMAC VIP: 2 KiB of RAM, a twelve
/// frame call stack, a 64 x 32 frame buffer, programs at 0x200, the canonical
/// font at 0x000, and only the base CHIP-8 table enabled. Both font tables
/// hold the canonical CHIP-8 glyphs, the bitmaps the machine's hexadecimal
/// digit rendering is pinned to.
pub open spec fn is_cosmac_vip(c: Config) -> bool {
    &&& c.ram_bytes == 2048
    &&& c.stack_size == 12
    &&& c.vram_size == 64 * 32
    &&& c.addr_program == 0x0200
    &&& c.addr_font == 0x0000
    &&& c.addr_font_big == 0x0050
    &&& c.font_small@ == crate::fonts::font_4x5_chip8_spec()
    &&& c.font_big@ == crate::fonts::font_4x5_chip8_spec()
    &&& c.quirk_shift == false
    &&& c.isa_chip8 == true
    &&& c.isa_superchip == false
    &&& c.isa_xochip == false
}

/// Builds the configuration of a stock COSMAC VIP.
pub fn cosmac_vip() -> (c: Config)
    ensures
        is_cosmac_vip(c),
        c.wf(),
{
    let font = font_4x5_chip8();
    Config {
        ram_bytes: 2048,
        stack_size: 12,
        vram_size: 64 * 32,
        addr_program: 0x0200,
        addr_font: 0x0000,
        addr_font_big: 0x0050,
        font_small: font,
        font_big: font,
        quirk_shift: false,
        isa_chip8: true,
        isa_superchip: false,
        isa_xochip: false,
    }
}

} // verus!
