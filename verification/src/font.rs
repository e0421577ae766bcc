//! The built-in glyph font: 16 glyphs of 5 bytes each, one per
//! hexadecimal digit `0`-`F`, preloaded into the reserved low region of
//! memory at machine initialization.

use vstd::prelude::*;

verus! {

/// Number of bytes in the font table: 16 glyphs of 5 bytes each.
pub const FONT_SET_LEN: usize = 80;

/// The font table as a mathematical sequence: glyph `d` occupies bytes
/// `5 * d .. 5 * d + 5`, most significant bit leftmost.
pub open spec fn font_set_spec() -> Seq<u8> {
    seq![
        0xF0u8, 0x90u8, 0x90u8, 0x90u8, 0xF0u8,  // 0
        0x20u8, 0x60u8, 0x20u8, 0x20u8, 0x70u8,  // 1
        0xF0u8, 0x10u8, 0xF0u8, 0x80u8, 0xF0u8,  // 2
        0xF0u8, 0x10u8, 0xF0u8, 0x10u8, 0xF0u8,  // 3
        0x90u8, 0x90u8, 0xF0u8, 0x10u8, 0x10u8,  // 4
        0xF0u8, 0x80u8, 0xF0u8, 0x10u8, 0xF0u8,  // 5
        0xF0u8, 0x80u8, 0xF0u8, 0x90u8, 0xF0u8,  // 6
        0xF0u8, 0x10u8, 0x20u8, 0x40u8, 0x40u8,  // 7
        0xF0u8, 0x90u8, 0xF0u8, 0x90u8, 0xF0u8,  // 8
        0xF0u8, 0x90u8, 0xF0u8, 0x10u8, 0xF0u8,  // 9
        0xF0u8, 0x90u8, 0xF0u8, 0x90u8, 0x90u8,  // A
        0xE0u8, 0x90u8, 0xE0u8, 0x90u8, 0xE0u8,  // B
        0xF0u8, 0x80u8, 0x80u8, 0x80u8, 0xF0u8,  // C
        0xE0u8, 0x90u8, 0x90u8, 0x90u8, 0xE0u8,  // D
        0xF0u8, 0x80u8, 0xF0u8, 0x80u8, 0xF0u8,  // E
        0xF0u8, 0x80u8, 0xF0u8, 0x80u8, 0x80u8,  // F
    ]
}

/// Builds the font table as a byte vector.
pub fn font_set() -> (r: Vec<u8>)
    ensures
        r@ == font_set_spec(),
        r@.len() == FONT_SET_LEN,
{
    let v: Vec<u8> = vec![
        0xF0, 0x90, 0x90, 0x90, 0xF0,
        0x20, 0x60, 0x20, 0x20, 0x70,
        0xF0, 0x10, 0xF0, 0x80, 0xF0,
        0xF0, 0x10, 0xF0, 0x10, 0xF0,
        0x90, 0x90, 0xF0, 0x10, 0x10,
        0xF0, 0x80, 0xF0, 0x10, 0xF0,
        0xF0, 0x80, 0xF0, 0x90, 0xF0,
        0xF0, 0x10, 0x20, 0x40, 0x40,
        0xF0, 0x90, 0xF0, 0x90, 0xF0,
        0xF0, 0x90, 0xF0, 0x10, 0xF0,
        0xF0, 0x90, 0xF0, 0x90, 0x90,
        0xE0, 0x90, 0xE0, 0x90, 0xE0,
        0xF0, 0x80, 0x80, 0x80, 0xF0,
        0xE0, 0x90, 0x90, 0x90, 0xE0,
        0xF0, 0x80, 0xF0, 0x80, 0xF0,
        0xF0, 0x80, 0xF0, 0x80, 0x80,
    ];
    v
}

} // verus!
