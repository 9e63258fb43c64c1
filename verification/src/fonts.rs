//! The built-in glyph table: a read-only bitmap font for the hexadecimal
//! digits 0 through F, burned into low memory when the machine is built.

use vstd::prelude::*;

verus! {

/// Number of bytes in one glyph bitmap (one byte per pixel row).
pub const HEX_DIGIT_BYTE_LENGTH: usize = 5;

/// Machine address of the first glyph byte.
pub const HEX_DIGIT_ADDR_START: u16 = 0x000;

/// The sixteen glyph bitmaps, five bytes each, digit 0 first. Each byte is
/// one pixel row, most significant bit leftmost.
pub const HEX_DIGIT_DATA: [u8; 80] = [
    0xF0, 0x90, 0x90, 0x90, 0xF0, // 0
    0x20, 0x60, 0x20, 0x20, 0x70, // 1
    0xF0, 0x10, 0xF0, 0x80, 0xF0, // 2
    0xF0, 0x10, 0xF0, 0x10, 0xF0, // 3
    0x90, 0x90, 0xF0, 0x10, 0x10, // 4
    0xF0, 0x80, 0xF0, 0x10, 0xF0, // 5
    0xF0, 0x80, 0xF0, 0x90, 0xF0, // 6
    0xF0, 0x10, 0x20, 0x40, 0x40, // 7
    0xF0, 0x90, 0xF0, 0x90, 0xF0, // 8
    0xF0, 0x90, 0xF0, 0x10, 0xF0, // 9
    0xF0, 0x90, 0xF0, 0x90, 0x90, // A
    0xE0, 0x90, 0xE0, 0x90, 0xE0, // B
    0xF0, 0x80, 0x80, 0x80, 0xF0, // C
    0xE0, 0x90, 0x90, 0x90, 0xE0, // D
    0xF0, 0x80, 0xF0, 0x80, 0xF0, // E
    0xF0, 0x80, 0xF0, 0x80, 0x80, // F
];

} // verus!
