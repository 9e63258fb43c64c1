//! A small fixed-instruction-set virtual machine: a byte-code computer with
//! sixteen 8-bit registers, 4096 bytes of memory, a 64x32 monochrome
//! framebuffer, and a sixteen-key input pad. The machine state and the
//! per-instruction semantics live here, each operation with a contract that
//! pins its effect on the state down exactly.

pub mod cartridge;
pub mod fonts;
pub mod input;
pub mod isa;
pub mod laws;
pub mod cpu;

use vstd::prelude::*;

verus! {

/// Width of the framebuffer in pixels.
pub const DISPLAY_WIDTH: usize = 64;

/// Height of the framebuffer in pixels.
pub const DISPLAY_HEIGHT: usize = 32;

} // verus!
