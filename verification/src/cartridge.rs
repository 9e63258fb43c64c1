//! A program image: the raw byte sequence that the loader hands to the
//! engine. Reading one from storage is the platform layer's job; here the
//! image is plain data with the load-size rule attached.

use vstd::prelude::*;

use crate::cpu::MAX_ROM_SIZE;

verus! {

/// A program image, written verbatim into machine memory at load.
pub struct Cartridge {
    pub rom: Vec<u8>,
}

impl Cartridge {
    /// Wraps a byte sequence as a program image.
    pub fn new(rom: Vec<u8>) -> (r: Cartridge)
        ensures
            r.rom@ == rom@,
    {
        Cartridge { rom }
    }

    /// Whether the image fits in the loadable region of machine memory:
    /// exactly the images the engine's load accepts.
    pub fn fits(&self) -> (r: bool)
        ensures
            r == (self.rom@.len() <= MAX_ROM_SIZE),
    {
        self.rom.len() <= MAX_ROM_SIZE
    }
}

} // verus!
