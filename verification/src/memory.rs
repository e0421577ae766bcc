//! Memory: a flat addressable array of 4096 bytes.
//!
//! All addressing is total: an address is reduced modulo 4096 (the
//! 12-bit address space) before it is dereferenced, so neither reads
//! nor writes can fail. The reserved low region is preloaded with the
//! built-in glyph font at initialization.

use vstd::prelude::*;
use crate::font::{font_set, font_set_spec, FONT_SET_LEN};

verus! {

/// Number of addressable bytes: the 12-bit address space.
pub const MEMORY_SIZE: usize = 4096;

/// Address of the first font byte inside the reserved region.
pub const FONT_BASE: usize = 0x50;

/// The memory contents right after initialization: the font table at
/// `FONT_BASE`, zero everywhere else.
pub open spec fn initial_memory() -> Seq<u8> {
    Seq::new(
        MEMORY_SIZE as nat,
        |i: int|
            if FONT_BASE <= i < FONT_BASE + FONT_SET_LEN {
                font_set_spec()[i - FONT_BASE]
            } else {
                0u8
            },
    )
}

/// The CHIP-8 memory: 4096 mutable bytes.
pub struct Memory {
    /// The bytes, addresses `0x000`-`0xFFF`.
    pub bytes: Vec<u8>,
}

impl Memory {
    /// Memory is well formed when it spans exactly the 12-bit address
    /// space.
    pub open spec fn wf(self) -> bool {
        self.bytes@.len() == MEMORY_SIZE
    }

    /// Creates memory that is zero everywhere except for the font
    /// table, preloaded at `FONT_BASE`.
    pub fn new() -> (r: Memory)
        ensures
            r.wf(),
            r.bytes@ == initial_memory(),
    {
        let mut bytes: Vec<u8> = Vec::new();
        let mut i: usize = 0;
        while i < MEMORY_SIZE
            invariant
                i <= MEMORY_SIZE,
                bytes@.len() == i,
                forall|j: int| 0 <= j < i ==> bytes@[j] == 0u8,
            decreases MEMORY_SIZE - i,
        {
            bytes.push(0);
            i = i + 1;
        }
        let font = font_set();
        let mut k: usize = 0;
        while k < FONT_SET_LEN
            invariant
                k <= FONT_SET_LEN,
                bytes@.len() == MEMORY_SIZE,
                font@ == font_set_spec(),
                forall|j: int|
                    0 <= j < MEMORY_SIZE && !(FONT_BASE <= j < FONT_BASE + k) ==> bytes@[j]
                        == 0u8,
                forall|j: int|
                    FONT_BASE <= j < FONT_BASE + k ==> bytes@[j] == font_set_spec()[j - FONT_BASE],
            decreases FONT_SET_LEN - k,
        {
            bytes.set(FONT_BASE + k, font[k]);
            k = k + 1;
        }
        let m = Memory { bytes };
        proof {
            assert(m.bytes@ =~= initial_memory());
        }
        m
    }

    /// Reads the byte at `address`, reduced modulo 4096.
    pub fn read(&self, address: u16) -> (b: u8)
        requires
            self.wf(),
        ensures
            b == self.bytes@[address as int % (MEMORY_SIZE as int)],
    {
        let idx: usize = (address as usize) % MEMORY_SIZE;
        self.bytes[idx]
    }

    /// Writes `byte` at `address`, reduced modulo 4096.
    pub fn write(&mut self, address: u16, byte: u8)
        requires
            old(self).wf(),
        ensures
            final(self).wf(),
            final(self).bytes@ == old(self).bytes@.update(
                address as int % (MEMORY_SIZE as int),
                byte,
            ),
    {
        let idx: usize = (address as usize) % MEMORY_SIZE;
        self.bytes.set(idx, byte);
    }
}

} // verus!
