//! The 4096-byte memory. Addresses 0x000 through 0x1FF are reserved and hold
//! the font table; a loaded program occupies bytes from 0x200 on. After
//! loading, only explicit store opcodes write into memory.

use vstd::prelude::*;
use crate::fault::Fault;
use crate::font::{get_character_set, glyph_rows, FONT_CHARACTERS, FONT_ROWS_PER_GLYPH};

verus! {

/// Total number of memory bytes.
pub const MEMORY_SIZE: usize = 4096;

/// First address of the program space; everything below is reserved.
pub const PROGRAM_START: usize = 512;

/// Number of reserved bytes the font table occupies.
pub const FONT_TABLE_SIZE: usize = 80;

/// `mem` with the font table written over its first bytes: byte `j` of the
/// table is row `j % 5` of the glyph for character `j / 5`.
pub open spec fn with_fonts(mem: Seq<u8>) -> Seq<u8> {
    Seq::new(
        mem.len(),
        |j: int|
            if 0 <= j < FONT_TABLE_SIZE {
                glyph_rows(j / 5)[j % 5]
            } else {
                mem[j]
            },
    )
}

/// `mem` with `rom` overlaid at the program start.
pub open spec fn with_rom(mem: Seq<u8>, rom: Seq<u8>) -> Seq<u8> {
    Seq::new(
        mem.len(),
        |j: int|
            if PROGRAM_START <= j < PROGRAM_START + rom.len() {
                rom[j - PROGRAM_START]
            } else {
                mem[j]
            },
    )
}

/// The random-access memory of one virtual machine.
pub struct Memory {
    ram: Vec<u8>,
}

impl View for Memory {
    type V = Seq<u8>;

    closed spec fn view(&self) -> Seq<u8> {
        self.ram@
    }
}

impl Memory {
    /// Memory has its full fixed size.
    pub open spec fn wf(&self) -> bool {
        self@.len() == MEMORY_SIZE
    }

    /// Fresh memory, all bytes zero.
    pub fn new() -> (r: Memory)
        ensures
            r.wf(),
            r@ == Seq::new(MEMORY_SIZE as nat, |j: int| 0u8),
    {
        let ram: Vec<u8> = vec![0u8; MEMORY_SIZE];
        proof {
            assert(ram@ =~= Seq::new(MEMORY_SIZE as nat, |j: int| 0u8));
        }
        Memory { ram }
    }

    /// Writes the font table into the reserved area, five bytes per
    /// character in character order, leaving the rest of memory alone.
    pub fn set_fonts(&mut self)
        requires
            old(self).wf(),
        ensures
            final(self).wf(),
            final(self)@ == with_fonts(old(self)@),
    {
        let fonts = get_character_set();
        let mut c: usize = 0;
        while c < FONT_CHARACTERS
            invariant
                self.wf(),
                old(self)@.len() == MEMORY_SIZE,
                fonts@.len() == FONT_CHARACTERS,
                forall|k: int| 0 <= k < FONT_CHARACTERS ==> (#[trigger] fonts@[k])@ == glyph_rows(k),
                c <= FONT_CHARACTERS,
                forall|j: int| 0 <= j < c * 5 ==> self@[j] == #[trigger] with_fonts(old(self)@)[j],
                forall|j: int| c * 5 <= j < MEMORY_SIZE ==> self@[j] == old(self)@[j],
            decreases FONT_CHARACTERS - c,
        {
            let glyph = fonts[c];
            let mut k: usize = 0;
            while k < FONT_ROWS_PER_GLYPH
                invariant
                    self.wf(),
                    old(self)@.len() == MEMORY_SIZE,
                    c < FONT_CHARACTERS,
                    glyph@ == glyph_rows(c as int),
                    k <= FONT_ROWS_PER_GLYPH,
                    forall|j: int|
                        0 <= j < c * 5 + k ==> self@[j] == #[trigger] with_fonts(old(self)@)[j],
                    forall|j: int| c * 5 + k <= j < MEMORY_SIZE ==> self@[j] == old(self)@[j],
                decreases FONT_ROWS_PER_GLYPH - k,
            {
                let address = c * 5 + k;
                self.ram[address] = glyph[k];
                proof {
                    assert(address as int / 5 == c && address as int % 5 == k) by (nonlinear_arith)
                        requires
                            c < 16,
                            k < 5,
                            address == c * 5 + k,
                    ;
                    assert(glyph_rows(c as int).len() == 5);
                    assert(with_fonts(old(self)@)[address as int] == glyph_rows(c as int)[k as int]);
                    assert(self@[address as int] == glyph_rows(c as int)[k as int]);
                }
                k = k + 1;
            }
            c = c + 1;
        }
        proof {
            assert(self@ =~= with_fonts(old(self)@));
        }
    }

    /// Reads the byte at `address` without a bounds test.
    pub(crate) fn peek(&self, address: usize) -> (r: u8)
        requires
            self.wf(),
            address < MEMORY_SIZE,
        ensures
            r == self@[address as int],
    {
        self.ram[address]
    }

    /// Writes the byte at `address` without a bounds test.
    pub(crate) fn poke(&mut self, address: usize, value: u8)
        requires
            old(self).wf(),
            address < MEMORY_SIZE,
        ensures
            final(self).wf(),
            final(self)@ == old(self)@.update(address as int, value),
    {
        self.ram[address] = value;
    }

    /// Reads the byte at `address`; an address past the end of memory is the
    /// `MemoryOutOfBounds` fault.
    pub fn read(&self, address: usize) -> (r: Result<u8, Fault>)
        requires
            self.wf(),
        ensures
            address < MEMORY_SIZE ==> r == Ok::<u8, Fault>(self@[address as int]),
            address >= MEMORY_SIZE ==> r == Err::<u8, Fault>(Fault::MemoryOutOfBounds),
    {
        if address < MEMORY_SIZE {
            Ok(self.ram[address])
        } else {
            Err(Fault::MemoryOutOfBounds)
        }
    }

    /// Writes `value` at `address`; an address past the end of memory is the
    /// `MemoryOutOfBounds` fault and leaves memory unchanged.
    pub fn write(&mut self, address: usize, value: u8) -> (r: Result<(), Fault>)
        requires
            old(self).wf(),
        ensures
            final(self).wf(),
            address < MEMORY_SIZE ==> r == Ok::<(), Fault>(())
                && final(self)@ == old(self)@.update(address as int, value),
            address >= MEMORY_SIZE ==> r == Err::<(), Fault>(Fault::MemoryOutOfBounds)
                && final(self)@ == old(self)@,
    {
        if address < MEMORY_SIZE {
            self.ram[address] = value;
            Ok(())
        } else {
            Err(Fault::MemoryOutOfBounds)
        }
    }

    /// The whole memory, for fetching and presentation.
    pub fn get_memory(&self) -> (r: &Vec<u8>)
        ensures
            r@ == self@,
    {
        &self.ram
    }

    /// Copies a program image into the program space; an image longer than
    /// the space above the reserved area is the `OutOfSpace` fault and leaves
    /// memory unchanged.
    pub fn set_rom(&mut self, rom: &Vec<u8>) -> (r: Result<(), Fault>)
        requires
            old(self).wf(),
        ensures
            final(self).wf(),
            rom@.len() <= MEMORY_SIZE - PROGRAM_START ==> r == Ok::<(), Fault>(())
                && final(self)@ == with_rom(old(self)@, rom@),
            rom@.len() > MEMORY_SIZE - PROGRAM_START ==> r == Err::<(), Fault>(Fault::OutOfSpace)
                && final(self)@ == old(self)@,
    {
        let rom_len = rom.len();
        if rom_len <= MEMORY_SIZE - PROGRAM_START {
            let mut i: usize = 0;
            while i < rom_len
                invariant
                    self.wf(),
                    old(self)@.len() == MEMORY_SIZE,
                    rom_len == rom@.len(),
                    rom_len <= MEMORY_SIZE - PROGRAM_START,
                    i <= rom_len,
                    forall|j: int|
                        PROGRAM_START <= j < PROGRAM_START + i ==> self@[j] == rom@[j
                            - PROGRAM_START],
                    forall|j: int|
                        0 <= j < MEMORY_SIZE && !(PROGRAM_START <= j < PROGRAM_START + i)
                            ==> self@[j] == old(self)@[j],
                decreases rom_len - i,
            {
                self.ram[PROGRAM_START + i] = rom[i];
                i = i + 1;
            }
            proof {
                assert(self@ =~= with_rom(old(self)@, rom@));
            }
            Ok(())
        } else {
            Err(Fault::OutOfSpace)
        }
    }
}

} // verus!
