//! The address space: a fixed-size byte array with bounds-checked accessors,
//! a built-in font table in the reserved low region, and the program region
//! where ROM bytes are placed.
use vstd::prelude::*;

verus! {

use crate::{Fault, FONT_BASE, MEM_SIZE, ROM_CAPACITY, ROM_START};

/// The 16 five-byte font glyphs, one per hex digit 0-F, as the flat byte
/// sequence that sits at `FONT_BASE`.
pub open spec fn font_table() -> Seq<u8> {
    seq![
        0xF0u8, 0x90, 0x90, 0x90, 0xF0, // 0
        0x20, 0x60, 0x20, 0x20, 0x70, // 1
        0xF0, 0x10, 0xF0, 0x80, 0xF0, // 2
        0xF0, 0x10, 0xF0, 0x10, 0xF0, // 3
        0x90, 0x90, 0xF0, 0x10, 0x10, // 4
        0xF0, 0x80, 0xF0, 0x10, 0xF0, // 5
        0xF0, 0x80, 0xF0, 0x90, 0xF0, // 6
        0xF0, 0x10, 0x20, 0x40, 0x40, // 7
        0xF0, 0x90, 0xF0, 0x90, 0xF0, // 8
        0xF0, 0x90, 0xF0, 0x10, 0xF0, // 9
        0xF0, 0x90, 0xF0, 0x90, 0x90, // A
        0xE0, 0x90, 0xE0, 0x90, 0xE0, // B
        0xF0, 0x80, 0x80, 0x80, 0xF0, // C
        0xE0, 0x90, 0x90, 0x90, 0xE0, // D
        0xF0, 0x80, 0xF0, 0x80, 0xF0, // E
        0xF0, 0x80, 0xF0, 0x80, 0x80, // F
    ]
}

/// A memory with the font table written over its reserved low region and
/// every other byte kept.
pub open spec fn with_font(m: Seq<u8>) -> Seq<u8> {
    Seq::new(
        m.len(),
        |a: int|
            if FONT_BASE <= a < FONT_BASE + 80 {
                font_table()[a - FONT_BASE]
            } else {
                m[a]
            },
    )
}

/// Law: loading the font is idempotent — writing the fixed table a second
/// time changes nothing, whatever the memory held.
pub proof fn lemma_with_font_idempotent(m: Seq<u8>)
    ensures
        with_font(with_font(m)) == with_font(m),
{
    assert(with_font(with_font(m)) =~= with_font(m));
}

/// The addressable byte memory. Every address in 0x000..MEM_SIZE maps to one
/// byte; nothing outside that range is ever dereferenced.
pub struct Memory {
    bytes: Vec<u8>,
}

impl View for Memory {
    type V = Seq<u8>;

    closed spec fn view(&self) -> Seq<u8> {
        self.bytes@
    }
}

impl Memory {
    pub open spec fn wf(&self) -> bool {
        self@.len() == MEM_SIZE
    }

    /// Fresh memory with every byte zero.
    pub fn new() -> (m: Memory)
        ensures
            m.wf(),
            forall|a: int| 0 <= a < MEM_SIZE ==> m@[a] == 0u8,
    {
        let mut bytes: Vec<u8> = Vec::new();
        while bytes.len() < MEM_SIZE
            invariant
                bytes@.len() <= MEM_SIZE,
                forall|a: int| 0 <= a < bytes@.len() ==> bytes@[a] == 0u8,
            decreases MEM_SIZE - bytes@.len(),
        {
            bytes.push(0u8);
        }
        Memory { bytes }
    }

    /// Bounds-checked single-byte read.
    pub fn read_byte(&self, addr: u16) -> (r: Result<u8, Fault>)
        requires
            self.wf(),
        ensures
            match r {
                Ok(b) => addr < MEM_SIZE && b == self@[addr as int],
                Err(f) => addr >= MEM_SIZE && f == Fault::MemoryOutOfBounds(addr),
            },
    {
        if (addr as usize) < MEM_SIZE {
            Ok(self.bytes[addr as usize])
        } else {
            Err(Fault::MemoryOutOfBounds(addr))
        }
    }

    /// Bounds-checked single-byte write; out of range, memory is untouched.
    pub fn write_byte(&mut self, addr: u16, value: u8) -> (r: Result<(), Fault>)
        requires
            old(self).wf(),
        ensures
            final(self).wf(),
            match r {
                Ok(()) => addr < MEM_SIZE && final(self)@ == old(self)@.update(
                    addr as int,
                    value,
                ),
                Err(f) => addr >= MEM_SIZE && f == Fault::MemoryOutOfBounds(addr) && final(self)@
                    == old(self)@,
            },
    {
        if (addr as usize) < MEM_SIZE {
            self.bytes.set(addr as usize, value);
            Ok(())
        } else {
            Err(Fault::MemoryOutOfBounds(addr))
        }
    }

    /// Reads two consecutive bytes big-endian: the high byte at `addr`, the
    /// low byte at `addr + 1`.
    pub fn fetch_word(&self, addr: u16) -> (r: Result<u16, Fault>)
        requires
            self.wf(),
        ensures
            match r {
                Ok(w) => addr + 1 < MEM_SIZE && w == self@[addr as int] * 256 + self@[addr as int
                    + 1],
                Err(f) => addr + 1 >= MEM_SIZE && f == Fault::MemoryOutOfBounds(addr),
            },
    {
        if (addr as usize) + 1 < MEM_SIZE {
            let high = self.bytes[addr as usize];
            let low = self.bytes[addr as usize + 1];
            let word = ((high as u16) << 8) | (low as u16);
            proof {
                let h = high as u16;
                let l = low as u16;
                assert(h < 256 && l < 256 ==> ((h << 8) | l) == h * 256 + l) by (bit_vector);
            }
            Ok(word)
        } else {
            Err(Fault::MemoryOutOfBounds(addr))
        }
    }

    /// Unchecked read for callers that have already established bounds.
    pub(crate) fn byte_at(&self, addr: usize) -> (b: u8)
        requires
            self.wf(),
            addr < MEM_SIZE,
        ensures
            b == self@[addr as int],
    {
        self.bytes[addr]
    }

    /// Unchecked write for callers that have already established bounds.
    pub(crate) fn set_byte_at(&mut self, addr: usize, value: u8)
        requires
            old(self).wf(),
            addr < MEM_SIZE,
        ensures
            final(self).wf(),
            final(self)@ == old(self)@.update(addr as int, value),
    {
        self.bytes.set(addr, value);
    }

    /// Writes the font table into the reserved low region: afterwards the
    /// memory is `with_font` of what it was.
    pub fn load_font(&mut self)
        requires
            old(self).wf(),
        ensures
            final(self).wf(),
            final(self)@ == with_font(old(self)@),
    {
        let glyphs = font_bytes();
        let base = FONT_BASE as usize;
        let mut j: usize = 0;
        while j < 80
            invariant
                self.wf(),
                glyphs@ == font_table(),
                base == FONT_BASE,
                j <= 80,
                forall|k: int| 0 <= k < j ==> self@[base + k] == font_table()[k],
                forall|a: int|
                    0 <= a < MEM_SIZE && !(base <= a < base + j) ==> self@[a] == old(self)@[a],
            decreases 80 - j,
        {
            self.bytes.set(base + j, glyphs[j]);
            j = j + 1;
        }
        proof {
            assert(self@ =~= with_font(old(self)@));
        }
    }

    /// Copies the ROM bytes into the program region starting at `ROM_START`.
    /// A ROM larger than the region's capacity is rejected whole: memory is
    /// left unmodified.
    pub fn load_rom(&mut self, rom: &Vec<u8>) -> (r: Result<(), Fault>)
        requires
            old(self).wf(),
        ensures
            final(self).wf(),
            match r {
                Ok(()) => {
                    &&& rom@.len() <= ROM_CAPACITY
                    &&& forall|j: int|
                        0 <= j < rom@.len() ==> final(self)@[ROM_START + j] == rom@[j]
                    &&& forall|a: int|
                        0 <= a < MEM_SIZE && !(ROM_START <= a < ROM_START + rom@.len())
                            ==> final(self)@[a] == old(self)@[a]
                },
                Err(f) => {
                    &&& rom@.len() > ROM_CAPACITY
                    &&& f == Fault::RomTooLarge
                    &&& final(self)@ == old(self)@
                },
            },
    {
        if rom.len() > ROM_CAPACITY {
            return Err(Fault::RomTooLarge);
        }
        let base = ROM_START as usize;
        let mut j: usize = 0;
        while j < rom.len()
            invariant
                self.wf(),
                base == ROM_START,
                rom@.len() <= ROM_CAPACITY,
                j <= rom@.len(),
                forall|k: int| 0 <= k < j ==> self@[base + k] == rom@[k],
                forall|a: int|
                    0 <= a < MEM_SIZE && !(base <= a < base + j) ==> self@[a] == old(self)@[a],
            decreases rom@.len() - j,
        {
            self.bytes.set(base + j, rom[j]);
            j = j + 1;
        }
        Ok(())
    }
}

/// The font table as executable bytes, in glyph order.
fn font_bytes() -> (v: Vec<u8>)
    ensures
        v@ == font_table(),
{
    let mut v: Vec<u8> = Vec::new();
    push_glyph(&mut v, 0xF0, 0x90, 0x90, 0x90, 0xF0);
    push_glyph(&mut v, 0x20, 0x60, 0x20, 0x20, 0x70);
    push_glyph(&mut v, 0xF0, 0x10, 0xF0, 0x80, 0xF0);
    push_glyph(&mut v, 0xF0, 0x10, 0xF0, 0x10, 0xF0);
    push_glyph(&mut v, 0x90, 0x90, 0xF0, 0x10, 0x10);
    push_glyph(&mut v, 0xF0, 0x80, 0xF0, 0x10, 0xF0);
    push_glyph(&mut v, 0xF0, 0x80, 0xF0, 0x90, 0xF0);
    push_glyph(&mut v, 0xF0, 0x10, 0x20, 0x40, 0x40);
    push_glyph(&mut v, 0xF0, 0x90, 0xF0, 0x90, 0xF0);
    push_glyph(&mut v, 0xF0, 0x90, 0xF0, 0x10, 0xF0);
    push_glyph(&mut v, 0xF0, 0x90, 0xF0, 0x90, 0x90);
    push_glyph(&mut v, 0xE0, 0x90, 0xE0, 0x90, 0xE0);
    push_glyph(&mut v, 0xF0, 0x80, 0x80, 0x80, 0xF0);
    push_glyph(&mut v, 0xE0, 0x90, 0x90, 0x90, 0xE0);
    push_glyph(&mut v, 0xF0, 0x80, 0xF0, 0x80, 0xF0);
    push_glyph(&mut v, 0xF0, 0x80, 0xF0, 0x80, 0x80);
    proof {
        assert(v@ =~= font_table());
    }
    v
}

/// Appends one five-byte glyph.
fn push_glyph(v: &mut Vec<u8>, b0: u8, b1: u8, b2: u8, b3: u8, b4: u8)
    ensures
        final(v)@ == old(v)@ + seq![b0, b1, b2, b3, b4],
{
    v.push(b0);
    v.push(b1);
    v.push(b2);
    v.push(b3);
    v.push(b4);
    proof {
        assert(v@ =~= old(v)@ + seq![b0, b1, b2, b3, b4]);
    }
}

} // verus!
