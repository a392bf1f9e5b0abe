//! The memory model: a flat 4096-byte address space holding the built-in
//! glyph table in its reserved low region and the loaded program at 0x200.
//!
//! Addresses are twelve bits wide. The engine masks every computed address
//! into [0, 0xFFF] before handing it to this module (the documented wrap
//! policy), so all reads and writes here require an in-range address.

use vstd::prelude::*;

verus! {

/// Size of the address space of the machine: addresses are 12 bits wide.
pub const RAM_SIZE: usize = 4096;

/// First address of the reserved low region.
pub const START_RESERVED: usize = 0x000;

/// First address past the reserved region; the loaded program starts here.
pub const END_RESERVED: usize = 0x200;

/// Last valid address.
pub const END_PROGRAM_SPACE: usize = 0xFFF;

/// The five-byte bitmap glyph of one hexadecimal digit, from the standard
/// hex-digit font.
pub open spec fn glyph(d: int) -> Seq<u8> {
    if d == 0 {
        seq![0xF0, 0x90, 0x90, 0x90, 0xF0]
    } else if d == 1 {
        seq![0x20, 0x60, 0x20, 0x20, 0x70]
    } else if d == 2 {
        seq![0xF0, 0x10, 0xF0, 0x80, 0xF0]
    } else if d == 3 {
        seq![0xF0, 0x10, 0xF0, 0x10, 0xF0]
    } else if d == 4 {
        seq![0x90, 0x90, 0xF0, 0x10, 0x10]
    } else if d == 5 {
        seq![0xF0, 0x80, 0xF0, 0x10, 0xF0]
    } else if d == 6 {
        seq![0xF0, 0x80, 0xF0, 0x90, 0xF0]
    } else if d == 7 {
        seq![0xF0, 0x10, 0x20, 0x40, 0x40]
    } else if d == 8 {
        seq![0xF0, 0x90, 0xF0, 0x90, 0xF0]
    } else if d == 9 {
        seq![0xF0, 0x90, 0xF0, 0x10, 0xF0]
    } else if d == 10 {
        seq![0xF0, 0x90, 0xF0, 0x90, 0x90]
    } else if d == 11 {
        seq![0xE0, 0x90, 0xE0, 0x90, 0xE0]
    } else if d == 12 {
        seq![0xF0, 0x80, 0x80, 0x80, 0xF0]
    } else if d == 13 {
        seq![0xE0, 0x90, 0x90, 0x90, 0xE0]
    } else if d == 14 {
        seq![0xF0, 0x80, 0xF0, 0x80, 0xF0]
    } else {
        seq![0xF0, 0x80, 0xF0, 0x80, 0x80]
    }
}

/// The byte held at address `a` of the 80-byte glyph table: glyph `a / 5`,
/// row `a % 5`.
pub open spec fn font_byte(a: int) -> u8 {
    glyph(a / 5)[a % 5]
}

/// Memory contents at boot: the glyph table at the bottom of the reserved
/// region, the ROM copied verbatim at the start of program space, and zeroes
/// everywhere else.
pub open spec fn boot_ram(rom: Seq<u8>) -> Seq<u8> {
    Seq::new(4096, |a: int| {
        if a < 80 {
            font_byte(a)
        } else if 0x200 <= a < 0x200 + rom.len() {
            rom[a - 0x200]
        } else {
            0u8
        }
    })
}

/// The byte-addressable memory of the machine.
pub struct Memory {
    ram: Vec<u8>,
}

impl View for Memory {
    type V = Seq<u8>;

    closed spec fn view(&self) -> Seq<u8> {
        self.ram@
    }
}

impl Memory {
    /// The memory always holds exactly one byte per address of the 12-bit
    /// address space.
    pub open spec fn wf(&self) -> bool {
        self@.len() == 4096
    }

    /// Allocate the address space and load a ROM into it: the program goes
    /// verbatim at the start of program space, the glyph table at the bottom
    /// of reserved memory, and everything else is zeroed.
    pub fn new(rom: Vec<u8>) -> (m: Memory)
        requires
            rom@.len() <= 4096 - 0x200,
        ensures
            m.wf(),
            m@ == boot_ram(rom@),
    {
        let mut ram: Vec<u8> = vec![0u8; RAM_SIZE];
        Memory::dump_rom(&mut ram, &rom);
        Memory::dump_fonts(&mut ram);
        proof {
            assert(ram@ =~= boot_ram(rom@));
        }
        Memory { ram }
    }

    /// The byte at `addr`.
    pub fn read(&self, addr: usize) -> (b: u8)
        requires
            self.wf(),
            addr < 4096,
        ensures
            b == self@[addr as int],
    {
        self.ram[addr]
    }

    /// Store `byte` at `addr`; single bytes have no endianness concern.
    pub fn write(&mut self, addr: usize, byte: u8)
        requires
            old(self).wf(),
            addr < 4096,
        ensures
            final(self).wf(),
            final(self)@ == old(self)@.update(addr as int, byte),
    {
        self.ram.set(addr, byte);
    }

    /// The 16-bit big-endian word whose first byte sits at `addr`. Used to
    /// fetch instructions, whose words are two bytes, big-endian.
    pub fn read_word(&self, addr: u16) -> (w: u16)
        requires
            self.wf(),
            addr as int + 1 < 4096,
        ensures
            w == self@[addr as int] * 256 + self@[addr as int + 1],
    {
        read_u16_be(&self.ram, addr as usize)
    }

    /// The address of the five-byte glyph for the hexadecimal digit `font`.
    pub fn get_font(&self, font: u8) -> (a: u16)
        ensures
            a == font * 5,
    {
        (font as u16) * 5
    }

    /// Copy the ROM into program space, byte for byte, starting right after
    /// the reserved region.
    fn dump_rom(ram: &mut Vec<u8>, rom: &Vec<u8>)
        requires
            old(ram)@.len() == 4096,
            rom@.len() <= 4096 - 0x200,
        ensures
            final(ram)@.len() == 4096,
            forall|k: int| 0 <= k < rom@.len() ==> final(ram)@[0x200 + k] == rom@[k],
            forall|a: int|
                0 <= a < 4096 && !(0x200 <= a < 0x200 + rom@.len()) ==> final(ram)@[a] == old(
                    ram,
                )@[a],
    {
        let mut k: usize = 0;
        while k < rom.len()
            invariant
                ram@.len() == 4096,
                rom@.len() <= 4096 - 0x200,
                k <= rom@.len(),
                forall|j: int| 0 <= j < k ==> ram@[0x200 + j] == rom@[j],
                forall|a: int|
                    0 <= a < 4096 && !(0x200 <= a < 0x200 + k) ==> ram@[a] == old(ram)@[a],
            decreases rom@.len() - k,
        {
            ram.set(0x200 + k, rom[k]);
            k += 1;
        }
    }

    /// Write the standard glyph table to the bottom of reserved memory. The
    /// glyphs are the only contents of the reserved region.
    fn dump_fonts(ram: &mut Vec<u8>)
        requires
            old(ram)@.len() == 4096,
        ensures
            final(ram)@.len() == 4096,
            forall|a: int| 0 <= a < 80 ==> final(ram)@[a] == font_byte(a),
            forall|a: int| 80 <= a < 4096 ==> final(ram)@[a] == old(ram)@[a],
    {
        let mut d: usize = 0;
        while d < 16
            invariant
                ram@.len() == 4096,
                d <= 16,
                forall|a: int| 0 <= a < 5 * d ==> ram@[a] == font_byte(a),
                forall|a: int| 5 * d <= a < 4096 ==> ram@[a] == old(ram)@[a],
            decreases 16 - d,
        {
            Memory::write_glyph(ram, d);
            d += 1;
        }
    }

    /// Write the five rows of one glyph at its slot in the glyph table.
    fn write_glyph(ram: &mut Vec<u8>, d: usize)
        requires
            old(ram)@.len() == 4096,
            d < 16,
        ensures
            final(ram)@.len() == 4096,
            forall|a: int| 5 * d <= a < 5 * d + 5 ==> final(ram)@[a] == font_byte(a),
            forall|a: int|
                0 <= a < 4096 && !(5 * d <= a < 5 * d + 5) ==> final(ram)@[a] == old(ram)@[a],
    {
        let base: usize = 5 * d;
        match d {
            0 => {
                ram.set(base, 0xF0);
                ram.set(base + 1, 0x90);
                ram.set(base + 2, 0x90);
                ram.set(base + 3, 0x90);
                ram.set(base + 4, 0xF0);
            },
            1 => {
                ram.set(base, 0x20);
                ram.set(base + 1, 0x60);
                ram.set(base + 2, 0x20);
                ram.set(base + 3, 0x20);
                ram.set(base + 4, 0x70);
            },
            2 => {
                ram.set(base, 0xF0);
                ram.set(base + 1, 0x10);
                ram.set(base + 2, 0xF0);
                ram.set(base + 3, 0x80);
                ram.set(base + 4, 0xF0);
            },
            3 => {
                ram.set(base, 0xF0);
                ram.set(base + 1, 0x10);
                ram.set(base + 2, 0xF0);
                ram.set(base + 3, 0x10);
                ram.set(base + 4, 0xF0);
            },
            4 => {
                ram.set(base, 0x90);
                ram.set(base + 1, 0x90);
                ram.set(base + 2, 0xF0);
                ram.set(base + 3, 0x10);
                ram.set(base + 4, 0x10);
            },
            5 => {
                ram.set(base, 0xF0);
                ram.set(base + 1, 0x80);
                ram.set(base + 2, 0xF0);
                ram.set(base + 3, 0x10);
                ram.set(base + 4, 0xF0);
            },
            6 => {
                ram.set(base, 0xF0);
                ram.set(base + 1, 0x80);
                ram.set(base + 2, 0xF0);
                ram.set(base + 3, 0x90);
                ram.set(base + 4, 0xF0);
            },
            7 => {
                ram.set(base, 0xF0);
                ram.set(base + 1, 0x10);
                ram.set(base + 2, 0x20);
                ram.set(base + 3, 0x40);
                ram.set(base + 4, 0x40);
            },
            8 => {
                ram.set(base, 0xF0);
                ram.set(base + 1, 0x90);
                ram.set(base + 2, 0xF0);
                ram.set(base + 3, 0x90);
                ram.set(base + 4, 0xF0);
            },
            9 => {
                ram.set(base, 0xF0);
                ram.set(base + 1, 0x90);
                ram.set(base + 2, 0xF0);
                ram.set(base + 3, 0x10);
                ram.set(base + 4, 0xF0);
            },
            10 => {
                ram.set(base, 0xF0);
                ram.set(base + 1, 0x90);
                ram.set(base + 2, 0xF0);
                ram.set(base + 3, 0x90);
                ram.set(base + 4, 0x90);
            },
            11 => {
                ram.set(base, 0xE0);
                ram.set(base + 1, 0x90);
                ram.set(base + 2, 0xE0);
                ram.set(base + 3, 0x90);
                ram.set(base + 4, 0xE0);
            },
            12 => {
                ram.set(base, 0xF0);
                ram.set(base + 1, 0x80);
                ram.set(base + 2, 0x80);
                ram.set(base + 3, 0x80);
                ram.set(base + 4, 0xF0);
            },
            13 => {
                ram.set(base, 0xE0);
                ram.set(base + 1, 0x90);
                ram.set(base + 2, 0x90);
                ram.set(base + 3, 0x90);
                ram.set(base + 4, 0xE0);
            },
            14 => {
                ram.set(base, 0xF0);
                ram.set(base + 1, 0x80);
                ram.set(base + 2, 0xF0);
                ram.set(base + 3, 0x80);
                ram.set(base + 4, 0xF0);
            },
            _ => {
                ram.set(base, 0xF0);
                ram.set(base + 1, 0x80);
                ram.set(base + 2, 0xF0);
                ram.set(base + 3, 0x80);
                ram.set(base + 4, 0x80);
            },
        }
    }
}

/// Relies on byteorder's `BigEndian::read_u16`: the big-endian 16-bit value
/// held in the first two bytes of the given slice.
#[verifier::external_body]
fn read_u16_be(ram: &Vec<u8>, addr: usize) -> (w: u16)
    requires
        addr + 1 < ram@.len(),
    ensures
        w == ram@[addr as int] * 256 + ram@[addr as int + 1],
{
    <byteorder::BigEndian as byteorder::ByteOrder>::read_u16(&ram[addr..])
}

} // verus!
