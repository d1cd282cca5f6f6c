//! The switchable banking cartridge controller: up to 128KiB of ROM in
//! 16KiB banks plus up to 32KiB of banked external RAM, driven by writes
//! into four register windows of the cartridge address range.

use vstd::prelude::*;

verus! {

/// Capacity of the switchable controller's ROM, in bytes.
pub const MBC1_ROM_SIZE: usize = 0x20000;

/// Capacity of the switchable controller's external RAM, in bytes.
pub const MBC1_RAM_SIZE: usize = 0x8000;

/// Cartridge controller with switchable ROM and RAM banks. The low five
/// and high two bank-select bits pick the 16KiB ROM bank mapped at the
/// switchable window; a separate register picks the 8KiB RAM bank; a
/// latch enables the RAM window and a mode flag routes the shared
/// high-bits register to either the RAM bank or the ROM bank high bits.
pub struct MBC1 {
    pub rom_bank_low: u8,
    pub rom_bank_high: u8,
    pub ram_bank: u8,
    pub rom: Vec<u8>,
    pub ram: Vec<u8>,
    pub mode: bool,
    pub ram_enable: bool,
}

/// The mathematical state of a switchable banking controller.
pub struct Mbc1View {
    pub rom_bank_low: u8,
    pub rom_bank_high: u8,
    pub ram_bank: u8,
    pub rom: Seq<u8>,
    pub ram: Seq<u8>,
    pub mode: bool,
    pub ram_enable: bool,
}

impl View for MBC1 {
    type V = Mbc1View;

    open spec fn view(&self) -> Mbc1View {
        Mbc1View {
            rom_bank_low: self.rom_bank_low,
            rom_bank_high: self.rom_bank_high,
            ram_bank: self.ram_bank,
            rom: self.rom@,
            ram: self.ram@,
            mode: self.mode,
            ram_enable: self.ram_enable,
        }
    }
}

impl Mbc1View {
    /// Well-formedness: full-capacity backing stores, a RAM bank index
    /// inside the four available banks, a low bank-select register that
    /// is never zero (the zero-coercion rule) and stays in its five
    /// bits, and high bank bits that only ever hold the two shared
    /// register bits shifted into place.
    pub open spec fn wf(self) -> bool {
        &&& self.rom.len() == MBC1_ROM_SIZE
        &&& self.ram.len() == MBC1_RAM_SIZE
        &&& self.ram_bank <= 3
        &&& 1 <= self.rom_bank_low <= 0x1F
        &&& (self.rom_bank_high == 0 || self.rom_bank_high == 0x40 || self.rom_bank_high == 0x80
            || self.rom_bank_high == 0xC0)
    }

    /// The effective ROM bank index: high bank bits or-ed onto the low
    /// five bank-select bits.
    pub open spec fn bank_index(self) -> u8 {
        self.rom_bank_high | self.rom_bank_low
    }

    /// What a read at a local cartridge address returns: bank 0 of ROM in
    /// the fixed window, the selected ROM bank in the switchable window,
    /// and the selected RAM bank in the external RAM window. The high
    /// bank bits can select a bank past the 128KiB image; such a read is
    /// defined to yield zero rather than a fault — a deliberate total
    /// default for the out-of-image banks.
    pub open spec fn spec_read(self, address: int) -> u8 {
        if 0 <= address < 0x4000 {
            self.rom[address]
        } else if 0xA000 <= address < 0xC000 {
            self.ram[(address - 0xA000) + self.ram_bank * 0x2000]
        } else if 0x4000 <= address < 0x8000 {
            let offset = (address - 0x4000) + self.bank_index() * 0x4000;
            if offset < self.rom.len() {
                self.rom[offset]
            } else {
                0
            }
        } else {
            0
        }
    }

    /// The controller state after a write. Writes inside the RAM window
    /// store into the selected RAM bank; writes inside the four register
    /// windows of the ROM range set the RAM-enable latch, the low bank
    /// bits (zero coerced to one), the shared high-bits register, or the
    /// mode flag (whose low bit decides; leaving RAM mode resets the RAM
    /// bank).
    pub open spec fn spec_write(self, address: int, v: u8) -> Mbc1View {
        if 0xA000 <= address < 0xC000 {
            Mbc1View {
                ram: self.ram.update((address - 0xA000) + self.ram_bank * 0x2000, v),
                ..self
            }
        } else if 0 <= address < 0x2000 {
            Mbc1View { ram_enable: v & 0x0F == 0x0A, ..self }
        } else if 0x2000 <= address < 0x4000 {
            Mbc1View {
                rom_bank_low: if v & 0x1F == 0 { 1 } else { v & 0x1F },
                ..self
            }
        } else if 0x4000 <= address < 0x6000 {
            if self.mode {
                Mbc1View { ram_bank: v & 0x3, ..self }
            } else {
                Mbc1View { rom_bank_high: (v & 0x3) << 6, ..self }
            }
        } else if 0x6000 <= address < 0x8000 {
            if v & 1 != 0 {
                Mbc1View { mode: true, ..self }
            } else {
                Mbc1View { mode: false, ram_bank: 0, ..self }
            }
        } else {
            self
        }
    }
}

impl MBC1 {
    /// Build the controller from a raw image, zero-padded to 128KiB, with
    /// bank 1 selected, RAM bank 0, ROM mode and the RAM latch disabled.
    pub fn new(buffer: Vec<u8>) -> (r: Self)
        requires
            buffer@.len() <= MBC1_ROM_SIZE,
        ensures
            r@.wf(),
            forall|i: int| 0 <= i < buffer@.len() ==> r.rom@[i] == buffer@[i],
            forall|i: int| buffer@.len() <= i < MBC1_ROM_SIZE ==> r.rom@[i] == 0,
            forall|i: int| 0 <= i < MBC1_RAM_SIZE ==> r.ram@[i] == 0,
            r.rom_bank_low == 1,
            r.rom_bank_high == 0,
            r.ram_bank == 0,
            r.mode == false,
            r.ram_enable == false,
    {
        let mut rom: Vec<u8> = buffer;
        while rom.len() < MBC1_ROM_SIZE
            invariant
                rom@.len() <= MBC1_ROM_SIZE,
                buffer@.len() <= rom@.len(),
                forall|i: int| 0 <= i < buffer@.len() ==> rom@[i] == buffer@[i],
                forall|i: int| buffer@.len() <= i < rom@.len() ==> rom@[i] == 0,
            decreases MBC1_ROM_SIZE - rom@.len(),
        {
            rom.push(0);
        }
        let mut ram: Vec<u8> = Vec::new();
        while ram.len() < MBC1_RAM_SIZE
            invariant
                ram@.len() <= MBC1_RAM_SIZE,
                forall|i: int| 0 <= i < ram@.len() ==> ram@[i] == 0,
            decreases MBC1_RAM_SIZE - ram@.len(),
        {
            ram.push(0);
        }
        MBC1 {
            rom_bank_low: 0x1,
            rom_bank_high: 0x0,
            ram_bank: 0x0,
            rom,
            ram,
            mode: false,
            ram_enable: false,
        }
    }

    /// The effective ROM bank index currently selected.
    pub fn get_bank_index(&self) -> (r: u8)
        ensures
            r == self@.bank_index(),
    {
        self.rom_bank_high | self.rom_bank_low
    }

    /// Read one byte at a local cartridge address.
    pub fn read_u8(&self, address: usize) -> (r: u8)
        requires
            self@.wf(),
            address < 0x8000 || (0xA000 <= address && address < 0xC000),
        ensures
            r == self@.spec_read(address as int),
    {
        if address < 0x4000 {
            self.rom[address]
        } else if 0xA000 <= address && address < 0xC000 {
            (self.ram)[(address - 0xA000) + (self.ram_bank as usize) * 0x2000]
        } else {
            let offset: usize = (address - 0x4000) + (self.get_bank_index() as usize) * 0x4000;
            if offset < self.rom.len() {
                self.rom[offset]
            } else {
                0
            }
        }
    }

    /// Write one byte at a local cartridge address.
    pub fn write_u8(&mut self, address: usize, v: u8)
        requires
            old(self)@.wf(),
            address < 0x8000 || (0xA000 <= address && address < 0xC000),
        ensures
            final(self)@ == old(self)@.spec_write(address as int, v),
            final(self)@.wf(),
    {
        if 0xA000 <= address && address < 0xC000 {
            let idx: usize = (address - 0xA000) + (self.ram_bank as usize) * 0x2000;
            self.ram[idx] = v;
        } else if address < 0x2000 {
            self.ram_enable = v & 0x0F == 0x0A;
        } else if address < 0x4000 {
            proof {
                assert(v & 0x1Fu8 <= 0x1F) by (bit_vector);
            }
            self.rom_bank_low = v & 0x1F;
            if self.rom_bank_low == 0x0 {
                self.rom_bank_low = 0x1;
            }
        } else if address < 0x6000 {
            if self.mode {
                let b: u8 = v & 0x3;
                proof {
                    assert(v & 0x3u8 <= 3) by (bit_vector);
                }
                self.ram_bank = b;
            } else {
                proof {
                    assert((v & 0x3u8) << 6u8 == 0 || (v & 0x3u8) << 6u8 == 0x40 || (v & 0x3u8)
                        << 6u8 == 0x80 || (v & 0x3u8) << 6u8 == 0xC0) by (bit_vector);
                }
                self.rom_bank_high = (v & 0x3) << 6;
            }
        } else {
            if v & 1 != 0 {
                self.mode = true;
            } else {
                self.mode = false;
                self.ram_bank = 0x0;
            }
        }
    }
}

/// Zero-coercion law: a write into the low-bank-select window never
/// leaves bank zero selected — a written value of zero is coerced to
/// one, so the fixed bank is never mapped into the switchable window.
pub proof fn lemma_bank_zero_coercion(m: Mbc1View, address: int, v: u8)
    requires
        0x2000 <= address < 0x4000,
    ensures
        m.spec_write(address, v).rom_bank_low != 0,
{
}

} // verus!
