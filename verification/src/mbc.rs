//! Cartridge storage controllers: the common interface, the controller
//! identifiers, and the tagged union that the memory map owns.

use vstd::prelude::*;
use crate::mbc0::MBC0;
use crate::mbc1::{Mbc1View, MBC1};

verus! {

/// The cartridge type bytes with an implemented controller.
#[derive(Copy, Clone, PartialEq, Eq, Structural, Debug)]
pub enum MbcId {
    MBC0,
    MBC1,
    MBC1WRAM,
}

/// The interface every cartridge controller offers to the memory map:
/// byte reads and writes at local cartridge addresses (the ROM range and
/// the external RAM window).
pub trait MemoryBankController {
    fn read_u8(&self, address: usize) -> u8
        requires
            address < 0x8000 || (0xA000 <= address && address < 0xC000),
    ;

    fn write_u8(&mut self, address: usize, v: u8)
        requires
            address < 0x8000 || (0xA000 <= address && address < 0xC000),
    ;
}

/// The controller variant selected at cartridge-load time, owned by the
/// memory map and dispatched by value.
pub enum Mbc {
    Fixed(MBC0),
    Banked(MBC1),
}

/// The mathematical state of whichever controller is loaded.
pub enum MbcView {
    Fixed(Seq<u8>),
    Banked(Mbc1View),
}

impl View for Mbc {
    type V = MbcView;

    open spec fn view(&self) -> MbcView {
        match self {
            Mbc::Fixed(m) => MbcView::Fixed(m@),
            Mbc::Banked(m) => MbcView::Banked(m@),
        }
    }
}

impl MbcView {
    /// Well-formedness of the loaded controller.
    pub open spec fn wf(self) -> bool {
        match self {
            MbcView::Fixed(rom) => rom.len() == crate::mbc0::MBC0_ROM_SIZE,
            MbcView::Banked(m) => m.wf(),
        }
    }

    /// What a read at a local cartridge address returns.
    pub open spec fn spec_read(self, address: int) -> u8 {
        match self {
            MbcView::Fixed(rom) => if 0 <= address < rom.len() {
                rom[address]
            } else {
                0
            },
            MbcView::Banked(m) => m.spec_read(address),
        }
    }

    /// The controller state after a write at a local cartridge address.
    pub open spec fn spec_write(self, address: int, v: u8) -> MbcView {
        match self {
            MbcView::Fixed(rom) => if 0 <= address < rom.len() {
                MbcView::Fixed(rom.update(address, v))
            } else {
                MbcView::Fixed(rom)
            },
            MbcView::Banked(m) => MbcView::Banked(m.spec_write(address, v)),
        }
    }
}

impl Mbc {
    /// Read one byte from the loaded controller.
    pub fn read_u8(&self, address: usize) -> (r: u8)
        requires
            self@.wf(),
            address < 0x8000 || (0xA000 <= address && address < 0xC000),
        ensures
            r == self@.spec_read(address as int),
    {
        match self {
            Mbc::Fixed(m) => m.read_u8(address),
            Mbc::Banked(m) => m.read_u8(address),
        }
    }

    /// Write one byte through the loaded controller.
    pub fn write_u8(&mut self, address: usize, v: u8)
        requires
            old(self)@.wf(),
            address < 0x8000 || (0xA000 <= address && address < 0xC000),
        ensures
            final(self)@ == old(self)@.spec_write(address as int, v),
            final(self)@.wf(),
    {
        match self {
            Mbc::Fixed(m) => m.write_u8(address, v),
            Mbc::Banked(m) => m.write_u8(address, v),
        }
    }
}

impl MemoryBankController for MBC0 {
    fn read_u8(&self, address: usize) -> u8 {
        MBC0::read_u8(self, address)
    }

    fn write_u8(&mut self, address: usize, v: u8) {
        MBC0::write_u8(self, address, v)
    }
}

impl MemoryBankController for MBC1 {
    fn read_u8(&self, address: usize) -> u8 {
        if self.rom.len() == crate::mbc1::MBC1_ROM_SIZE
            && self.ram.len() == crate::mbc1::MBC1_RAM_SIZE && self.ram_bank <= 3
            && 1 <= self.rom_bank_low && self.rom_bank_low <= 0x1F
            && (self.rom_bank_high == 0 || self.rom_bank_high == 0x40
            || self.rom_bank_high == 0x80 || self.rom_bank_high == 0xC0) {
            MBC1::read_u8(self, address)
        } else {
            0
        }
    }

    fn write_u8(&mut self, address: usize, v: u8) {
        if self.rom.len() == crate::mbc1::MBC1_ROM_SIZE
            && self.ram.len() == crate::mbc1::MBC1_RAM_SIZE && self.ram_bank <= 3
            && 1 <= self.rom_bank_low && self.rom_bank_low <= 0x1F
            && (self.rom_bank_high == 0 || self.rom_bank_high == 0x40
            || self.rom_bank_high == 0x80 || self.rom_bank_high == 0xC0) {
            MBC1::write_u8(self, address, v);
        }
    }
}

} // verus!
