//! The fixed (no banking) cartridge controller: a single ROM image of up
//! to 32KiB mapped directly into the cartridge window.

use vstd::prelude::*;

verus! {

/// Capacity of the fixed controller's ROM, in bytes.
pub const MBC0_ROM_SIZE: usize = 0x8000;

/// Cartridge controller without banking hardware. Reads inside the ROM
/// window come straight from the image; writes are stored without any
/// banking effect; the external RAM window is absent (reads as zero).
pub struct MBC0 {
    pub rom: Vec<u8>,
}

impl View for MBC0 {
    type V = Seq<u8>;

    open spec fn view(&self) -> Seq<u8> {
        self.rom@
    }
}

impl MBC0 {
    /// The controller is well formed when its ROM holds exactly 32KiB.
    pub open spec fn wf(self) -> bool {
        self.rom@.len() == MBC0_ROM_SIZE
    }

    /// What a read at a local cartridge address returns: the stored byte
    /// inside the ROM window, zero anywhere else (the absent RAM window).
    pub open spec fn spec_read(self, address: int) -> u8 {
        if 0 <= address < self.rom@.len() {
            self.rom@[address]
        } else {
            0
        }
    }

    /// The controller state after a write: the byte is stored if the
    /// address falls inside the ROM image, and discarded otherwise.
    pub open spec fn spec_write(self, address: int, v: u8) -> Seq<u8> {
        if 0 <= address < self.rom@.len() {
            self.rom@.update(address, v)
        } else {
            self.rom@
        }
    }

    /// Build the controller from a raw image, zero-padded to 32KiB.
    pub fn new(buffer: Vec<u8>) -> (r: Self)
        requires
            buffer@.len() <= MBC0_ROM_SIZE,
        ensures
            r.wf(),
            forall|i: int| 0 <= i < buffer@.len() ==> r.rom@[i] == buffer@[i],
            forall|i: int| buffer@.len() <= i < MBC0_ROM_SIZE ==> r.rom@[i] == 0,
    {
        let mut rom: Vec<u8> = buffer;
        while rom.len() < MBC0_ROM_SIZE
            invariant
                rom@.len() <= MBC0_ROM_SIZE,
                buffer@.len() <= rom@.len(),
                forall|i: int| 0 <= i < buffer@.len() ==> rom@[i] == buffer@[i],
                forall|i: int| buffer@.len() <= i < rom@.len() ==> rom@[i] == 0,
            decreases MBC0_ROM_SIZE - rom@.len(),
        {
            rom.push(0);
        }
        MBC0 { rom }
    }

    /// Read one byte at a local cartridge address.
    pub fn read_u8(&self, address: usize) -> (r: u8)
        ensures
            r == self.spec_read(address as int),
    {
        if address < self.rom.len() {
            self.rom[address]
        } else {
            0
        }
    }

    /// Write one byte at a local cartridge address.
    pub fn write_u8(&mut self, address: usize, v: u8)
        ensures
            final(self).rom@ == old(self).spec_write(address as int, v),
            final(self).wf() == old(self).wf(),
    {
        if address < self.rom.len() {
            self.rom[address] = v;
        }
    }
}

} // verus!
