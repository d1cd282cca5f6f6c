//! The memory-mapped 64KiB address space: boot overlay, cartridge
//! storage, video RAM, working RAM and its echo, object attribute
//! memory, the I/O register bank and high RAM.

use vstd::prelude::*;
use crate::gpu::{u8_of_lcdc, u8_of_stat, Lcdc, Stat};
use crate::mbc::{Mbc, MbcView};
use crate::mbc0::MBC0;

verus! {

/// The five interrupt flags, one bit each: input edge (bit 4), serial
/// transfer complete (bit 3), timer overflow (bit 2), display status
/// (bit 1) and vertical blank (bit 0). The same shape serves as the
/// interrupt-enable register and as the interrupt-request register.
#[derive(Copy, Clone, PartialEq, Eq, Structural, Debug)]
pub struct Ei {
    pub hi_lo: bool,
    pub serial_tx_done: bool,
    pub timer_overflow: bool,
    pub lcdc: bool,
    pub vblank: bool,
}

/// The byte encoding of an interrupt register.
pub open spec fn u8_of_ei(e: Ei) -> u8 {
    (if e.hi_lo { 0x10u8 } else { 0u8 })
        | (if e.serial_tx_done { 0x08u8 } else { 0u8 })
        | (if e.timer_overflow { 0x04u8 } else { 0u8 })
        | (if e.lcdc { 0x02u8 } else { 0u8 })
        | (if e.vblank { 0x01u8 } else { 0u8 })
}

/// The interrupt register read back from a byte.
pub open spec fn ei_of_u8(v: u8) -> Ei {
    Ei {
        hi_lo: v & 0x10 != 0,
        serial_tx_done: v & 0x08 != 0,
        timer_overflow: v & 0x04 != 0,
        lcdc: v & 0x02 != 0,
        vblank: v & 0x01 != 0,
    }
}

impl Ei {
    /// Unpack an interrupt register from its byte encoding.
    pub fn from_u8(item: u8) -> (r: Self)
        ensures
            r == ei_of_u8(item),
    {
        Ei {
            hi_lo: item & 0x10 != 0,
            serial_tx_done: item & 0x08 != 0,
            timer_overflow: item & 0x04 != 0,
            lcdc: item & 0x02 != 0,
            vblank: item & 0x01 != 0,
        }
    }

    /// Pack an interrupt register into its byte encoding.
    pub fn to_u8(self) -> (r: u8)
        ensures
            r == u8_of_ei(self),
    {
        (if self.hi_lo { 0x10u8 } else { 0u8 })
            | (if self.serial_tx_done { 0x08u8 } else { 0u8 })
            | (if self.timer_overflow { 0x04u8 } else { 0u8 })
            | (if self.lcdc { 0x02u8 } else { 0u8 })
            | (if self.vblank { 0x01u8 } else { 0u8 })
    }
}

/// The joypad register: two select lines and four input lines.
#[derive(Copy, Clone, PartialEq, Eq, Structural, Debug)]
pub struct Joypad {
    pub select_action: bool,
    pub select_direction: bool,
    pub p13_in: bool,
    pub p12_in: bool,
    pub p11_in: bool,
    pub p10_in: bool,
}

/// The byte encoding of the joypad register.
pub open spec fn u8_of_joypad(j: Joypad) -> u8 {
    (if j.select_action { 0x20u8 } else { 0u8 })
        | (if j.select_direction { 0x10u8 } else { 0u8 })
        | (if j.p13_in { 0x08u8 } else { 0u8 })
        | (if j.p12_in { 0x04u8 } else { 0u8 })
        | (if j.p11_in { 0x02u8 } else { 0u8 })
        | (if j.p10_in { 0x01u8 } else { 0u8 })
}

/// The joypad register read back from a byte.
pub open spec fn joypad_of_u8(v: u8) -> Joypad {
    Joypad {
        select_action: v & 0x20 != 0,
        select_direction: v & 0x10 != 0,
        p13_in: v & 0x08 != 0,
        p12_in: v & 0x04 != 0,
        p11_in: v & 0x02 != 0,
        p10_in: v & 0x01 != 0,
    }
}

impl Joypad {
    /// Unpack the joypad register from its byte encoding.
    pub fn from_u8(item: u8) -> (r: Self)
        ensures
            r == joypad_of_u8(item),
    {
        Joypad {
            select_action: item & 0x20 != 0,
            select_direction: item & 0x10 != 0,
            p13_in: item & 0x08 != 0,
            p12_in: item & 0x04 != 0,
            p11_in: item & 0x02 != 0,
            p10_in: item & 0x01 != 0,
        }
    }

    /// Pack the joypad register into its byte encoding.
    pub fn to_u8(self) -> (r: u8)
        ensures
            r == u8_of_joypad(self),
    {
        (if self.select_action { 0x20u8 } else { 0u8 })
            | (if self.select_direction { 0x10u8 } else { 0u8 })
            | (if self.p13_in { 0x08u8 } else { 0u8 })
            | (if self.p12_in { 0x04u8 } else { 0u8 })
            | (if self.p11_in { 0x02u8 } else { 0u8 })
            | (if self.p10_in { 0x01u8 } else { 0u8 })
    }
}

/// The memory map. Every address in 0x0000..=0xFFFF resolves to exactly
/// one band; the cartridge ROM range and the external RAM window are
/// routed through the loaded bank controller, and reads below 0x0100 are
/// redirected to the boot image until the boot latch is written.
pub struct Memory {
    pub boot: Vec<u8>,
    pub rom: Mbc,
    pub vram: Vec<u8>,
    pub hram: Vec<u8>,
    pub wram: Vec<u8>,
    pub oam: Vec<u8>,

    pub boot_rom_disable: u8,
    pub ei: Ei,
    pub iflag: Ei,
    pub jpad: Joypad,
    pub nr11: u8,
    pub ly: u8,
    pub scx: u8,
    pub scy: u8,
    pub lcdc: Lcdc,
    pub stat: Stat,
    pub obp0: u8,
    pub obp1: u8,

    pub div: u8,
    pub tima: usize,
    pub tma: u8,
    pub tac: u8,

    pub halted: bool,
    pub stopped: bool,
}

/// The mathematical state of the memory map.
pub struct MemView {
    pub boot: Seq<u8>,
    pub rom: MbcView,
    pub vram: Seq<u8>,
    pub hram: Seq<u8>,
    pub wram: Seq<u8>,
    pub oam: Seq<u8>,
    pub boot_rom_disable: u8,
    pub ei: Ei,
    pub iflag: Ei,
    pub jpad: Joypad,
    pub nr11: u8,
    pub ly: u8,
    pub scx: u8,
    pub scy: u8,
    pub lcdc: Lcdc,
    pub stat: Stat,
    pub obp0: u8,
    pub obp1: u8,
    pub div: u8,
    pub tima: usize,
    pub tma: u8,
    pub tac: u8,
    pub halted: bool,
    pub stopped: bool,
}

impl View for Memory {
    type V = MemView;

    open spec fn view(&self) -> MemView {
        MemView {
            boot: self.boot@,
            rom: self.rom@,
            vram: self.vram@,
            hram: self.hram@,
            wram: self.wram@,
            oam: self.oam@,
            boot_rom_disable: self.boot_rom_disable,
            ei: self.ei,
            iflag: self.iflag,
            jpad: self.jpad,
            nr11: self.nr11,
            ly: self.ly,
            scx: self.scx,
            scy: self.scy,
            lcdc: self.lcdc,
            stat: self.stat,
            obp0: self.obp0,
            obp1: self.obp1,
            div: self.div,
            tima: self.tima,
            tma: self.tma,
            tac: self.tac,
            halted: self.halted,
            stopped: self.stopped,
        }
    }
}

impl MemView {
    /// Well-formedness: each backing store holds exactly its band's size.
    pub open spec fn wf(self) -> bool {
        &&& self.boot.len() == 0x100
        &&& self.rom.wf()
        &&& self.vram.len() == 0x2000
        &&& self.hram.len() == 0x7F
        &&& self.wram.len() == 0x2000
        &&& self.oam.len() == 0x100
    }

    /// What a read of an I/O register returns. Registers without defined
    /// read semantics yield a stub value and never fault.
    #[verifier::opaque]
    pub open spec fn spec_read_io(self, address: int) -> u8 {
        if address == 0xFF00 {
            u8_of_joypad(self.jpad)
        } else if address == 0xFF11 {
            self.nr11
        } else if address == 0xFF40 {
            u8_of_lcdc(self.lcdc)
        } else if address == 0xFF41 {
            u8_of_stat(self.stat)
        } else if address == 0xFF42 {
            self.scy
        } else if address == 0xFF43 {
            self.scx
        } else if address == 0xFF44 {
            self.ly
        } else if address == 0xFF47 {
            0xFC
        } else if address == 0xFF48 {
            self.obp0
        } else if address == 0xFF49 {
            self.obp1
        } else if address == 0xFF0F {
            u8_of_ei(self.iflag)
        } else if address == 0xFF50 {
            self.boot_rom_disable
        } else if address == 0xFFFF {
            u8_of_ei(self.ei)
        } else {
            0
        }
    }

    /// The memory state after a write to an I/O register. Registers
    /// without defined write semantics discard the value. The boot
    /// latch is one-way: once it holds a non-zero value, further
    /// writes leave it alone, so the overlay can never return.
    #[verifier::opaque]
    pub open spec fn spec_write_io(self, v: u8, address: int) -> MemView {
        if address == 0xFF11 {
            MemView { nr11: v, ..self }
        } else if address == 0xFF40 {
            MemView { lcdc: crate::gpu::lcdc_of_u8(v), ..self }
        } else if address == 0xFF41 {
            MemView { stat: crate::gpu::stat_of_u8(v), ..self }
        } else if address == 0xFF42 {
            MemView { scy: v, ..self }
        } else if address == 0xFF43 {
            MemView { scx: v, ..self }
        } else if address == 0xFF44 {
            MemView { ly: v, ..self }
        } else if address == 0xFF48 {
            MemView { obp0: v, ..self }
        } else if address == 0xFF49 {
            MemView { obp1: v, ..self }
        } else if address == 0xFF0F {
            MemView { iflag: ei_of_u8(v), ..self }
        } else if address == 0xFF50 {
            MemView {
                boot_rom_disable: if self.boot_rom_disable != 0 {
                    self.boot_rom_disable
                } else {
                    v
                },
                ..self
            }
        } else if address == 0xFFFF {
            MemView { ei: ei_of_u8(v), ..self }
        } else {
            self
        }
    }

    /// What a read at an address returns: the byte of the band the
    /// address falls in, with reads below 0x0100 redirected to the boot
    /// image while the boot latch is still clear.
    #[verifier::opaque]
    pub open spec fn spec_read(self, address: int) -> u8 {
        if 0 <= address < 0x8000 {
            if self.boot_rom_disable == 0 && address <= 0xFF {
                self.boot[address]
            } else {
                self.rom.spec_read(address)
            }
        } else if 0xFF80 <= address < 0xFFFF {
            self.hram[address - 0xFF80]
        } else if 0x8000 <= address < 0xA000 {
            self.vram[address - 0x8000]
        } else if 0xA000 <= address < 0xC000 {
            self.rom.spec_read(address)
        } else if 0xC000 <= address < 0xE000 {
            self.wram[address - 0xC000]
        } else if 0xE000 <= address < 0xFE00 {
            self.wram[address - 0xE000]
        } else if 0xFE00 <= address < 0xFF00 {
            self.oam[address - 0xFE00]
        } else {
            self.spec_read_io(address)
        }
    }

    /// The memory state after a write at an address: the byte is stored
    /// in (or dispatched to) the band the address falls in.
    #[verifier::opaque]
    pub open spec fn spec_write(self, v: u8, address: int) -> MemView {
        if 0 <= address < 0x8000 {
            MemView { rom: self.rom.spec_write(address, v), ..self }
        } else if 0xFF80 <= address < 0xFFFF {
            MemView { hram: self.hram.update(address - 0xFF80, v), ..self }
        } else if 0x8000 <= address < 0xA000 {
            MemView { vram: self.vram.update(address - 0x8000, v), ..self }
        } else if 0xA000 <= address < 0xC000 {
            MemView { rom: self.rom.spec_write(address, v), ..self }
        } else if 0xC000 <= address < 0xE000 {
            MemView { wram: self.wram.update(address - 0xC000, v), ..self }
        } else if 0xE000 <= address < 0xFE00 {
            MemView { wram: self.wram.update(address - 0xE000, v), ..self }
        } else if 0xFE00 <= address < 0xFF00 {
            MemView { oam: self.oam.update(address - 0xFE00, v), ..self }
        } else {
            self.spec_write_io(v, address)
        }
    }
}

/// A zero-filled byte vector of the requested length.
fn zero_vec(n: usize) -> (r: Vec<u8>)
    ensures
        r@.len() == n,
        forall|i: int| 0 <= i < n ==> r@[i] == 0,
{
    let mut v: Vec<u8> = Vec::new();
    while v.len() < n
        invariant
            v@.len() <= n,
            forall|i: int| 0 <= i < v@.len() ==> v@[i] == 0,
        decreases n - v@.len(),
    {
        v.push(0);
    }
    v
}

impl Memory {
    /// A fresh memory map: zeroed stores, an empty fixed-bank cartridge,
    /// the boot overlay active, and the I/O registers at their reset
    /// values.
    pub fn new() -> (r: Self)
        ensures
            r@.wf(),
            forall|i: int| 0 <= i < 0x100 ==> r@.boot[i] == 0,
            r@.rom is Fixed,
            forall|i: int| 0 <= i < 0x8000 ==> #[trigger] r@.rom->Fixed_0[i] == 0,
            forall|i: int| 0 <= i < 0x2000 ==> r@.vram[i] == 0,
            forall|i: int| 0 <= i < 0x7F ==> r@.hram[i] == 0,
            forall|i: int| 0 <= i < 0x2000 ==> r@.wram[i] == 0,
            forall|i: int| 0 <= i < 0x100 ==> r@.oam[i] == 0,
            r@.boot_rom_disable == 0,
            r@.ei == ei_of_u8(0),
            r@.iflag == ei_of_u8(0),
            r@.jpad == joypad_of_u8(0xFF),
            r@.nr11 == 0,
            r@.ly == 0,
            r@.scx == 0,
            r@.scy == 0,
            r@.lcdc == crate::gpu::lcdc_of_u8(0x91),
            r@.stat == crate::gpu::stat_of_u8(0),
            r@.obp0 == 0xFF,
            r@.obp1 == 0xFF,
            r@.div == 0,
            r@.tima == 0,
            r@.tma == 0,
            r@.tac == 0,
            !r@.halted,
            !r@.stopped,
    {
        Memory {
            boot: zero_vec(0x100),
            rom: Mbc::Fixed(MBC0::new(Vec::new())),
            vram: zero_vec(0x2000),
            hram: zero_vec(0x7F),
            wram: zero_vec(0x2000),
            oam: zero_vec(0x100),

            boot_rom_disable: 0,
            nr11: 0,
            ly: 0,
            scy: 0,
            scx: 0,
            jpad: Joypad::from_u8(0xFF),
            ei: Ei::from_u8(0),
            iflag: Ei::from_u8(0),
            lcdc: Lcdc::from_u8(0x91),
            stat: Stat::from_u8(0),
            obp0: 0xFF,
            obp1: 0xFF,

            div: 0,
            tima: 0,
            tma: 0,
            tac: 0,

            halted: false,
            stopped: false,
        }
    }

    /// Install a 256-byte boot image behind the boot overlay.
    pub fn load_boot_image(&mut self, image: Vec<u8>)
        requires
            image@.len() == 0x100,
        ensures
            final(self)@ == (MemView { boot: image@, ..old(self)@ }),
    {
        self.boot = image;
    }

    /// Write one byte to an I/O register address.
    pub fn write_io_u8(&mut self, value: u8, address: usize)
        ensures
            final(self)@ == old(self)@.spec_write_io(value, address as int),
    {
        if address == 0xFF11 {
            self.nr11 = value;
            proof {
                assert(self@ == old(self)@.spec_write_io(value, address as int)) by {
                    reveal(crate::memory::MemView::spec_write_io);
                }
            }
        } else if address == 0xFF40 {
            self.lcdc = Lcdc::from_u8(value);
            proof {
                assert(self@ == old(self)@.spec_write_io(value, address as int)) by {
                    reveal(crate::memory::MemView::spec_write_io);
                }
            }
        } else if address == 0xFF41 {
            self.stat = Stat::from_u8(value);
            proof {
                assert(self@ == old(self)@.spec_write_io(value, address as int)) by {
                    reveal(crate::memory::MemView::spec_write_io);
                }
            }
        } else if address == 0xFF42 {
            self.scy = value;
            proof {
                assert(self@ == old(self)@.spec_write_io(value, address as int)) by {
                    reveal(crate::memory::MemView::spec_write_io);
                }
            }
        } else if address == 0xFF43 {
            self.scx = value;
            proof {
                assert(self@ == old(self)@.spec_write_io(value, address as int)) by {
                    reveal(crate::memory::MemView::spec_write_io);
                }
            }
        } else if address == 0xFF44 {
            self.ly = value;
            proof {
                assert(self@ == old(self)@.spec_write_io(value, address as int)) by {
                    reveal(crate::memory::MemView::spec_write_io);
                }
            }
        } else if address == 0xFF48 {
            self.obp0 = value;
            proof {
                assert(self@ == old(self)@.spec_write_io(value, address as int)) by {
                    reveal(crate::memory::MemView::spec_write_io);
                }
            }
        } else if address == 0xFF49 {
            self.obp1 = value;
            proof {
                assert(self@ == old(self)@.spec_write_io(value, address as int)) by {
                    reveal(crate::memory::MemView::spec_write_io);
                }
            }
        } else if address == 0xFF0F {
            self.iflag = Ei::from_u8(value);
            proof {
                assert(self@ == old(self)@.spec_write_io(value, address as int)) by {
                    reveal(crate::memory::MemView::spec_write_io);
                }
            }
        } else if address == 0xFF50 {
            if self.boot_rom_disable == 0 {
                self.boot_rom_disable = value;
            }
            proof {
                assert(self@ == old(self)@.spec_write_io(value, address as int)) by {
                    reveal(crate::memory::MemView::spec_write_io);
                }
            }
        } else if address == 0xFFFF {
            self.ei = Ei::from_u8(value);
            proof {
                assert(self@ == old(self)@.spec_write_io(value, address as int)) by {
                    reveal(crate::memory::MemView::spec_write_io);
                }
            }
        } else {
            proof {
                assert(self@ == old(self)@.spec_write_io(value, address as int)) by {
                    reveal(crate::memory::MemView::spec_write_io);
                }
            }
        }
    }

    /// Read one byte from an I/O register address.
    fn read_io_u8(&self, address: usize) -> (r: u8)
        ensures
            r == self@.spec_read_io(address as int),
    {
        let r: u8 = if address == 0xFF00 {
            self.jpad.to_u8()
        } else if address == 0xFF11 {
            self.nr11
        } else if address == 0xFF40 {
            self.lcdc.to_u8()
        } else if address == 0xFF41 {
            self.stat.to_u8()
        } else if address == 0xFF42 {
            self.scy
        } else if address == 0xFF43 {
            self.scx
        } else if address == 0xFF44 {
            self.ly
        } else if address == 0xFF47 {
            0xFC
        } else if address == 0xFF48 {
            self.obp0
        } else if address == 0xFF49 {
            self.obp1
        } else if address == 0xFF0F {
            self.iflag.to_u8()
        } else if address == 0xFF50 {
            self.boot_rom_disable
        } else if address == 0xFFFF {
            self.ei.to_u8()
        } else {
            0
        };
        proof {
            assert(r == self@.spec_read_io(address as int)) by {
                reveal(crate::memory::MemView::spec_read_io);
            }
        }
        r
    }

    /// Write one byte anywhere in the 64KiB address space.
    pub fn write_u8(&mut self, value: u8, address: usize)
        requires
            old(self)@.wf(),
            address < 0x10000,
        ensures
            final(self)@ == old(self)@.spec_write(value, address as int),
            final(self)@.wf(),
    {
        if address < 0x8000 {
            self.rom.write_u8(address, value);
            proof {
                assert(self@ == old(self)@.spec_write(value, address as int) && self@.wf()) by {
                    reveal(crate::memory::MemView::spec_write);
                }
            }
        } else if 0xFF80 <= address && address < 0xFFFF {
            self.hram[address - 0xFF80] = value;
            proof {
                assert(self@ == old(self)@.spec_write(value, address as int) && self@.wf()) by {
                    reveal(crate::memory::MemView::spec_write);
                }
            }
        } else if address < 0xA000 {
            self.vram[address - 0x8000] = value;
            proof {
                assert(self@ == old(self)@.spec_write(value, address as int) && self@.wf()) by {
                    reveal(crate::memory::MemView::spec_write);
                }
            }
        } else if address < 0xC000 {
            self.rom.write_u8(address, value);
            proof {
                assert(self@ == old(self)@.spec_write(value, address as int) && self@.wf()) by {
                    reveal(crate::memory::MemView::spec_write);
                }
            }
        } else if address < 0xE000 {
            self.wram[address - 0xC000] = value;
            proof {
                assert(self@ == old(self)@.spec_write(value, address as int) && self@.wf()) by {
                    reveal(crate::memory::MemView::spec_write);
                }
            }
        } else if address < 0xFE00 {
            self.wram[address - 0xE000] = value;
            proof {
                assert(self@ == old(self)@.spec_write(value, address as int) && self@.wf()) by {
                    reveal(crate::memory::MemView::spec_write);
                }
            }
        } else if address < 0xFF00 {
            self.oam[address - 0xFE00] = value;
            proof {
                assert(self@ == old(self)@.spec_write(value, address as int) && self@.wf()) by {
                    reveal(crate::memory::MemView::spec_write);
                }
            }
        } else {
            self.write_io_u8(value, address);
            proof {
                assert(self@ == old(self)@.spec_write(value, address as int) && self@.wf()) by {
                    reveal(crate::memory::MemView::spec_write);
                    reveal(crate::memory::MemView::spec_write_io);
                }
            }
        }
    }

    /// Read one byte anywhere in the 64KiB address space.
    pub fn read_u8(&self, address: usize) -> (r: u8)
        requires
            self@.wf(),
            address < 0x10000,
        ensures
            r == self@.spec_read(address as int),
    {
        let r: u8 = if address < 0x8000 {
            if self.boot_rom_disable == 0 && address <= 0xFF {
                self.boot[address]
            } else {
                self.rom.read_u8(address)
            }
        } else if 0xFF80 <= address && address < 0xFFFF {
            self.hram[address - 0xFF80]
        } else if address < 0xA000 {
            self.vram[address - 0x8000]
        } else if address < 0xC000 {
            self.rom.read_u8(address)
        } else if address < 0xE000 {
            self.wram[address - 0xC000]
        } else if address < 0xFE00 {
            self.wram[address - 0xE000]
        } else if address < 0xFF00 {
            self.oam[address - 0xFE00]
        } else {
            self.read_io_u8(address)
        };
        proof {
            assert(r == self@.spec_read(address as int)) by {
                reveal(crate::memory::MemView::spec_read);
            }
        }
        r
    }
}

/// A write anywhere in the address space leaves the timer-unit
/// registers and the power-state latches alone: no I/O register address
/// maps onto them.
pub broadcast proof fn lemma_spec_write_keeps_timer(m: MemView, v: u8, address: int)
    ensures
        (#[trigger] m.spec_write(v, address)).tima == m.tima,
        m.spec_write(v, address).tma == m.tma,
        m.spec_write(v, address).tac == m.tac,
        m.spec_write(v, address).halted == m.halted,
        m.spec_write(v, address).stopped == m.stopped,
        m.spec_write(v, address).div == m.div,
{
    reveal(crate::memory::MemView::spec_write);
    reveal(crate::memory::MemView::spec_write_io);
}

} // verus!
