//! The assembled console: CPU, pixel processor, memory map and timer,
//! the interrupt dispatch between them, the cartridge loader and the
//! frame scheduler.

use vstd::prelude::*;
use crate::bin_utils::{wrap_add16, wrap_sub16};
use crate::cpu::{pushed, Cpu, EmuError};
use crate::debugger::Debugger;
use crate::gpu::Gpu;
use crate::mbc::{Mbc, MbcView};
use crate::mbc0::{MBC0, MBC0_ROM_SIZE};
use crate::mbc1::{MBC1, MBC1_ROM_SIZE};
use crate::memory::{ei_of_u8, MemView, Memory};
use crate::registers::{FRegister, Registers};
use crate::timer::Timer;

verus! {

broadcast use crate::memory::lemma_spec_write_keeps_timer;

/// A fatal cartridge-load fault: the image is too small to carry a
/// header, too large for the controller its type byte selects, or of a
/// type with no implemented controller.
#[derive(Copy, Clone, PartialEq, Eq, Structural, Debug)]
pub enum CartridgeError {
    TruncatedImage,
    OversizedImage,
    UnsupportedType(u8),
}

/// The offset of the cartridge-type byte in the image header.
pub const CARTRIDGE_TYPE_OFFSET: usize = 0x147;

/// The interrupt vector of the highest-priority pending and enabled
/// interrupt source, or zero when none is due: vertical blank before
/// display status before timer overflow before serial before input.
pub open spec fn pending_vector(m: MemView) -> u16 {
    if m.iflag.vblank && m.ei.vblank {
        0x40
    } else if m.iflag.lcdc && m.ei.lcdc {
        0x48
    } else if m.iflag.timer_overflow && m.ei.timer_overflow {
        0x50
    } else if m.iflag.serial_tx_done && m.ei.serial_tx_done {
        0x58
    } else if m.iflag.hi_lo && m.ei.hi_lo {
        0x60
    } else {
        0
    }
}

/// What loading a cartridge image does: an image too small to hold the
/// type byte is rejected as truncated; type zero selects the fixed
/// controller and type one the switchable controller, zero-padded to
/// capacity and with the banking registers reset, each rejecting an
/// image beyond its capacity as oversized; any other type byte is
/// rejected by value. A rejected image leaves memory untouched.
#[verifier::opaque]
pub open spec fn cartridge_loaded(
    buffer: Seq<u8>,
    m0: MemView,
    m1: MemView,
    r: Result<(), CartridgeError>,
) -> bool {
    if buffer.len() <= CARTRIDGE_TYPE_OFFSET {
        &&& r == Err::<(), CartridgeError>(CartridgeError::TruncatedImage)
        &&& m1 == m0
    } else {
        let kind = buffer[CARTRIDGE_TYPE_OFFSET as int];
        if kind == 0 {
            if buffer.len() <= MBC0_ROM_SIZE {
                &&& r is Ok
                &&& m1.rom is Fixed
                &&& m1 == (MemView { rom: MbcView::Fixed(m1.rom->Fixed_0), ..m0 })
                &&& forall|i: int| 0 <= i < buffer.len() ==> m1.rom->Fixed_0[i] == buffer[i]
                &&& forall|i: int| buffer.len() <= i < MBC0_ROM_SIZE ==> m1.rom->Fixed_0[i] == 0
            } else {
                &&& r == Err::<(), CartridgeError>(CartridgeError::OversizedImage)
                &&& m1 == m0
            }
        } else if kind == 1 {
            if buffer.len() <= MBC1_ROM_SIZE {
                &&& r is Ok
                &&& m1.rom is Banked
                &&& m1 == (MemView { rom: MbcView::Banked(m1.rom->Banked_0), ..m0 })
                &&& forall|i: int| 0 <= i < buffer.len() ==> m1.rom->Banked_0.rom[i] == buffer[i]
                &&& forall|i: int| buffer.len() <= i < MBC1_ROM_SIZE
                    ==> m1.rom->Banked_0.rom[i] == 0
                &&& m1.rom->Banked_0.rom_bank_low == 1
                &&& m1.rom->Banked_0.rom_bank_high == 0
                &&& m1.rom->Banked_0.ram_bank == 0
                &&& !m1.rom->Banked_0.mode
                &&& !m1.rom->Banked_0.ram_enable
            } else {
                &&& r == Err::<(), CartridgeError>(CartridgeError::OversizedImage)
                &&& m1 == m0
            }
        } else {
            &&& r == Err::<(), CartridgeError>(CartridgeError::UnsupportedType(kind))
            &&& m1 == m0
        }
    }
}

/// The CPU after any pending one-instruction-delayed interrupt-enable
/// change is applied: a pending enable turns the master enable on, a
/// pending disable turns it off, and the pending flag clears.
pub open spec fn apply_pending(c: Cpu) -> Cpu {
    let c1 = if c.ime_next {
        Cpu { ime: true, ime_next: false, ..c }
    } else {
        c
    };
    if c1.imd_next {
        Cpu { ime: false, imd_next: false, ..c1 }
    } else {
        c1
    }
}

/// The CPU after an interrupt check: unchanged when nothing is due,
/// otherwise with the master enable dropped, the return address pushed
/// and control at the dispatched vector.
pub open spec fn after_check_cpu(c: Cpu, m: MemView) -> Cpu {
    let vec = pending_vector(m);
    if !c.ime || vec == 0 {
        c
    } else {
        Cpu {
            ime: false,
            registers: Registers { pc: vec, sp: wrap_sub16(c.registers.sp, 2), ..c.registers },
            ..c
        }
    }
}

/// The memory after an interrupt check: every pending request cleared,
/// and on dispatch the low-power state ended and the return address
/// pushed at the stack pointer.
pub open spec fn after_check_mem(c: Cpu, m: MemView) -> MemView {
    let vec = pending_vector(m);
    if !c.ime || vec == 0 {
        MemView { iflag: ei_of_u8(0), ..m }
    } else {
        pushed(
            MemView { iflag: ei_of_u8(0), halted: false, ..m },
            c.registers.sp,
            c.registers.pc,
        )
    }
}

/// The cycle cost of an interrupt check: twenty on dispatch, zero
/// otherwise.
pub open spec fn check_cycles(c: Cpu, m: MemView) -> usize {
    if !c.ime || pending_vector(m) == 0 {
        0
    } else {
        20
    }
}

/// The memory after the divider accumulator absorbs elapsed cycles.
pub open spec fn after_divider(m: MemView, acc: usize, cycles: usize) -> MemView {
    if acc + cycles >= crate::timer::DIVIDER_PERIOD {
        MemView { div: crate::bin_utils::wrap_add8(m.div, 1), ..m }
    } else {
        m
    }
}

/// The memory after the configurable counter absorbs elapsed cycles,
/// raising the timer-overflow request on overflow.
pub open spec fn after_counter(m: MemView, cycles: usize) -> MemView {
    if !crate::timer::timer_enabled(m.tac) {
        m
    } else {
        let grown = m.tima + cycles / crate::timer::clock_divider_of(m.tac);
        if grown > 0xFF {
            MemView {
                tima: m.tma as usize,
                iflag: crate::memory::Ei { timer_overflow: true, ..m.iflag },
                ..m
            }
        } else {
            MemView { tima: grown as usize, ..m }
        }
    }
}

/// The remaining pipeline of one scheduler iteration, from the memory
/// state after the divider: the configurable counter absorbs the
/// elapsed cycles, then — unless stopped — the pixel processor takes
/// one step.
pub open spec fn tail_of_step(gpu0: Gpu, m_d: MemView, spent: usize, g1: Gameboy) -> bool {
    let m_t = after_counter(m_d, spent);
    if !m_t.stopped {
        exists|ret: bool|
            #[trigger] crate::gpu::gpu_step(gpu0, m_t, spent, g1.gpu, g1.mem_map@, ret)
    } else {
        g1.mem_map@ == m_t && g1.gpu == gpu0
    }
}

/// One successful scheduler iteration, relating the console before and
/// after it to the cycles it consumed: the interrupt check runs on the
/// incoming state, then the pending interrupt-enable change is applied,
/// then either one implemented instruction executes (a step of the base
/// table, followed by the divider) or the halted machine idles four
/// cycles; the counter and — unless stopped — the pixel processor then
/// absorb the elapsed cycles.
pub open spec fn frame_step_rel(g0: Gameboy, g1: Gameboy, spent: usize) -> bool {
    let m0 = g0.mem_map@;
    let c_i = apply_pending(after_check_cpu(g0.cpu, m0));
    let m_i = after_check_mem(g0.cpu, m0);
    let ic = check_cycles(g0.cpu, m0);
    if !m_i.halted {
        let op = m_i.spec_read(c_i.registers.pc as int);
        exists|c_e: Cpu, m_e: MemView, n: usize|
            {
                &&& crate::cpu::base_implemented(op)
                &&& 4 <= n <= 32
                &&& #[trigger] crate::cpu::base_step(
                    op,
                    crate::cpu::with_pc(c_i, wrap_add16(c_i.registers.pc, 1)),
                    m_i,
                    c_e,
                    m_e,
                    n as u8,
                )
                &&& spent == ic + n
                &&& g1.cpu == c_e
                &&& tail_of_step(
                    g0.gpu,
                    after_divider(m_e, g0.timer.internal_divider, spent),
                    spent,
                    g1,
                )
            }
    } else {
        &&& spent == ic + 4
        &&& g1.cpu == c_i
        &&& tail_of_step(g0.gpu, m_i, spent, g1)
    }
}

/// A faulted scheduler iteration: the machine was not halted after the
/// interrupt check, and the byte at the post-check program counter has
/// no handler. The fault carries that opcode and the program counter
/// just past it; the console stops with the check's effects applied,
/// the program counter past the offending byte, and everything else
/// untouched.
pub open spec fn frame_fault_rel(g0: Gameboy, g1: Gameboy, e: EmuError) -> bool {
    let m0 = g0.mem_map@;
    let c_i = apply_pending(after_check_cpu(g0.cpu, m0));
    let m_i = after_check_mem(g0.cpu, m0);
    let op = m_i.spec_read(c_i.registers.pc as int);
    &&& !m_i.halted
    &&& !crate::cpu::base_implemented(op)
    &&& e == (EmuError::UnimplementedOpcode {
        opcode: op,
        pc: wrap_add16(c_i.registers.pc, 1),
    })
    &&& g1.cpu == crate::cpu::with_pc(c_i, wrap_add16(c_i.registers.pc, 1))
    &&& g1.mem_map@ == m_i
    &&& g1.timer == g0.timer
    &&& g1.gpu == g0.gpu
}

/// Scheduler-level interrupt-enable delay law: the enable-interrupts
/// opcode leaves the master enable off (only the pending flag set), and
/// the scheduler checks for interrupts before applying the pending
/// change — so the check of the iteration that follows the opcode
/// dispatches nothing and costs nothing, whatever requests are pending.
/// An interrupt can be serviced at the earliest by the check after
/// that, once one full instruction has executed.
pub proof fn lemma_scheduler_enable_delay(
    c0: Cpu,
    m0: MemView,
    c1: Cpu,
    m1: MemView,
    cycles: u8,
    g: Gameboy,
)
    requires
        crate::cpu::base_step(0xFB, c0, m0, c1, m1, cycles),
        !c0.ime,
        g.cpu == c1,
    ensures
        check_cycles(g.cpu, g.mem_map@) == 0,
        after_check_cpu(g.cpu, g.mem_map@) == g.cpu,
{
    crate::cpu::lemma_interrupt_enable_delay(c0, m0, c1, m1, cycles);
}

/// The whole console.
pub struct Gameboy {
    pub cpu: Cpu,
    pub gpu: Gpu,
    pub mem_map: Memory,
    pub timer: Timer,
    pub debugger: Debugger,
}

impl Gameboy {
    /// Well-formedness of the assembled console: a well-formed memory
    /// map and pixel buffer, and the timer accumulators inside the
    /// bounds the scheduler maintains.
    pub open spec fn wf(self) -> bool {
        &&& self.mem_map@.wf()
        &&& self.gpu.wf()
        &&& self.gpu.mode_clock <= 456
        &&& self.timer.internal_divider < 308
        &&& self.mem_map@.tima <= 0xFFFF
    }

    /// A fresh console: zeroed CPU, cleared pixel processor, reset
    /// memory map and timer.
    pub fn new() -> (r: Self)
        ensures
            r.wf(),
            r.cpu.registers == (Registers {
                a: 0u8, b: 0u8, c: 0u8, d: 0u8, e: 0u8,
                f: FRegister { zero: false, substract: false, half_carry: false, carry: false },
                h: 0u8, l: 0u8, sp: 0u16, pc: 0u16,
            }),
            r.cpu.ime && !r.cpu.ime_next && !r.cpu.imd_next,
            r.mem_map@.boot_rom_disable == 0,
            r.mem_map@.iflag == ei_of_u8(0),
            r.mem_map@.ei == ei_of_u8(0),
            !r.mem_map@.halted,
            !r.mem_map@.stopped,
            r.mem_map@.div == 0 && r.mem_map@.tima == 0 && r.mem_map@.tma == 0
                && r.mem_map@.tac == 0,
            r.timer.internal_divider == 0,
            r.gpu.mode_clock == 0,
            !r.gpu.vblank,
    {
        Gameboy {
            cpu: Cpu::new(),
            gpu: Gpu::new(),
            mem_map: Memory::new(),
            timer: Timer::new(),
            debugger: Debugger::new(),
        }
    }

    /// The visible screen as the pixel processor composes it.
    pub fn get_screen_buffer(&self) -> (r: Vec<u32>)
        requires
            self.gpu.wf(),
        ensures
            r@.len() == 160 * 144,
            forall|x: int, y: int| 0 <= x < 160 && 0 <= y < 144
                ==> r@[y * 160 + x] == self.gpu.screen_pixel(self.mem_map@, x, y),
    {
        self.gpu.get_screen_buffer(&self.mem_map)
    }

    /// Install the cartridge controller its type byte selects: the
    /// fixed controller for type zero, the switchable controller for
    /// type one. Images smaller than the header, larger than the chosen
    /// controller's capacity, or of any other type are rejected and
    /// leave the console untouched.
    pub fn load_cartridge(&mut self, buffer: Vec<u8>) -> (r: Result<(), CartridgeError>)
        requires
            old(self).wf(),
        ensures
            final(self).wf(),
            final(self).cpu == old(self).cpu,
            final(self).timer == old(self).timer,
            cartridge_loaded(buffer@, old(self).mem_map@, final(self).mem_map@, r),
    {
        if buffer.len() <= CARTRIDGE_TYPE_OFFSET {
            proof {
                assert(cartridge_loaded(
                    buffer@,
                    old(self).mem_map@,
                    self.mem_map@,
                    Err::<(), CartridgeError>(CartridgeError::TruncatedImage),
                )) by {
                    reveal(crate::gameboy::cartridge_loaded);
                }
            }
            return Err(CartridgeError::TruncatedImage);
        }
        let kind: u8 = buffer[CARTRIDGE_TYPE_OFFSET];
        if kind == 0x0 {
            if buffer.len() > MBC0_ROM_SIZE {
                proof {
                    assert(cartridge_loaded(
                        buffer@,
                        old(self).mem_map@,
                        self.mem_map@,
                        Err::<(), CartridgeError>(CartridgeError::OversizedImage),
                    )) by {
                        reveal(crate::gameboy::cartridge_loaded);
                    }
                }
                return Err(CartridgeError::OversizedImage);
            }
            let ghost b = buffer@;
            self.mem_map.rom = Mbc::Fixed(MBC0::new(buffer));
            proof {
                assert(cartridge_loaded(
                    b,
                    old(self).mem_map@,
                    self.mem_map@,
                    Ok::<(), CartridgeError>(()),
                )) by {
                    reveal(crate::gameboy::cartridge_loaded);
                }
            }
            Ok(())
        } else if kind == 0x1 {
            if buffer.len() > MBC1_ROM_SIZE {
                proof {
                    assert(cartridge_loaded(
                        buffer@,
                        old(self).mem_map@,
                        self.mem_map@,
                        Err::<(), CartridgeError>(CartridgeError::OversizedImage),
                    )) by {
                        reveal(crate::gameboy::cartridge_loaded);
                    }
                }
                return Err(CartridgeError::OversizedImage);
            }
            let ghost b = buffer@;
            self.mem_map.rom = Mbc::Banked(MBC1::new(buffer));
            proof {
                assert(cartridge_loaded(
                    b,
                    old(self).mem_map@,
                    self.mem_map@,
                    Ok::<(), CartridgeError>(()),
                )) by {
                    reveal(crate::gameboy::cartridge_loaded);
                }
            }
            Ok(())
        } else {
            proof {
                assert(cartridge_loaded(
                    buffer@,
                    old(self).mem_map@,
                    self.mem_map@,
                    Err::<(), CartridgeError>(
                        CartridgeError::UnsupportedType(buffer@[CARTRIDGE_TYPE_OFFSET as int]),
                    ),
                )) by {
                    reveal(crate::gameboy::cartridge_loaded);
                }
            }
            Err(CartridgeError::UnsupportedType(kind))
        }
    }

    /// Put the console in the documented post-boot state: registers at
    /// their hand-off values, the program counter at the cartridge
    /// entry point, the stack pointer at the top of high RAM, and the
    /// boot overlay disabled.
    pub fn power_up(&mut self)
        ensures
            final(self).cpu == (Cpu {
                registers: Registers {
                    a: 0x1u8, b: 0x0u8, c: 0x13u8, d: 0x0u8, e: 0xd8u8,
                    f: crate::registers::flags_of_u8(0xB0),
                    h: 0x01u8, l: 0x4du8, sp: 0xFFFEu16, pc: 0x100u16,
                },
                ..old(self).cpu
            }),
            final(self).mem_map@ == (MemView { boot_rom_disable: 1, ..old(self).mem_map@ }),
            final(self).timer == old(self).timer,
            final(self).gpu == old(self).gpu,
            final(self).wf() == old(self).wf(),
    {
        self.cpu.registers.pc = 0x100;
        self.cpu.registers.f = FRegister::from_u8(0xB0);
        self.cpu.registers.a = 0x1;
        self.cpu.registers.b = 0x0;
        self.cpu.registers.c = 0x13;
        self.cpu.registers.d = 0x0;
        self.cpu.registers.e = 0xd8;
        self.cpu.registers.h = 0x01;
        self.cpu.registers.l = 0x4d;
        self.mem_map.boot_rom_disable = 1;
        self.cpu.registers.sp = 0xFFFE;
    }

    /// Clear every pending interrupt request.
    pub fn clear_interrupts(&mut self)
        ensures
            final(self).cpu == old(self).cpu,
            final(self).timer == old(self).timer,
            final(self).gpu == old(self).gpu,
            final(self).mem_map@ == (MemView { iflag: ei_of_u8(0), ..old(self).mem_map@ }),
    {
        self.mem_map.iflag = crate::memory::Ei::from_u8(0);
    }

    /// Check for a due interrupt and dispatch at most one, by priority.
    /// Every call clears all pending request flags. With the master
    /// enable off nothing is dispatched and no cycles are consumed.
    /// On dispatch the low-power state ends, the master enable drops,
    /// the program counter is pushed and control moves to the source's
    /// vector, for a fixed twenty cycles.
    pub fn check_interrupts(&mut self) -> (cycles: usize)
        requires
            old(self).wf(),
        ensures
            final(self).wf(),
            final(self).timer == old(self).timer,
            final(self).gpu == old(self).gpu,
            ({
                let m0 = old(self).mem_map@;
                let c0 = old(self).cpu;
                let vec = pending_vector(m0);
                if !c0.ime || vec == 0 {
                    &&& cycles == 0
                    &&& final(self).cpu == c0
                    &&& final(self).mem_map@ == (MemView { iflag: ei_of_u8(0), ..m0 })
                } else {
                    &&& cycles == 20
                    &&& final(self).cpu == (Cpu {
                        ime: false,
                        registers: Registers {
                            pc: vec,
                            sp: wrap_sub16(c0.registers.sp, 2),
                            ..c0.registers
                        },
                        ..c0
                    })
                    &&& final(self).mem_map@ == pushed(
                        MemView { iflag: ei_of_u8(0), halted: false, ..m0 },
                        c0.registers.sp,
                        c0.registers.pc,
                    )
                }
            }),
    {
        if !self.cpu.ime {
            self.clear_interrupts();
            return 0;
        }
        let mut int_address: u16 = 0;
        if self.mem_map.iflag.vblank && self.mem_map.ei.vblank {
            int_address = 0x40;
        } else if self.mem_map.iflag.lcdc && self.mem_map.ei.lcdc {
            int_address = 0x48;
        } else if self.mem_map.iflag.timer_overflow && self.mem_map.ei.timer_overflow {
            int_address = 0x50;
        } else if self.mem_map.iflag.serial_tx_done && self.mem_map.ei.serial_tx_done {
            int_address = 0x58;
        } else if self.mem_map.iflag.hi_lo && self.mem_map.ei.hi_lo {
            int_address = 0x60;
        }
        self.clear_interrupts();
        if int_address == 0 {
            return 0;
        }
        self.mem_map.halted = false;
        self.cpu.ime = false;
        let ret_pc: u16 = self.cpu.registers.pc;
        self.cpu.push_word(&mut self.mem_map, ret_pc);
        self.cpu.registers.pc = int_address;
        20
    }

    /// Feed elapsed cycles to the configurable timer counter and raise
    /// the timer-overflow interrupt request when it overflows.
    pub fn timer_cycle(&mut self, cycles: usize)
        requires
            old(self).wf(),
            cycles <= usize::MAX - 0x10000,
        ensures
            final(self).wf(),
            final(self).cpu == old(self).cpu,
            final(self).timer == old(self).timer,
            final(self).gpu == old(self).gpu,
            ({
                let m0 = old(self).mem_map@;
                if !crate::timer::timer_enabled(m0.tac) {
                    final(self).mem_map@ == m0
                } else {
                    let grown = m0.tima + cycles / crate::timer::clock_divider_of(m0.tac);
                    if grown > 0xFF {
                        final(self).mem_map@ == (MemView {
                            tima: m0.tma as usize,
                            iflag: crate::memory::Ei {
                                timer_overflow: true,
                                ..m0.iflag
                            },
                            ..m0
                        })
                    } else {
                        final(self).mem_map@ == (MemView { tima: grown as usize, ..m0 })
                    }
                }
            }),
    {
        if self.timer.increment_tima(&mut self.mem_map, cycles) {
            self.mem_map.iflag.timer_overflow = true;
        }
    }


    /// One scheduler iteration: check and possibly dispatch an
    /// interrupt, then apply any pending interrupt-enable change, then
    /// execute one instruction (or idle four cycles while halted), and
    /// feed the elapsed cycles to the divider (when not halted), the
    /// counter, and — unless stopped — the pixel processor. The check
    /// runs before the pending enable is applied, so an interrupt can
    /// be serviced at the earliest one full instruction after the
    /// enable-interrupts opcode. The result carries the cycles this
    /// iteration consumed; it fails exactly when the machine is not
    /// halted and the byte at the post-check program counter has no
    /// handler, with the fault pinned by `frame_fault_rel`.
    #[verifier::rlimit(100)]
    #[verifier::spinoff_prover]
    pub fn frame_step(&mut self) -> (r: Result<usize, EmuError>)
        requires
            old(self).wf(),
        ensures
            final(self).wf(),
            r matches Ok(spent) ==> 4 <= spent <= 52,
            r matches Ok(spent) ==> frame_step_rel(*old(self), *final(self), spent),
            r matches Err(e) ==> frame_fault_rel(*old(self), *final(self), e),
            r is Ok <==> ({
                let c_i = apply_pending(after_check_cpu(old(self).cpu, old(self).mem_map@));
                let m_i = after_check_mem(old(self).cpu, old(self).mem_map@);
                m_i.halted || crate::cpu::base_implemented(
                    m_i.spec_read(c_i.registers.pc as int),
                )
            }),
    {
        let mut cpu_cycles: usize = self.check_interrupts();
        proof {
            assert(self.cpu == after_check_cpu(old(self).cpu, old(self).mem_map@));
            assert(self.mem_map@ == after_check_mem(old(self).cpu, old(self).mem_map@));
        }
        if self.cpu.ime_next {
            self.cpu.ime = true;
            self.cpu.ime_next = false;
        }
        if self.cpu.imd_next {
            self.cpu.ime = false;
            self.cpu.imd_next = false;
        }
        proof {
            assert(self.cpu == apply_pending(
                after_check_cpu(old(self).cpu, old(self).mem_map@),
            ));
        }
        let ghost gpu0 = self.gpu;
        let ghost not_halted = !self.mem_map@.halted;
        let ghost mut c_e = self.cpu;
        let ghost mut m_e = self.mem_map@;
        let ghost mut n: usize = 0;
        if !self.mem_map.halted {
            match self.cpu.cycle(&mut self.mem_map) {
                Ok(c) => {
                    cpu_cycles = cpu_cycles + c;
                    proof {
                        c_e = self.cpu;
                        m_e = self.mem_map@;
                        n = c;
                    }
                },
                Err(e) => {
                    proof {
                        assert(frame_fault_rel(*old(self), *self, e));
                    }
                    return Err(e);
                },
            }
            self.timer.increment_div(&mut self.mem_map, cpu_cycles);
            proof {
                assert(self.mem_map@ == after_divider(
                    m_e,
                    old(self).timer.internal_divider,
                    cpu_cycles,
                ));
            }
        } else {
            cpu_cycles = cpu_cycles + 4;
        }
        self.timer_cycle(cpu_cycles);
        if !self.mem_map.stopped {
            let entered = self.gpu.cycle(&mut self.mem_map, cpu_cycles);
            proof {
                if not_halted {
                    assert(crate::gpu::gpu_step(
                        gpu0,
                        after_counter(
                            after_divider(m_e, old(self).timer.internal_divider, cpu_cycles),
                            cpu_cycles,
                        ),
                        cpu_cycles,
                        self.gpu,
                        self.mem_map@,
                        entered,
                    ));
                } else {
                    assert(crate::gpu::gpu_step(
                        gpu0,
                        after_counter(
                            after_check_mem(old(self).cpu, old(self).mem_map@),
                            cpu_cycles,
                        ),
                        cpu_cycles,
                        self.gpu,
                        self.mem_map@,
                        entered,
                    ));
                }
            }
        }
        proof {
            let m0 = old(self).mem_map@;
            let c_i = apply_pending(after_check_cpu(old(self).cpu, m0));
            let m_i = after_check_mem(old(self).cpu, m0);
            let ic = check_cycles(old(self).cpu, m0);
            if not_halted {
                let op = m_i.spec_read(c_i.registers.pc as int);
                assert(crate::cpu::base_step(
                    op,
                    crate::cpu::with_pc(c_i, wrap_add16(c_i.registers.pc, 1)),
                    m_i,
                    c_e,
                    m_e,
                    n as u8,
                ));
                assert(cpu_cycles == ic + n);
                assert(self.cpu == c_e);
                assert(tail_of_step(
                    old(self).gpu,
                    after_divider(m_e, old(self).timer.internal_divider, cpu_cycles),
                    cpu_cycles,
                    *self,
                ));
            } else {
                assert(cpu_cycles == ic + 4);
                assert(self.cpu == c_i);
                assert(tail_of_step(old(self).gpu, m_i, cpu_cycles, *self));
            }
            assert(frame_step_rel(*old(self), *self, cpu_cycles));
        }
        Ok(cpu_cycles)
    }

    /// Run the console for at least `target_cycles` emulated cycles by
    /// iterating the scheduler step until the budget is spent. On
    /// success the result carries the cycles actually consumed (at
    /// least the budget), a zero budget leaves the console untouched,
    /// and otherwise the final state was produced by a last genuine
    /// scheduler iteration. On failure the error is exactly the fault
    /// of an iteration actually reached: an unimplemented opcode at the
    /// final program counter, pinned by `frame_fault_rel`.
    pub fn cycle(&mut self, target_cycles: usize) -> (r: Result<usize, EmuError>)
        requires
            old(self).wf(),
            target_cycles < usize::MAX - 100,
        ensures
            final(self).wf(),
            r matches Ok(spent) ==> spent >= target_cycles,
            r matches Ok(spent) ==> target_cycles == 0 ==> spent == 0 && *final(self) == *old(
                self,
            ),
            r matches Ok(spent) ==> target_cycles > 0 ==> exists|g_mid: Gameboy, n: usize|
                #[trigger] frame_step_rel(g_mid, *final(self), n) && n <= spent,
            r matches Err(e) ==> exists|g_mid: Gameboy|
                #[trigger] frame_fault_rel(g_mid, *final(self), e),
    {
        let mut spent_cycles: usize = 0;
        while spent_cycles < target_cycles
            invariant
                self.wf(),
                spent_cycles <= target_cycles + 52,
                target_cycles < usize::MAX - 100,
                target_cycles == 0 ==> spent_cycles == 0,
                spent_cycles == 0 ==> *self == *old(self),
                spent_cycles > 0 ==> exists|g_mid: Gameboy, n: usize|
                    #[trigger] frame_step_rel(g_mid, *self, n) && n <= spent_cycles,
            decreases (if spent_cycles < target_cycles { target_cycles - spent_cycles } else { 0 }),
        {
            let ghost g_before = *self;
            match self.frame_step() {
                Ok(cpu_cycles) => {
                    spent_cycles = spent_cycles + cpu_cycles;
                    proof {
                        assert(frame_step_rel(g_before, *self, cpu_cycles));
                    }
                },
                Err(e) => {
                    proof {
                        assert(frame_fault_rel(g_before, *self, e));
                    }
                    return Err(e);
                },
            }
        }
        Ok(spent_cycles)
    }
}

} // verus!
