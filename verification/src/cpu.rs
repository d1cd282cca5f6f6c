//! The instruction engine: fetch, decode and execute over the base and
//! the extended opcode tables, with exact cycle counts and flag
//! semantics, plus the shared single-operation helpers.

use vstd::prelude::*;
use crate::bin_utils::{
    high_byte, low_byte, word_of_bytes, wrap_add16, wrap_add8, wrap_sub16, wrap_sub8, BinUtils,
};
use crate::memory::{MemView, Memory};
use crate::registers::{flags_of_u8, u8_of_flags, FRegister, Registers};

verus! {

/// A fatal instruction-engine fault: the fetched opcode byte has no
/// handler. It carries the opcode and the program counter at the point
/// of fault (the address of the byte after the opcode).
#[derive(Copy, Clone, PartialEq, Eq, Structural, Debug)]
pub enum EmuError {
    UnimplementedOpcode { opcode: u8, pc: u16 },
}

/// The value of a byte read as a signed displacement.
pub open spec fn signed8(v: u8) -> int {
    if v < 0x80 {
        v as int
    } else {
        v - 0x100
    }
}

/// The signed displacement reinterpreted as a 16-bit word (sign
/// extension modulo 65536), as added to the stack pointer.
pub open spec fn signed8_as_u16(v: u8) -> u16 {
    if v < 0x80 {
        v as u16
    } else {
        (v + 0xFF00) as u16
    }
}

/// Result and flags of an 8-bit or.
pub open spec fn spec_or(a: u8, v: u8) -> (u8, FRegister) {
    let r = a | v;
    (r, FRegister { zero: r == 0, substract: false, half_carry: false, carry: false })
}

/// Result and flags of an 8-bit and (half-carry always set).
pub open spec fn spec_and(a: u8, v: u8) -> (u8, FRegister) {
    let r = a & v;
    (r, FRegister { zero: r == 0, substract: false, half_carry: true, carry: false })
}

/// Result and flags of an 8-bit exclusive or.
pub open spec fn spec_xor(a: u8, v: u8) -> (u8, FRegister) {
    let r = a ^ v;
    (r, FRegister { zero: r == 0, substract: false, half_carry: false, carry: false })
}

/// Result and flags of an 8-bit increment: half-carry when the low
/// nibble was 0xF; the carry flag is left as it was.
pub open spec fn spec_inc(v: u8, f: FRegister) -> (u8, FRegister) {
    let r = wrap_add8(v, 1);
    (r, FRegister {
        zero: r == 0,
        substract: false,
        half_carry: (v & 0x0F) + 1 > 0x0F,
        carry: f.carry,
    })
}

/// Result and flags of an 8-bit decrement: half-carry when the low
/// nibble was 0x0; the carry flag is left as it was.
pub open spec fn spec_dec(v: u8, f: FRegister) -> (u8, FRegister) {
    let r = wrap_sub8(v, 1);
    (r, FRegister {
        zero: r == 0,
        substract: true,
        half_carry: (v & 0x0F) == 0,
        carry: f.carry,
    })
}

/// Result and flags of an 8-bit add into the accumulator.
pub open spec fn spec_add(a: u8, v: u8) -> (u8, FRegister) {
    let r = wrap_add8(a, v);
    (r, FRegister {
        zero: r == 0,
        substract: false,
        half_carry: (a & 0xF) + (v & 0xF) > 0xF,
        carry: a + v > 0xFF,
    })
}

/// Result and flags of an 8-bit add with carry.
pub open spec fn spec_adc(a: u8, v: u8, f: FRegister) -> (u8, FRegister) {
    let c: u8 = if f.carry { 1 } else { 0 };
    let r = wrap_add8(wrap_add8(a, v), c);
    (r, FRegister {
        zero: r == 0,
        substract: false,
        half_carry: (a & 0xF) + (v & 0xF) + c > 0xF,
        carry: a + v + c > 0xFF,
    })
}

/// Result and flags of an 8-bit subtract from the accumulator.
pub open spec fn spec_sub(a: u8, v: u8) -> (u8, FRegister) {
    let r = wrap_sub8(a, v);
    (r, FRegister {
        zero: r == 0,
        substract: true,
        half_carry: (a & 0xF) < (v & 0xF),
        carry: a < v,
    })
}

/// Result and flags of an 8-bit subtract with borrow.
pub open spec fn spec_sbc(a: u8, v: u8, f: FRegister) -> (u8, FRegister) {
    let c: u8 = if f.carry { 1 } else { 0 };
    let r = wrap_sub8(wrap_sub8(a, v), c);
    (r, FRegister {
        zero: r == 0,
        substract: true,
        half_carry: (a & 0xF) < (v & 0xF) + c,
        carry: (a as int) < v + c,
    })
}

/// Flags of an 8-bit compare: those of the subtract, accumulator kept.
pub open spec fn spec_cp(a: u8, v: u8) -> FRegister {
    FRegister {
        zero: a == v,
        substract: true,
        half_carry: (a & 0xF) < (v & 0xF),
        carry: a < v,
    }
}

/// Result and flags of a left rotate through bit 7.
pub open spec fn spec_rlc(v: u8, f: FRegister) -> (u8, FRegister) {
    let carry = v & 0x80 == 0x80;
    let r = (v << 1) | (if carry { 1u8 } else { 0u8 });
    (r, FRegister { zero: r == 0, substract: false, half_carry: false, carry: carry })
}

/// Result and flags of a left rotate through the carry flag.
pub open spec fn spec_rl(v: u8, f: FRegister) -> (u8, FRegister) {
    let carry = v & 0x80 == 0x80;
    let r = (v << 1) | (if f.carry { 1u8 } else { 0u8 });
    (r, FRegister { zero: r == 0, substract: false, half_carry: false, carry: carry })
}

/// Result and flags of a right rotate through bit 0; `with_carry` false
/// degrades the rotate to a plain shift.
pub open spec fn spec_rrc(v: u8, f: FRegister, with_carry: bool) -> (u8, FRegister) {
    let carry = v & 0x1 == 0x1;
    let r = (v >> 1) | (if carry && with_carry { 0x80u8 } else { 0u8 });
    (r, FRegister { zero: r == 0, substract: false, half_carry: false, carry: carry })
}

/// Result and flags of a right rotate through the carry flag.
pub open spec fn spec_rr(v: u8, f: FRegister) -> (u8, FRegister) {
    let carry = v & 0x1 == 0x1;
    let r = (v >> 1) | (if f.carry { 0x80u8 } else { 0u8 });
    (r, FRegister { zero: r == 0, substract: false, half_carry: false, carry: carry })
}

/// Result and flags of an arithmetic shift left.
pub open spec fn spec_sla(v: u8) -> (u8, FRegister) {
    let r = v << 1;
    (r, FRegister { zero: r == 0, substract: false, half_carry: false, carry: v & 0x80 != 0 })
}

/// Result and flags of an arithmetic shift right (bit 7 kept).
pub open spec fn spec_sra(v: u8) -> (u8, FRegister) {
    let r = (v >> 1) | (v & 0x80);
    (r, FRegister { zero: r == 0, substract: false, half_carry: false, carry: v & 0x1 != 0 })
}

/// Result and flags of a logical shift right.
pub open spec fn spec_srl(v: u8) -> (u8, FRegister) {
    let r = v >> 1;
    (r, FRegister { zero: r == 0, substract: false, half_carry: false, carry: v & 0x1 == 0x1 })
}

/// Result and flags of a nibble swap; the zero flag reports whether the
/// operand (equivalently the result) is zero.
pub open spec fn spec_swap(v: u8) -> (u8, FRegister) {
    let r = (v >> 4) | (v << 4);
    (r, FRegister { zero: v == 0, substract: false, half_carry: false, carry: false })
}

/// Flags of a bit test: zero reports bit `b` of `v` clear; the carry
/// flag is left as it was.
pub open spec fn spec_bit(b: u8, v: u8, f: FRegister) -> FRegister {
    FRegister {
        zero: v & (1u8 << b) == 0,
        substract: false,
        half_carry: true,
        carry: f.carry,
    }
}

/// Result of a 16-bit add into HL: half-carry from bit 11, carry from
/// bit 15, the zero flag left as it was.
pub open spec fn spec_add16(hl: u16, v: u16, f: FRegister) -> (u16, FRegister) {
    let r = wrap_add16(hl, v);
    (r, FRegister {
        zero: f.zero,
        substract: false,
        half_carry: (hl & 0x07FF) + (v & 0x07FF) > 0x07FF,
        carry: hl > 0xFFFF - v,
    })
}

/// Result and flags of the decimal adjust after BCD arithmetic: the
/// correction term is built from the carry and half-carry flags (and,
/// when the last operation was an add, from the digit values), then
/// added or subtracted according to the subtract flag.
pub open spec fn spec_daa(a: u8, f: FRegister) -> (u8, FRegister) {
    let adj0: u8 = if f.carry { 0x60 } else { 0x0 };
    let adj1: u8 = if f.half_carry { adj0 | 0x06 } else { adj0 };
    let adj: u8 = if !f.substract {
        let adj2: u8 = if a & 0x0F > 0x09 { adj1 | 0x06 } else { adj1 };
        if a > 0x99 { adj2 | 0x60 } else { adj2 }
    } else {
        adj1
    };
    let r: u8 = if !f.substract { wrap_add8(a, adj) } else { wrap_sub8(a, adj) };
    (r, FRegister {
        zero: r == 0,
        substract: f.substract,
        half_carry: false,
        carry: adj >= 0x60,
    })
}

/// The destination of a relative jump: the program counter after the
/// displacement byte, moved by the signed displacement, modulo 65536.
pub open spec fn jr_dest(pc: u16, off: int) -> u16 {
    if pc + off > 0xFFFF {
        (pc + off - 0x10000) as u16
    } else if pc + off < 0 {
        (pc + off + 0x10000) as u16
    } else {
        (pc + off) as u16
    }
}

/// The single-operation helpers of the instruction engine. Each mutates
/// a register (and the flag register) exactly as its specification
/// function states.
pub struct Instructions {}

impl Instructions {
    /// Load a value into a register.
    pub fn ld_n(reg: &mut u8, v: u8)
        ensures
            *final(reg) == v,
    {
        *reg = v;
    }

    /// Or a value into the accumulator.
    pub fn or(a_reg: &mut u8, f_reg: &mut FRegister, v: u8)
        ensures
            *final(a_reg) == spec_or(*old(a_reg), v).0,
            *final(f_reg) == spec_or(*old(a_reg), v).1,
    {
        *a_reg = *a_reg | v;
        f_reg.zero = *a_reg == 0;
        f_reg.substract = false;
        f_reg.half_carry = false;
        f_reg.carry = false;
    }

    /// And a value into the accumulator.
    pub fn and(a_reg: &mut u8, f_reg: &mut FRegister, v: u8)
        ensures
            *final(a_reg) == spec_and(*old(a_reg), v).0,
            *final(f_reg) == spec_and(*old(a_reg), v).1,
    {
        *a_reg = *a_reg & v;
        f_reg.zero = *a_reg == 0;
        f_reg.substract = false;
        f_reg.half_carry = true;
        f_reg.carry = false;
    }

    /// Exclusive-or a value into the accumulator.
    pub fn xor(a_reg: &mut u8, f_reg: &mut FRegister, v: u8)
        ensures
            *final(a_reg) == spec_xor(*old(a_reg), v).0,
            *final(f_reg) == spec_xor(*old(a_reg), v).1,
    {
        *a_reg = *a_reg ^ v;
        f_reg.zero = *a_reg == 0;
        f_reg.substract = false;
        f_reg.half_carry = false;
        f_reg.carry = false;
    }

    /// Decrement a register: half-carry when the low nibble was 0x0.
    pub fn dec(reg: &mut u8, f_reg: &mut FRegister)
        ensures
            *final(reg) == spec_dec(*old(reg), *old(f_reg)).0,
            *final(f_reg) == spec_dec(*old(reg), *old(f_reg)).1,
    {
        f_reg.half_carry = (*reg & 0x0F) == 0;
        *reg = (*reg).wrapping_sub(1);
        f_reg.zero = *reg == 0;
        f_reg.substract = true;
    }

    /// Decrement a 16-bit register pair, flags untouched.
    pub fn dec_nn(high_reg: &mut u8, low_reg: &mut u8)
        ensures
            word_of_bytes(*final(high_reg), *final(low_reg))
                == wrap_sub16(word_of_bytes(*old(high_reg), *old(low_reg)), 1),
    {
        let v: u16 = BinUtils::u16_from_u8s(*high_reg, *low_reg);
        let vs: (u8, u8) = BinUtils::u8s_from_u16(v.wrapping_sub(1));
        *high_reg = vs.0;
        *low_reg = vs.1;
    }

    /// Test one bit of a register.
    pub fn bit(bit: u8, reg: u8, f_reg: &mut FRegister)
        requires
            bit < 8,
        ensures
            *final(f_reg) == spec_bit(bit, reg, *old(f_reg)),
    {
        f_reg.zero = reg & (1u8 << bit) == 0;
        f_reg.substract = false;
        f_reg.half_carry = true;
    }

    /// Set one bit of a register.
    pub fn set(bit: u8, reg: &mut u8)
        requires
            bit < 8,
        ensures
            *final(reg) == (*old(reg) | (1u8 << bit)),
    {
        *reg = *reg | (1u8 << bit);
    }

    /// Clear one bit of a register.
    pub fn res(r: &mut u8, b: u8)
        requires
            b < 8,
        ensures
            *final(r) == (*old(r) & !(1u8 << b)),
    {
        *r = *r & !(1u8 << b);
    }

    /// Move the program counter by a signed displacement, modulo 65536.
    pub fn jr_n(offset: i8, pc: &mut u16)
        ensures
            *final(pc) == jr_dest(*old(pc), offset as int),
    {
        let target: i32 = (*pc as i32) + (offset as i32);
        *pc = ((target + 0x10000) % 0x10000) as u16;
    }

    /// Increment a register: half-carry when the low nibble was 0xF.
    pub fn inc(reg: &mut u8, f_reg: &mut FRegister)
        ensures
            *final(reg) == spec_inc(*old(reg), *old(f_reg)).0,
            *final(f_reg) == spec_inc(*old(reg), *old(f_reg)).1,
    {
        let res: u8 = (*reg).wrapping_add(1);
        f_reg.zero = res == 0;
        f_reg.substract = false;
        f_reg.half_carry = ((*reg & 0x0F) as u16) + 1 > 0x0F;
        *reg = res;
    }

    /// Increment a 16-bit register pair, flags untouched.
    pub fn inc_nn(high_reg: &mut u8, low_reg: &mut u8)
        ensures
            word_of_bytes(*final(high_reg), *final(low_reg))
                == wrap_add16(word_of_bytes(*old(high_reg), *old(low_reg)), 1),
    {
        let v: u16 = BinUtils::u16_from_u8s(*high_reg, *low_reg);
        let vs: (u8, u8) = BinUtils::u8s_from_u16(v.wrapping_add(1));
        *high_reg = vs.0;
        *low_reg = vs.1;
    }

    /// Swap the nibbles of a register.
    pub fn swap(n: &mut u8, f_reg: &mut FRegister)
        ensures
            *final(n) == spec_swap(*old(n)).0,
            *final(f_reg) == spec_swap(*old(n)).1,
    {
        f_reg.zero = *n == 0;
        f_reg.substract = false;
        f_reg.half_carry = false;
        f_reg.carry = false;
        *n = (*n >> 4) | (*n << 4);
    }

    /// Rotate right through the carry flag.
    pub fn rr(reg: &mut u8, f_reg: &mut FRegister)
        ensures
            *final(reg) == spec_rr(*old(reg), *old(f_reg)).0,
            *final(f_reg) == spec_rr(*old(reg), *old(f_reg)).1,
    {
        let carry: bool = *reg & 0x1 == 0x1;
        *reg = (*reg >> 1) | (if f_reg.carry { 0x80 } else { 0 });
        f_reg.zero = *reg == 0;
        f_reg.substract = false;
        f_reg.half_carry = false;
        f_reg.carry = carry;
    }

    /// Rotate right through bit 0 (or plain shift when `with_carry` is
    /// false).
    pub fn rrc(reg: &mut u8, f_reg: &mut FRegister, with_carry: bool)
        ensures
            *final(reg) == spec_rrc(*old(reg), *old(f_reg), with_carry).0,
            *final(f_reg) == spec_rrc(*old(reg), *old(f_reg), with_carry).1,
    {
        let carry: bool = *reg & 0x1 == 0x1;
        *reg = (*reg >> 1) | (if carry && with_carry { 0x80 } else { 0 });
        f_reg.zero = *reg == 0;
        f_reg.substract = false;
        f_reg.half_carry = false;
        f_reg.carry = carry;
    }

    /// Rotate left through bit 7.
    pub fn rlc(reg: &mut u8, f_reg: &mut FRegister)
        ensures
            *final(reg) == spec_rlc(*old(reg), *old(f_reg)).0,
            *final(f_reg) == spec_rlc(*old(reg), *old(f_reg)).1,
    {
        let carry: bool = *reg & 0x80 == 0x80;
        *reg = (*reg << 1) | (if carry { 1 } else { 0 });
        f_reg.zero = *reg == 0;
        f_reg.substract = false;
        f_reg.half_carry = false;
        f_reg.carry = carry;
    }

    /// Rotate left through the carry flag.
    pub fn rl(reg: &mut u8, f_reg: &mut FRegister)
        ensures
            *final(reg) == spec_rl(*old(reg), *old(f_reg)).0,
            *final(f_reg) == spec_rl(*old(reg), *old(f_reg)).1,
    {
        let carry: bool = *reg & 0x80 == 0x80;
        *reg = (*reg << 1) | (if f_reg.carry { 1 } else { 0 });
        f_reg.zero = *reg == 0;
        f_reg.substract = false;
        f_reg.half_carry = false;
        f_reg.carry = carry;
    }

    /// Compare a value against the accumulator (subtract flags only).
    pub fn cp(a_reg: u8, v: u8, f_reg: &mut FRegister)
        ensures
            *final(f_reg) == spec_cp(a_reg, v),
    {
        f_reg.zero = a_reg == v;
        f_reg.substract = true;
        f_reg.half_carry = (a_reg & 0xF) < (v & 0xF);
        f_reg.carry = a_reg < v;
    }

    /// Subtract a value from the accumulator.
    pub fn sub(a_reg: &mut u8, v: u8, f_reg: &mut FRegister)
        ensures
            *final(a_reg) == spec_sub(*old(a_reg), v).0,
            *final(f_reg) == spec_sub(*old(a_reg), v).1,
    {
        let result: u8 = a_reg.wrapping_sub(v);
        f_reg.zero = result == 0;
        f_reg.substract = true;
        f_reg.half_carry = (*a_reg & 0xF) < (v & 0xF);
        f_reg.carry = *a_reg < v;
        *a_reg = result;
    }

    /// Subtract a value and the carry flag from the accumulator.
    pub fn sbc(a_reg: &mut u8, v: u8, f_reg: &mut FRegister)
        ensures
            *final(a_reg) == spec_sbc(*old(a_reg), v, *old(f_reg)).0,
            *final(f_reg) == spec_sbc(*old(a_reg), v, *old(f_reg)).1,
    {
        let carry: u8 = if f_reg.carry { 1 } else { 0 };
        let result: u8 = a_reg.wrapping_sub(v).wrapping_sub(carry);
        f_reg.zero = result == 0;
        f_reg.substract = true;
        f_reg.carry = (*a_reg as u16) < (v as u16) + (carry as u16);
        f_reg.half_carry = ((*a_reg & 0xF) as u16) < ((v & 0xF) as u16) + (carry as u16);
        *a_reg = result;
    }

    /// Shift left, bit 7 into the carry flag.
    pub fn sla(a_reg: &mut u8, f_reg: &mut FRegister)
        ensures
            *final(a_reg) == spec_sla(*old(a_reg)).0,
            *final(f_reg) == spec_sla(*old(a_reg)).1,
    {
        f_reg.substract = false;
        f_reg.half_carry = false;
        f_reg.carry = *a_reg & 0x80 != 0;
        *a_reg = *a_reg << 1;
        f_reg.zero = *a_reg == 0;
    }

    /// Shift right keeping bit 7, bit 0 into the carry flag.
    pub fn sra(a_reg: &mut u8, f_reg: &mut FRegister)
        ensures
            *final(a_reg) == spec_sra(*old(a_reg)).0,
            *final(f_reg) == spec_sra(*old(a_reg)).1,
    {
        f_reg.substract = false;
        f_reg.half_carry = false;
        f_reg.carry = *a_reg & 1 != 0;
        *a_reg = (*a_reg >> 1) | (*a_reg & 0x80);
        f_reg.zero = *a_reg == 0;
    }

    /// Add a value into the accumulator.
    pub fn add(a_reg: &mut u8, v: u8, f_reg: &mut FRegister)
        ensures
            *final(a_reg) == spec_add(*old(a_reg), v).0,
            *final(f_reg) == spec_add(*old(a_reg), v).1,
    {
        let result: u8 = a_reg.wrapping_add(v);
        f_reg.zero = result == 0;
        f_reg.substract = false;
        f_reg.half_carry = ((*a_reg & 0xF) as u16) + ((v & 0xF) as u16) > 0xF;
        f_reg.carry = (*a_reg as u16) + (v as u16) > 0xFF;
        *a_reg = result;
    }

    /// Add a 16-bit value into the HL pair: half-carry from bit 11,
    /// carry from bit 15, the zero flag untouched.
    pub fn add_nn(h: &mut u8, l: &mut u8, v: u16, f_reg: &mut FRegister)
        ensures
            word_of_bytes(*final(h), *final(l))
                == spec_add16(word_of_bytes(*old(h), *old(l)), v, *old(f_reg)).0,
            *final(f_reg) == spec_add16(word_of_bytes(*old(h), *old(l)), v, *old(f_reg)).1,
    {
        let hl: u16 = BinUtils::u16_from_u8s(*h, *l);
        let hl_a: u16 = hl.wrapping_add(v);
        let hlu8s: (u8, u8) = BinUtils::u8s_from_u16(hl_a);
        f_reg.substract = false;
        f_reg.carry = hl > 0xFFFF - v;
        f_reg.half_carry = ((hl & 0x07FF) as u32) + ((v & 0x07FF) as u32) > 0x07FF;
        *h = hlu8s.0;
        *l = hlu8s.1;
        proof {
            crate::bin_utils::lemma_word_byte_round_trip(*h, *l, hl_a);
        }
    }

    /// Add a value and the carry flag into the accumulator.
    pub fn adc(a_reg: &mut u8, n: u8, f_reg: &mut FRegister)
        ensures
            *final(a_reg) == spec_adc(*old(a_reg), n, *old(f_reg)).0,
            *final(f_reg) == spec_adc(*old(a_reg), n, *old(f_reg)).1,
    {
        let carry: u8 = if f_reg.carry { 1 } else { 0 };
        let res: u8 = a_reg.wrapping_add(n).wrapping_add(carry);
        let res_l: usize = *a_reg as usize + n as usize + carry as usize;
        f_reg.zero = res == 0;
        f_reg.substract = false;
        f_reg.half_carry = ((*a_reg & 0xF) as u16) + ((n & 0xF) as u16) + (carry as u16) > 0xF;
        f_reg.carry = res_l > 255;
        *a_reg = res;
    }

    /// Shift right, bit 0 into the carry flag.
    pub fn srl(reg: &mut u8, f_reg: &mut FRegister)
        ensures
            *final(reg) == spec_srl(*old(reg)).0,
            *final(f_reg) == spec_srl(*old(reg)).1,
    {
        f_reg.carry = *reg & 0x1 == 0x1;
        let res: u8 = *reg >> 1;
        f_reg.zero = res == 0;
        f_reg.substract = false;
        f_reg.half_carry = false;
        *reg = res;
    }
}

/// The CPU: the register file, the interrupt master enable, and the two
/// pending flags that delay an enable or disable by one instruction.
pub struct Cpu {
    pub registers: Registers,
    pub ime: bool,
    pub ime_next: bool,
    pub imd_next: bool,
}

/// The BC register pair of a CPU state.
pub open spec fn bc(c: Cpu) -> u16 {
    word_of_bytes(c.registers.b, c.registers.c)
}

/// The DE register pair of a CPU state.
pub open spec fn de(c: Cpu) -> u16 {
    word_of_bytes(c.registers.d, c.registers.e)
}

/// The HL register pair of a CPU state.
pub open spec fn hl(c: Cpu) -> u16 {
    word_of_bytes(c.registers.h, c.registers.l)
}

/// The CPU state with one 8-bit register replaced, by operand index:
/// 0 B, 1 C, 2 D, 3 E, 4 H, 5 L, 7 A (index 6 addresses memory and
/// leaves the registers alone).
pub open spec fn with_reg8(c: Cpu, i: int, v: u8) -> Cpu {
    if i == 0 {
        Cpu { registers: Registers { b: v, ..c.registers }, ..c }
    } else if i == 1 {
        Cpu { registers: Registers { c: v, ..c.registers }, ..c }
    } else if i == 2 {
        Cpu { registers: Registers { d: v, ..c.registers }, ..c }
    } else if i == 3 {
        Cpu { registers: Registers { e: v, ..c.registers }, ..c }
    } else if i == 4 {
        Cpu { registers: Registers { h: v, ..c.registers }, ..c }
    } else if i == 5 {
        Cpu { registers: Registers { l: v, ..c.registers }, ..c }
    } else if i == 7 {
        Cpu { registers: Registers { a: v, ..c.registers }, ..c }
    } else {
        c
    }
}

/// The 8-bit register selected by an operand index (6, the memory
/// operand, reads as zero here; its callers read memory instead).
pub open spec fn reg8(c: Cpu, i: int) -> u8 {
    if i == 0 {
        c.registers.b
    } else if i == 1 {
        c.registers.c
    } else if i == 2 {
        c.registers.d
    } else if i == 3 {
        c.registers.e
    } else if i == 4 {
        c.registers.h
    } else if i == 5 {
        c.registers.l
    } else if i == 7 {
        c.registers.a
    } else {
        0
    }
}

/// The CPU state with the flag register replaced.
pub open spec fn with_f(c: Cpu, f: FRegister) -> Cpu {
    Cpu { registers: Registers { f: f, ..c.registers }, ..c }
}

/// The CPU state with the program counter replaced.
pub open spec fn with_pc(c: Cpu, pc: u16) -> Cpu {
    Cpu { registers: Registers { pc: pc, ..c.registers }, ..c }
}

impl Cpu {
    /// A fresh CPU: zeroed registers, interrupts enabled, no pending
    /// enable change.
    pub fn new() -> (r: Self)
        ensures
            r.registers == (Registers {
                a: 0u8, b: 0u8, c: 0u8, d: 0u8, e: 0u8,
                f: FRegister { zero: false, substract: false, half_carry: false, carry: false },
                h: 0u8, l: 0u8, sp: 0u16, pc: 0u16,
            }),
            r.ime,
            !r.ime_next,
            !r.imd_next,
    {
        Cpu { registers: Registers::new(), ime: true, ime_next: false, imd_next: false }
    }

    /// Fetch the byte at the program counter and step past it.
    pub fn fetch_u8(&mut self, mem: &mut Memory) -> (v: u8)
        requires
            old(mem)@.wf(),
        ensures
            v == old(mem)@.spec_read(old(self).registers.pc as int),
            *final(self) == with_pc(*old(self), wrap_add16(old(self).registers.pc, 1)),
            final(mem)@ == old(mem)@,
    {
        let v: u8 = mem.read_u8(self.registers.pc as usize);
        self.registers.pc = self.registers.pc.wrapping_add(1);
        v
    }

    /// Fetch a 16-bit immediate, low byte first, and step past it.
    pub fn fetch_u16(&mut self, mem: &mut Memory) -> (v: u16)
        requires
            old(mem)@.wf(),
        ensures
            v == word_of_bytes(
                old(mem)@.spec_read(wrap_add16(old(self).registers.pc, 1) as int),
                old(mem)@.spec_read(old(self).registers.pc as int),
            ),
            *final(self) == with_pc(*old(self), wrap_add16(old(self).registers.pc, 2)),
            final(mem)@ == old(mem)@,
    {
        let low: u8 = self.fetch_u8(mem);
        let high: u8 = self.fetch_u8(mem);
        BinUtils::u16_from_u8s(high, low)
    }

    /// Push one byte: the stack pointer moves down (modulo 65536), then
    /// the byte is stored at the new stack pointer.
    pub fn push(&mut self, mem: &mut Memory, v: u8)
        requires
            old(mem)@.wf(),
        ensures
            *final(self) == (Cpu {
                registers: Registers {
                    sp: wrap_sub16(old(self).registers.sp, 1),
                    ..old(self).registers
                },
                ..*old(self)
            }),
            final(mem)@ == old(mem)@.spec_write(v, wrap_sub16(old(self).registers.sp, 1) as int),
            final(mem)@.wf(),
    {
        self.registers.sp = self.registers.sp.wrapping_sub(1);
        mem.write_u8(v, self.registers.sp as usize);
    }

    /// Push a 16-bit word: the high byte is stored first (at the higher
    /// address), then the low byte below it.
    pub fn push_word(&mut self, mem: &mut Memory, v: u16)
        requires
            old(mem)@.wf(),
        ensures
            *final(self) == (Cpu {
                registers: Registers {
                    sp: wrap_sub16(old(self).registers.sp, 2),
                    ..old(self).registers
                },
                ..*old(self)
            }),
            final(mem)@ == old(mem)@.spec_write(
                high_byte(v),
                wrap_sub16(old(self).registers.sp, 1) as int,
            ).spec_write(low_byte(v), wrap_sub16(old(self).registers.sp, 2) as int),
            final(mem)@.wf(),
    {
        let u8s: (u8, u8) = BinUtils::u8s_from_u16(v);
        self.push(mem, u8s.0);
        self.push(mem, u8s.1);
    }

    /// Pop one byte from the stack pointer, then move it up (modulo
    /// 65536).
    pub fn pop(&mut self, mem: &mut Memory) -> (v: u8)
        requires
            old(mem)@.wf(),
        ensures
            v == old(mem)@.spec_read(old(self).registers.sp as int),
            *final(self) == (Cpu {
                registers: Registers {
                    sp: wrap_add16(old(self).registers.sp, 1),
                    ..old(self).registers
                },
                ..*old(self)
            }),
            final(mem)@ == old(mem)@,
    {
        let v: u8 = mem.read_u8(self.registers.sp as usize);
        self.registers.sp = self.registers.sp.wrapping_add(1);
        v
    }

    /// Pop a 16-bit word: the low byte comes first, the high byte above
    /// it — the mirror image of the push order.
    pub fn pop_word(&mut self, mem: &mut Memory) -> (v: u16)
        requires
            old(mem)@.wf(),
        ensures
            v == word_of_bytes(
                old(mem)@.spec_read(wrap_add16(old(self).registers.sp, 1) as int),
                old(mem)@.spec_read(old(self).registers.sp as int),
            ),
            *final(self) == (Cpu {
                registers: Registers {
                    sp: wrap_add16(old(self).registers.sp, 2),
                    ..old(self).registers
                },
                ..*old(self)
            }),
            final(mem)@ == old(mem)@,
    {
        let low: u8 = self.pop(mem);
        let high: u8 = self.pop(mem);
        BinUtils::u16_from_u8s(high, low)
    }
}

/// The unary extended-table operation selected by a family index:
/// 0 rotate left, 1 rotate right, 2 rotate left through carry, 3 rotate
/// right through carry, 4 shift left, 5 shift right arithmetic, 6 nibble
/// swap, 7 shift right logical.
pub open spec fn cb_unary(fam: int, v: u8, f: FRegister) -> (u8, FRegister) {
    if fam == 0 {
        spec_rlc(v, f)
    } else if fam == 1 {
        spec_rrc(v, f, true)
    } else if fam == 2 {
        spec_rl(v, f)
    } else if fam == 3 {
        spec_rr(v, f)
    } else if fam == 4 {
        spec_sla(v)
    } else if fam == 5 {
        spec_sra(v)
    } else if fam == 6 {
        spec_swap(v)
    } else {
        spec_srl(v)
    }
}

/// One step of the extended (0xCB-prefixed) opcode table: rotates,
/// shifts and swap below 0x40, then bit test, bit clear and bit set,
/// each over the operand selected by the low three bits (6 addresses
/// the byte at HL). Register forms cost 8 cycles and memory forms 16.
#[verifier::opaque]
pub open spec fn cb_step(op: u8, c0: Cpu, m0: MemView, c1: Cpu, m1: MemView, cycles: u8) -> bool {
    let loc = (op % 8) as int;
    let b: u8 = ((op / 8) % 8) as u8;
    let addr = hl(c0) as int;
    let v: u8 = if loc == 6 {
        m0.spec_read(addr)
    } else {
        reg8(c0, loc)
    };
    if op < 0x40 {
        let res = cb_unary((op / 8) as int, v, c0.registers.f);
        &&& (if loc == 6 {
            c1 == with_f(c0, res.1) && m1 == m0.spec_write(res.0, addr)
        } else {
            c1 == with_f(with_reg8(c0, loc, res.0), res.1) && m1 == m0
        })
        &&& cycles == (if loc == 6 { 16u8 } else { 8u8 })
    } else if op < 0x80 {
        &&& c1 == with_f(c0, spec_bit(b, v, c0.registers.f))
        &&& m1 == m0
        &&& cycles == (if loc == 6 { 16u8 } else { 8u8 })
    } else if op < 0xC0 {
        let r = v & !(1u8 << b);
        &&& (if loc == 6 {
            c1 == c0 && m1 == m0.spec_write(r, addr)
        } else {
            c1 == with_reg8(c0, loc, r) && m1 == m0
        })
        &&& cycles == (if loc == 6 { 16u8 } else { 8u8 })
    } else {
        let r = v | (1u8 << b);
        &&& (if loc == 6 {
            c1 == c0 && m1 == m0.spec_write(r, addr)
        } else {
            c1 == with_reg8(c0, loc, r) && m1 == m0
        })
        &&& cycles == (if loc == 6 { 16u8 } else { 8u8 })
    }
}

/// One step of the register-to-register load quarter of the base table
/// (opcodes 0x40..0x7F): a plain move between the operands selected by
/// the two three-bit fields, with operand 6 addressing the byte at HL,
/// except 0x76, which is the halt instruction.
#[verifier::opaque]
pub open spec fn ld_step(op: u8, c0: Cpu, m0: MemView, c1: Cpu, m1: MemView, cycles: u8) -> bool {
    let src = (op % 8) as int;
    let dst = ((op / 8) % 8) as int;
    if op == 0x76 {
        &&& c1 == c0
        &&& m1 == (MemView { halted: true, ..m0 })
        &&& cycles == 4
    } else if src == 6 {
        &&& c1 == with_reg8(c0, dst, m0.spec_read(hl(c0) as int))
        &&& m1 == m0
        &&& cycles == 8
    } else if dst == 6 {
        &&& c1 == c0
        &&& m1 == m0.spec_write(reg8(c0, src), hl(c0) as int)
        &&& cycles == 8
    } else {
        &&& c1 == with_reg8(c0, dst, reg8(c0, src))
        &&& m1 == m0
        &&& cycles == 4
    }
}

/// The arithmetic-logic operation selected by a family index: 0 add,
/// 1 add with carry, 2 subtract, 3 subtract with borrow, 4 and,
/// 5 exclusive or, 6 or, 7 compare (which keeps the accumulator).
pub open spec fn alu_apply(fam: int, a: u8, v: u8, f: FRegister) -> (u8, FRegister) {
    if fam == 0 {
        spec_add(a, v)
    } else if fam == 1 {
        spec_adc(a, v, f)
    } else if fam == 2 {
        spec_sub(a, v)
    } else if fam == 3 {
        spec_sbc(a, v, f)
    } else if fam == 4 {
        spec_and(a, v)
    } else if fam == 5 {
        spec_xor(a, v)
    } else if fam == 6 {
        spec_or(a, v)
    } else {
        (a, spec_cp(a, v))
    }
}

/// One step of the accumulator-arithmetic quarter of the base table
/// (opcodes 0x80..0xBF): the family field picks the operation and the
/// low three bits pick the operand (6 addresses the byte at HL).
#[verifier::opaque]
pub open spec fn alu_step(op: u8, c0: Cpu, m0: MemView, c1: Cpu, m1: MemView, cycles: u8) -> bool {
    let src = (op % 8) as int;
    let fam = ((op / 8) % 8) as int;
    let v: u8 = if src == 6 {
        m0.spec_read(hl(c0) as int)
    } else {
        reg8(c0, src)
    };
    let res = alu_apply(fam, c0.registers.a, v, c0.registers.f);
    &&& c1 == with_f(with_reg8(c0, 7, res.0), res.1)
    &&& m1 == m0
    &&& cycles == (if src == 6 { 8u8 } else { 4u8 })
}


/// Steps of base-table opcodes 0x00..0x0F.
#[verifier::opaque]
pub open spec fn q0_col0_step(op: u8, c0: Cpu, m0: MemView, c1: Cpu, m1: MemView, cycles: u8) -> bool {
    let f = c0.registers.f;
    let a = c0.registers.a;
    let sp = c0.registers.sp;
    let pcv = c0.registers.pc;
    let pc1 = wrap_add16(pcv, 1);
    let pc2 = wrap_add16(pcv, 2);
    let d8 = m0.spec_read(pcv as int);
    let dhi = m0.spec_read(pc1 as int);
    let dw = word_of_bytes(dhi, d8);
    if op == 0x00 {

        c1 == c0 && m1 == m0 && cycles == 4
    } else if op == 0x01 {

        c1 == (Cpu { registers: Registers { b: dhi, c: d8, pc: pc2, ..c0.registers }, ..c0 })
            && m1 == m0 && cycles == 12
    } else if op == 0x02 {

        c1 == c0 && m1 == m0.spec_write(a, bc(c0) as int) && cycles == 8
    } else if op == 0x03 {

        let r = wrap_add16(bc(c0), 1);
        c1 == (Cpu { registers: Registers { b: high_byte(r), c: low_byte(r), ..c0.registers }, ..c0 })
            && m1 == m0 && cycles == 8
    } else if op == 0x04 {

        let res = spec_inc(c0.registers.b, f);
        c1 == with_f(with_reg8(c0, 0, res.0), res.1) && m1 == m0 && cycles == 4
    } else if op == 0x05 {

        let res = spec_dec(c0.registers.b, f);
        c1 == with_f(with_reg8(c0, 0, res.0), res.1) && m1 == m0 && cycles == 4
    } else if op == 0x06 {

        c1 == with_reg8(with_pc(c0, pc1), 0, d8) && m1 == m0 && cycles == 8
    } else if op == 0x07 {

        let res = spec_rlc(a, f);
        c1 == with_f(with_reg8(c0, 7, res.0), FRegister { zero: false, ..res.1 })
            && m1 == m0 && cycles == 4
    } else if op == 0x08 {

        c1 == with_pc(c0, pc2)
            && m1 == m0.spec_write(low_byte(sp), dw as int).spec_write(
                high_byte(sp),
                wrap_add16(dw, 1) as int,
            ) && cycles == 20
    } else if op == 0x09 {

        let res = spec_add16(hl(c0), bc(c0), f);
        c1 == (Cpu {
            registers: Registers {
                h: high_byte(res.0),
                l: low_byte(res.0),
                f: res.1,
                ..c0.registers
            },
            ..c0
        }) && m1 == m0 && cycles == 8
    } else if op == 0x0A {

        c1 == with_reg8(c0, 7, m0.spec_read(bc(c0) as int)) && m1 == m0 && cycles == 8
    } else if op == 0x0B {

        let r = wrap_sub16(bc(c0), 1);
        c1 == (Cpu { registers: Registers { b: high_byte(r), c: low_byte(r), ..c0.registers }, ..c0 })
            && m1 == m0 && cycles == 8
    } else if op == 0x0C {

        let res = spec_inc(c0.registers.c, f);
        c1 == with_f(with_reg8(c0, 1, res.0), res.1) && m1 == m0 && cycles == 4
    } else if op == 0x0D {

        let res = spec_dec(c0.registers.c, f);
        c1 == with_f(with_reg8(c0, 1, res.0), res.1) && m1 == m0 && cycles == 4
    } else if op == 0x0E {

        c1 == with_reg8(with_pc(c0, pc1), 1, d8) && m1 == m0 && cycles == 8
    } else if op == 0x0F {

        let res = spec_rrc(a, f, true);
        c1 == with_f(with_reg8(c0, 7, res.0), FRegister { zero: false, ..res.1 })
            && m1 == m0 && cycles == 4
    } else {
        false
    }
}

/// Steps of base-table opcodes 0x10..0x1F.
#[verifier::opaque]
pub open spec fn q0_col1_step(op: u8, c0: Cpu, m0: MemView, c1: Cpu, m1: MemView, cycles: u8) -> bool {
    let f = c0.registers.f;
    let a = c0.registers.a;
    let sp = c0.registers.sp;
    let pcv = c0.registers.pc;
    let pc1 = wrap_add16(pcv, 1);
    let pc2 = wrap_add16(pcv, 2);
    let d8 = m0.spec_read(pcv as int);
    let dhi = m0.spec_read(pc1 as int);
    let dw = word_of_bytes(dhi, d8);
    if op == 0x10 {

        c1 == c0 && m1 == (MemView { stopped: true, div: 0, ..m0 }) && cycles == 4
    } else if op == 0x11 {

        c1 == (Cpu { registers: Registers { d: dhi, e: d8, pc: pc2, ..c0.registers }, ..c0 })
            && m1 == m0 && cycles == 12
    } else if op == 0x12 {

        c1 == c0 && m1 == m0.spec_write(a, de(c0) as int) && cycles == 8
    } else if op == 0x13 {

        let r = wrap_add16(de(c0), 1);
        c1 == (Cpu { registers: Registers { d: high_byte(r), e: low_byte(r), ..c0.registers }, ..c0 })
            && m1 == m0 && cycles == 8
    } else if op == 0x14 {

        let res = spec_inc(c0.registers.d, f);
        c1 == with_f(with_reg8(c0, 2, res.0), res.1) && m1 == m0 && cycles == 4
    } else if op == 0x15 {

        let res = spec_dec(c0.registers.d, f);
        c1 == with_f(with_reg8(c0, 2, res.0), res.1) && m1 == m0 && cycles == 4
    } else if op == 0x16 {

        c1 == with_reg8(with_pc(c0, pc1), 2, d8) && m1 == m0 && cycles == 8
    } else if op == 0x17 {

        let res = spec_rl(a, f);
        c1 == with_f(with_reg8(c0, 7, res.0), FRegister { zero: false, ..res.1 })
            && m1 == m0 && cycles == 4
    } else if op == 0x18 {

        c1 == with_pc(c0, jr_dest(pc1, signed8(d8))) && m1 == m0 && cycles == 12
    } else if op == 0x19 {

        let res = spec_add16(hl(c0), de(c0), f);
        c1 == (Cpu {
            registers: Registers {
                h: high_byte(res.0),
                l: low_byte(res.0),
                f: res.1,
                ..c0.registers
            },
            ..c0
        }) && m1 == m0 && cycles == 8
    } else if op == 0x1A {

        c1 == with_reg8(c0, 7, m0.spec_read(de(c0) as int)) && m1 == m0 && cycles == 8
    } else if op == 0x1B {

        let r = wrap_sub16(de(c0), 1);
        c1 == (Cpu { registers: Registers { d: high_byte(r), e: low_byte(r), ..c0.registers }, ..c0 })
            && m1 == m0 && cycles == 8
    } else if op == 0x1C {

        let res = spec_inc(c0.registers.e, f);
        c1 == with_f(with_reg8(c0, 3, res.0), res.1) && m1 == m0 && cycles == 4
    } else if op == 0x1D {

        let res = spec_dec(c0.registers.e, f);
        c1 == with_f(with_reg8(c0, 3, res.0), res.1) && m1 == m0 && cycles == 4
    } else if op == 0x1E {

        c1 == with_reg8(with_pc(c0, pc1), 3, d8) && m1 == m0 && cycles == 8
    } else if op == 0x1F {

        let res = spec_rr(a, f);
        c1 == with_f(with_reg8(c0, 7, res.0), FRegister { zero: false, ..res.1 })
            && m1 == m0 && cycles == 4
    } else {
        false
    }
}

/// Steps of base-table opcodes 0x20..0x2F.
#[verifier::opaque]
pub open spec fn q0_col2_step(op: u8, c0: Cpu, m0: MemView, c1: Cpu, m1: MemView, cycles: u8) -> bool {
    let f = c0.registers.f;
    let a = c0.registers.a;
    let sp = c0.registers.sp;
    let pcv = c0.registers.pc;
    let pc1 = wrap_add16(pcv, 1);
    let pc2 = wrap_add16(pcv, 2);
    let d8 = m0.spec_read(pcv as int);
    let dhi = m0.spec_read(pc1 as int);
    let dw = word_of_bytes(dhi, d8);
    if op == 0x20 {

        m1 == m0 && (if !f.zero {
            c1 == with_pc(c0, jr_dest(pc1, signed8(d8))) && cycles == 12
        } else {
            c1 == with_pc(c0, pc1) && cycles == 8
        })
    } else if op == 0x21 {

        c1 == (Cpu { registers: Registers { h: dhi, l: d8, pc: pc2, ..c0.registers }, ..c0 })
            && m1 == m0 && cycles == 12
    } else if op == 0x22 {

        let r = wrap_add16(hl(c0), 1);
        c1 == (Cpu { registers: Registers { h: high_byte(r), l: low_byte(r), ..c0.registers }, ..c0 })
            && m1 == m0.spec_write(a, hl(c0) as int) && cycles == 8
    } else if op == 0x23 {

        let r = wrap_add16(hl(c0), 1);
        c1 == (Cpu { registers: Registers { h: high_byte(r), l: low_byte(r), ..c0.registers }, ..c0 })
            && m1 == m0 && cycles == 8
    } else if op == 0x24 {

        let res = spec_inc(c0.registers.h, f);
        c1 == with_f(with_reg8(c0, 4, res.0), res.1) && m1 == m0 && cycles == 4
    } else if op == 0x25 {

        let res = spec_dec(c0.registers.h, f);
        c1 == with_f(with_reg8(c0, 4, res.0), res.1) && m1 == m0 && cycles == 4
    } else if op == 0x26 {

        c1 == with_reg8(with_pc(c0, pc1), 4, d8) && m1 == m0 && cycles == 8
    } else if op == 0x27 {

        let res = spec_daa(a, f);
        c1 == with_f(with_reg8(c0, 7, res.0), res.1) && m1 == m0 && cycles == 4
    } else if op == 0x28 {

        m1 == m0 && (if f.zero {
            c1 == with_pc(c0, jr_dest(pc1, signed8(d8))) && cycles == 12
        } else {
            c1 == with_pc(c0, pc1) && cycles == 8
        })
    } else if op == 0x29 {

        let res = spec_add16(hl(c0), hl(c0), f);
        c1 == (Cpu {
            registers: Registers {
                h: high_byte(res.0),
                l: low_byte(res.0),
                f: res.1,
                ..c0.registers
            },
            ..c0
        }) && m1 == m0 && cycles == 8
    } else if op == 0x2A {

        let r = wrap_add16(hl(c0), 1);
        c1 == (Cpu {
            registers: Registers {
                a: m0.spec_read(hl(c0) as int),
                h: high_byte(r),
                l: low_byte(r),
                ..c0.registers
            },
            ..c0
        }) && m1 == m0 && cycles == 8
    } else if op == 0x2B {

        let r = wrap_sub16(hl(c0), 1);
        c1 == (Cpu { registers: Registers { h: high_byte(r), l: low_byte(r), ..c0.registers }, ..c0 })
            && m1 == m0 && cycles == 8
    } else if op == 0x2C {

        let res = spec_inc(c0.registers.l, f);
        c1 == with_f(with_reg8(c0, 5, res.0), res.1) && m1 == m0 && cycles == 4
    } else if op == 0x2D {

        let res = spec_dec(c0.registers.l, f);
        c1 == with_f(with_reg8(c0, 5, res.0), res.1) && m1 == m0 && cycles == 4
    } else if op == 0x2E {

        c1 == with_reg8(with_pc(c0, pc1), 5, d8) && m1 == m0 && cycles == 8
    } else if op == 0x2F {

        c1 == with_f(
            with_reg8(c0, 7, !a),
            FRegister { zero: f.zero, substract: true, half_carry: true, carry: f.carry },
        ) && m1 == m0 && cycles == 4
    } else {
        false
    }
}

/// Steps of base-table opcodes 0x30..0x3F.
#[verifier::opaque]
pub open spec fn q0_col3_step(op: u8, c0: Cpu, m0: MemView, c1: Cpu, m1: MemView, cycles: u8) -> bool {
    let f = c0.registers.f;
    let a = c0.registers.a;
    let sp = c0.registers.sp;
    let pcv = c0.registers.pc;
    let pc1 = wrap_add16(pcv, 1);
    let pc2 = wrap_add16(pcv, 2);
    let d8 = m0.spec_read(pcv as int);
    let dhi = m0.spec_read(pc1 as int);
    let dw = word_of_bytes(dhi, d8);
    if op == 0x30 {

        m1 == m0 && (if !f.carry {
            c1 == with_pc(c0, jr_dest(pc1, signed8(d8))) && cycles == 12
        } else {
            c1 == with_pc(c0, pc1) && cycles == 8
        })
    } else if op == 0x31 {

        c1 == (Cpu { registers: Registers { sp: dw, pc: pc2, ..c0.registers }, ..c0 })
            && m1 == m0 && cycles == 12
    } else if op == 0x32 {

        let r = wrap_sub16(hl(c0), 1);
        c1 == (Cpu { registers: Registers { h: high_byte(r), l: low_byte(r), ..c0.registers }, ..c0 })
            && m1 == m0.spec_write(a, hl(c0) as int) && cycles == 8
    } else if op == 0x33 {

        c1 == (Cpu { registers: Registers { sp: wrap_add16(sp, 1), ..c0.registers }, ..c0 })
            && m1 == m0 && cycles == 8
    } else if op == 0x34 {

        let res = spec_inc(m0.spec_read(hl(c0) as int), f);
        c1 == with_f(c0, res.1) && m1 == m0.spec_write(res.0, hl(c0) as int) && cycles == 12
    } else if op == 0x35 {

        let res = spec_dec(m0.spec_read(hl(c0) as int), f);
        c1 == with_f(c0, res.1) && m1 == m0.spec_write(res.0, hl(c0) as int) && cycles == 12
    } else if op == 0x36 {

        c1 == with_pc(c0, pc1) && m1 == m0.spec_write(d8, hl(c0) as int) && cycles == 12
    } else if op == 0x37 {

        c1 == with_f(
            c0,
            FRegister { zero: f.zero, substract: false, half_carry: false, carry: true },
        ) && m1 == m0 && cycles == 4
    } else if op == 0x38 {

        m1 == m0 && (if f.carry {
            c1 == with_pc(c0, jr_dest(pc1, signed8(d8))) && cycles == 12
        } else {
            c1 == with_pc(c0, pc1) && cycles == 8
        })
    } else if op == 0x39 {

        let res = spec_add16(hl(c0), sp, f);
        c1 == (Cpu {
            registers: Registers {
                h: high_byte(res.0),
                l: low_byte(res.0),
                f: res.1,
                ..c0.registers
            },
            ..c0
        }) && m1 == m0 && cycles == 8
    } else if op == 0x3A {

        let r = wrap_sub16(hl(c0), 1);
        c1 == (Cpu {
            registers: Registers {
                a: m0.spec_read(hl(c0) as int),
                h: high_byte(r),
                l: low_byte(r),
                ..c0.registers
            },
            ..c0
        }) && m1 == m0 && cycles == 8
    } else if op == 0x3B {

        c1 == (Cpu { registers: Registers { sp: wrap_sub16(sp, 1), ..c0.registers }, ..c0 })
            && m1 == m0 && cycles == 8
    } else if op == 0x3C {

        let res = spec_inc(a, f);
        c1 == with_f(with_reg8(c0, 7, res.0), res.1) && m1 == m0 && cycles == 4
    } else if op == 0x3D {

        let res = spec_dec(a, f);
        c1 == with_f(with_reg8(c0, 7, res.0), res.1) && m1 == m0 && cycles == 4
    } else if op == 0x3E {

        c1 == with_reg8(with_pc(c0, pc1), 7, d8) && m1 == m0 && cycles == 8
    } else if op == 0x3F {

        c1 == with_f(
            c0,
            FRegister { zero: f.zero, substract: false, half_carry: false, carry: !f.carry },
        ) && m1 == m0 && cycles == 4
    } else {
        false
    }
}

/// One step of the first quarter of the base table (opcodes
/// 0x00..0x3F): 16-bit immediate loads, indirect accumulator moves,
/// 8- and 16-bit increments and decrements, accumulator rotates, the
/// decimal adjust, relative jumps, the 16-bit adds into HL, and the
/// carry-flag, halt-timer and stop operations.
#[verifier::opaque]
pub open spec fn q0_step(op: u8, c0: Cpu, m0: MemView, c1: Cpu, m1: MemView, cycles: u8) -> bool {
    if op < 0x10 {
        q0_col0_step(op, c0, m0, c1, m1, cycles)
    } else if op < 0x20 {
        q0_col1_step(op, c0, m0, c1, m1, cycles)
    } else if op < 0x30 {
        q0_col2_step(op, c0, m0, c1, m1, cycles)
    } else {
        q0_col3_step(op, c0, m0, c1, m1, cycles)
    }
}
/// The memory state after a 16-bit word is pushed at a stack pointer:
/// the high byte lands one below it, the low byte two below.
pub open spec fn pushed(m0: MemView, sp: u16, w: u16) -> MemView {
    m0.spec_write(high_byte(w), wrap_sub16(sp, 1) as int).spec_write(
        low_byte(w),
        wrap_sub16(sp, 2) as int,
    )
}

/// Steps of base-table opcodes 0xC0..0xCF.
#[verifier::opaque]
pub open spec fn q3_col0_step(op: u8, c0: Cpu, m0: MemView, c1: Cpu, m1: MemView, cycles: u8) -> bool {
    let f = c0.registers.f;
    let a = c0.registers.a;
    let sp = c0.registers.sp;
    let pcv = c0.registers.pc;
    let pc1 = wrap_add16(pcv, 1);
    let pc2 = wrap_add16(pcv, 2);
    let d8 = m0.spec_read(pcv as int);
    let dhi = m0.spec_read(pc1 as int);
    let dw = word_of_bytes(dhi, d8);
    let lo_s = m0.spec_read(sp as int);
    let hi_s = m0.spec_read(wrap_add16(sp, 1) as int);
    let popped = word_of_bytes(hi_s, lo_s);
    let sp2 = wrap_add16(sp, 2);
    if op == 0xC0 {
        m1 == m0 && (if !f.zero {
            c1 == (Cpu { registers: Registers { pc: popped, sp: sp2, ..c0.registers }, ..c0 })
                && cycles == 20
        } else {
            c1 == c0 && cycles == 8
        })
    } else if op == 0xC1 {
        c1 == (Cpu { registers: Registers { b: hi_s, c: lo_s, sp: sp2, ..c0.registers }, ..c0 })
            && m1 == m0 && cycles == 12
    } else if op == 0xC2 {
        m1 == m0 && (if !f.zero {
            c1 == with_pc(c0, dw) && cycles == 16
        } else {
            c1 == with_pc(c0, pc2) && cycles == 12
        })
    } else if op == 0xC3 {
        c1 == with_pc(c0, dw) && m1 == m0 && cycles == 12
    } else if op == 0xC4 {
        if !f.zero {
            c1 == (Cpu { registers: Registers { pc: dw, sp: wrap_sub16(sp, 2), ..c0.registers }, ..c0 })
                && m1 == pushed(m0, sp, pc2) && cycles == 24
        } else {
            c1 == with_pc(c0, pc2) && m1 == m0 && cycles == 12
        }
    } else if op == 0xC5 {
        c1 == (Cpu { registers: Registers { sp: wrap_sub16(sp, 2), ..c0.registers }, ..c0 })
            && m1 == pushed(m0, sp, bc(c0)) && cycles == 16
    } else if op == 0xC6 {
        {
            let res = spec_add(a, d8);
            c1 == with_f(with_reg8(with_pc(c0, pc1), 7, res.0), res.1) && m1 == m0 && cycles == 8
        }
    } else if op == 0xC7 {
        c1 == (Cpu { registers: Registers { pc: 0u16, sp: wrap_sub16(sp, 2), ..c0.registers }, ..c0 })
            && m1 == pushed(m0, sp, pcv) && cycles == 32
    } else if op == 0xC8 {
        m1 == m0 && (if f.zero {
            c1 == (Cpu { registers: Registers { pc: popped, sp: sp2, ..c0.registers }, ..c0 })
                && cycles == 20
        } else {
            c1 == c0 && cycles == 8
        })
    } else if op == 0xC9 {
        c1 == (Cpu { registers: Registers { pc: popped, sp: sp2, ..c0.registers }, ..c0 })
            && m1 == m0 && cycles == 16
    } else if op == 0xCA {
        m1 == m0 && (if f.zero {
            c1 == with_pc(c0, dw) && cycles == 16
        } else {
            c1 == with_pc(c0, pc2) && cycles == 12
        })
    } else if op == 0xCB {
        cb_step(d8, with_pc(c0, pc1), m0, c1, m1, cycles)
    } else if op == 0xCC {
        if f.zero {
            c1 == (Cpu { registers: Registers { pc: dw, sp: wrap_sub16(sp, 2), ..c0.registers }, ..c0 })
                && m1 == pushed(m0, sp, pc2) && cycles == 24
        } else {
            c1 == with_pc(c0, pc2) && m1 == m0 && cycles == 12
        }
    } else if op == 0xCD {
        c1 == (Cpu { registers: Registers { pc: dw, sp: wrap_sub16(sp, 2), ..c0.registers }, ..c0 })
            && m1 == pushed(m0, sp, pc2) && cycles == 24
    } else if op == 0xCE {
        {
            let res = spec_adc(a, d8, f);
            c1 == with_f(with_reg8(with_pc(c0, pc1), 7, res.0), res.1) && m1 == m0 && cycles == 8
        }
    } else if op == 0xCF {
        c1 == (Cpu { registers: Registers { pc: 0x08u16, sp: wrap_sub16(sp, 2), ..c0.registers }, ..c0 })
            && m1 == pushed(m0, sp, pcv) && cycles == 32
    } else {
        false
    }
}

/// Steps of the implemented base-table opcodes 0xD0..0xDF.
#[verifier::opaque]
pub open spec fn q3_col1_step(op: u8, c0: Cpu, m0: MemView, c1: Cpu, m1: MemView, cycles: u8) -> bool {
    let f = c0.registers.f;
    let a = c0.registers.a;
    let sp = c0.registers.sp;
    let pcv = c0.registers.pc;
    let pc1 = wrap_add16(pcv, 1);
    let pc2 = wrap_add16(pcv, 2);
    let d8 = m0.spec_read(pcv as int);
    let dhi = m0.spec_read(pc1 as int);
    let dw = word_of_bytes(dhi, d8);
    let lo_s = m0.spec_read(sp as int);
    let hi_s = m0.spec_read(wrap_add16(sp, 1) as int);
    let popped = word_of_bytes(hi_s, lo_s);
    let sp2 = wrap_add16(sp, 2);
    if op == 0xD0 {
        m1 == m0 && (if !f.carry {
            c1 == (Cpu { registers: Registers { pc: popped, sp: sp2, ..c0.registers }, ..c0 })
                && cycles == 20
        } else {
            c1 == c0 && cycles == 8
        })
    } else if op == 0xD1 {
        c1 == (Cpu { registers: Registers { d: hi_s, e: lo_s, sp: sp2, ..c0.registers }, ..c0 })
            && m1 == m0 && cycles == 12
    } else if op == 0xD2 {
        m1 == m0 && (if !f.carry {
            c1 == with_pc(c0, dw) && cycles == 16
        } else {
            c1 == with_pc(c0, pc2) && cycles == 12
        })
    } else if op == 0xD4 {
        if !f.carry {
            c1 == (Cpu { registers: Registers { pc: dw, sp: wrap_sub16(sp, 2), ..c0.registers }, ..c0 })
                && m1 == pushed(m0, sp, pc2) && cycles == 24
        } else {
            c1 == with_pc(c0, pc2) && m1 == m0 && cycles == 12
        }
    } else if op == 0xD5 {
        c1 == (Cpu { registers: Registers { sp: wrap_sub16(sp, 2), ..c0.registers }, ..c0 })
            && m1 == pushed(m0, sp, de(c0)) && cycles == 16
    } else if op == 0xD6 {
        {
            let res = spec_sub(a, d8);
            c1 == with_f(with_reg8(with_pc(c0, pc1), 7, res.0), res.1) && m1 == m0 && cycles == 8
        }
    } else if op == 0xD7 {
        c1 == (Cpu { registers: Registers { pc: 0x10u16, sp: wrap_sub16(sp, 2), ..c0.registers }, ..c0 })
            && m1 == pushed(m0, sp, pcv) && cycles == 32
    } else if op == 0xD8 {
        m1 == m0 && (if f.carry {
            c1 == (Cpu { registers: Registers { pc: popped, sp: sp2, ..c0.registers }, ..c0 })
                && cycles == 20
        } else {
            c1 == c0 && cycles == 8
        })
    } else if op == 0xD9 {
        c1 == (Cpu { registers: Registers { pc: popped, sp: sp2, ..c0.registers }, ..c0 })
            && m1 == m0 && cycles == 8
    } else if op == 0xDA {
        m1 == m0 && (if f.carry {
            c1 == with_pc(c0, dw) && cycles == 16
        } else {
            c1 == with_pc(c0, pc2) && cycles == 12
        })
    } else if op == 0xDC {
        if f.carry {
            c1 == (Cpu { registers: Registers { pc: dw, sp: wrap_sub16(sp, 2), ..c0.registers }, ..c0 })
                && m1 == pushed(m0, sp, pc2) && cycles == 24
        } else {
            c1 == with_pc(c0, pc2) && m1 == m0 && cycles == 12
        }
    } else if op == 0xDE {
        {
            let res = spec_sbc(a, d8, f);
            c1 == with_f(with_reg8(with_pc(c0, pc1), 7, res.0), res.1) && m1 == m0 && cycles == 8
        }
    } else if op == 0xDF {
        c1 == (Cpu { registers: Registers { pc: 0x18u16, sp: wrap_sub16(sp, 2), ..c0.registers }, ..c0 })
            && m1 == pushed(m0, sp, pcv) && cycles == 32
    } else {
        false
    }
}

/// Steps of the implemented base-table opcodes 0xE0..0xEF.
#[verifier::opaque]
pub open spec fn q3_col2_step(op: u8, c0: Cpu, m0: MemView, c1: Cpu, m1: MemView, cycles: u8) -> bool {
    let f = c0.registers.f;
    let a = c0.registers.a;
    let sp = c0.registers.sp;
    let pcv = c0.registers.pc;
    let pc1 = wrap_add16(pcv, 1);
    let pc2 = wrap_add16(pcv, 2);
    let d8 = m0.spec_read(pcv as int);
    let dhi = m0.spec_read(pc1 as int);
    let dw = word_of_bytes(dhi, d8);
    let lo_s = m0.spec_read(sp as int);
    let hi_s = m0.spec_read(wrap_add16(sp, 1) as int);
    let popped = word_of_bytes(hi_s, lo_s);
    let sp2 = wrap_add16(sp, 2);
    if op == 0xE0 {
        c1 == with_pc(c0, pc1) && m1 == m0.spec_write(a, 0xFF00 + d8) && cycles == 12
    } else if op == 0xE1 {
        c1 == (Cpu { registers: Registers { h: hi_s, l: lo_s, sp: sp2, ..c0.registers }, ..c0 })
            && m1 == m0 && cycles == 12
    } else if op == 0xE2 {
        c1 == c0 && m1 == m0.spec_write(a, 0xFF00 + c0.registers.c) && cycles == 8
    } else if op == 0xE5 {
        c1 == (Cpu { registers: Registers { sp: wrap_sub16(sp, 2), ..c0.registers }, ..c0 })
            && m1 == pushed(m0, sp, hl(c0)) && cycles == 16
    } else if op == 0xE6 {
        {
            let res = spec_and(a, d8);
            c1 == with_f(with_reg8(with_pc(c0, pc1), 7, res.0), res.1) && m1 == m0 && cycles == 8
        }
    } else if op == 0xE7 {
        c1 == (Cpu { registers: Registers { pc: 0x20u16, sp: wrap_sub16(sp, 2), ..c0.registers }, ..c0 })
            && m1 == pushed(m0, sp, pcv) && cycles == 32
    } else if op == 0xE8 {
        {
            let v16 = signed8_as_u16(d8);
            c1 == (Cpu {
                registers: Registers {
                    sp: wrap_add16(sp, v16),
                    pc: pc1,
                    f: FRegister {
                        zero: false,
                        substract: false,
                        half_carry: (sp & 0x000F) + (v16 & 0x000F) > 0x000F,
                        carry: (sp & 0x00FF) + (v16 & 0x00FF) > 0x00FF,
                    },
                    ..c0.registers
                },
                ..c0
            }) && m1 == m0 && cycles == 16
        }
    } else if op == 0xE9 {
        c1 == with_pc(c0, hl(c0)) && m1 == m0 && cycles == 4
    } else if op == 0xEA {
        c1 == with_pc(c0, pc2) && m1 == m0.spec_write(a, dw as int) && cycles == 16
    } else if op == 0xEE {
        {
            let res = spec_xor(a, d8);
            c1 == with_f(with_reg8(with_pc(c0, pc1), 7, res.0), res.1) && m1 == m0 && cycles == 8
        }
    } else if op == 0xEF {
        c1 == (Cpu { registers: Registers { pc: 0x28u16, sp: wrap_sub16(sp, 2), ..c0.registers }, ..c0 })
            && m1 == pushed(m0, sp, pcv) && cycles == 32
    } else {
        false
    }
}

/// Steps of the implemented base-table opcodes 0xF0..0xFF.
#[verifier::opaque]
pub open spec fn q3_col3_step(op: u8, c0: Cpu, m0: MemView, c1: Cpu, m1: MemView, cycles: u8) -> bool {
    let f = c0.registers.f;
    let a = c0.registers.a;
    let sp = c0.registers.sp;
    let pcv = c0.registers.pc;
    let pc1 = wrap_add16(pcv, 1);
    let pc2 = wrap_add16(pcv, 2);
    let d8 = m0.spec_read(pcv as int);
    let dhi = m0.spec_read(pc1 as int);
    let dw = word_of_bytes(dhi, d8);
    let lo_s = m0.spec_read(sp as int);
    let hi_s = m0.spec_read(wrap_add16(sp, 1) as int);
    let popped = word_of_bytes(hi_s, lo_s);
    let sp2 = wrap_add16(sp, 2);
    if op == 0xF0 {
        c1 == with_reg8(with_pc(c0, pc1), 7, m0.spec_read(0xFF00 + d8)) && m1 == m0
            && cycles == 12
    } else if op == 0xF1 {
        c1 == (Cpu {
            registers: Registers { a: hi_s, f: flags_of_u8(lo_s), sp: sp2, ..c0.registers },
            ..c0
        }) && m1 == m0 && cycles == 12
    } else if op == 0xF2 {
        c1 == with_reg8(c0, 7, m0.spec_read(0xFF00 + c0.registers.c)) && m1 == m0
            && cycles == 8
    } else if op == 0xF3 {
        c1 == (Cpu { imd_next: true, ..c0 }) && m1 == m0 && cycles == 4
    } else if op == 0xF5 {
        c1 == (Cpu { registers: Registers { sp: wrap_sub16(sp, 2), ..c0.registers }, ..c0 })
            && m1 == pushed(m0, sp, word_of_bytes(a, u8_of_flags(f))) && cycles == 16
    } else if op == 0xF6 {
        {
            let res = spec_or(a, d8);
            c1 == with_f(with_reg8(with_pc(c0, pc1), 7, res.0), res.1) && m1 == m0 && cycles == 8
        }
    } else if op == 0xF7 {
        c1 == (Cpu { registers: Registers { pc: 0x30u16, sp: wrap_sub16(sp, 2), ..c0.registers }, ..c0 })
            && m1 == pushed(m0, sp, pcv) && cycles == 32
    } else if op == 0xF8 {
        {
            let v16 = signed8_as_u16(d8);
            let r = wrap_add16(sp, v16);
            c1 == (Cpu {
                registers: Registers {
                    h: high_byte(r),
                    l: low_byte(r),
                    pc: pc1,
                    f: FRegister {
                        zero: false,
                        substract: false,
                        half_carry: (sp & 0x000F) + (v16 & 0x000F) > 0x000F,
                        carry: (sp & 0x00FF) + (v16 & 0x00FF) > 0x00FF,
                    },
                    ..c0.registers
                },
                ..c0
            }) && m1 == m0 && cycles == 12
        }
    } else if op == 0xF9 {
        c1 == (Cpu { registers: Registers { sp: hl(c0), ..c0.registers }, ..c0 })
            && m1 == m0 && cycles == 8
    } else if op == 0xFA {
        c1 == with_reg8(with_pc(c0, pc2), 7, m0.spec_read(dw as int)) && m1 == m0 && cycles == 16
    } else if op == 0xFB {
        c1 == (Cpu { ime_next: true, ..c0 }) && m1 == m0 && cycles == 4
    } else if op == 0xFE {
        c1 == with_f(with_pc(c0, pc1), spec_cp(a, d8)) && m1 == m0 && cycles == 8
    } else if op == 0xFF {
        c1 == (Cpu { registers: Registers { pc: 0x38u16, sp: wrap_sub16(sp, 2), ..c0.registers }, ..c0 })
            && m1 == pushed(m0, sp, pcv) && cycles == 32
    } else {
        false
    }
}

/// One step of the last quarter of the base table (opcodes
/// 0xC0..0xFF): calls, returns and jumps (conditional forms cost more
/// when taken), stack pushes and pops, restart vectors, the
/// immediate-operand arithmetic, the high-page loads, the stack-pointer
/// arithmetic, the extended-table prefix, and the delayed interrupt
/// enable and disable.
#[verifier::opaque]
pub open spec fn q3_step(op: u8, c0: Cpu, m0: MemView, c1: Cpu, m1: MemView, cycles: u8) -> bool {
    if op < 0xD0 {
        q3_col0_step(op, c0, m0, c1, m1, cycles)
    } else if op < 0xE0 {
        q3_col1_step(op, c0, m0, c1, m1, cycles)
    } else if op < 0xF0 {
        q3_col2_step(op, c0, m0, c1, m1, cycles)
    } else {
        q3_col3_step(op, c0, m0, c1, m1, cycles)
    }
}

/// True of the opcode bytes that have a handler in the base table; the
/// others abort with an unimplemented-opcode fault.
pub open spec fn base_implemented(op: u8) -> bool {
    !(op == 0xD3 || op == 0xDB || op == 0xDD || op == 0xE3 || op == 0xE4 || op == 0xEB
        || op == 0xEC || op == 0xED || op == 0xF4 || op == 0xFC || op == 0xFD)
}

/// One step of the base opcode table, taken with the program counter
/// already past the opcode byte.
#[verifier::opaque]
pub open spec fn base_step(op: u8, c0: Cpu, m0: MemView, c1: Cpu, m1: MemView, cycles: u8) -> bool {
    if op < 0x40 {
        q0_step(op, c0, m0, c1, m1, cycles)
    } else if op < 0x80 {
        ld_step(op, c0, m0, c1, m1, cycles)
    } else if op < 0xC0 {
        alu_step(op, c0, m0, c1, m1, cycles)
    } else {
        q3_step(op, c0, m0, c1, m1, cycles)
    }
}

impl Cpu {
    /// The 8-bit register selected by an operand index other than the
    /// memory operand.
    fn read_reg8(&self, idx: u8) -> (r: u8)
        requires
            idx < 8,
            idx != 6,
        ensures
            r == reg8(*self, idx as int),
    {
        if idx == 0 {
            self.registers.b
        } else if idx == 1 {
            self.registers.c
        } else if idx == 2 {
            self.registers.d
        } else if idx == 3 {
            self.registers.e
        } else if idx == 4 {
            self.registers.h
        } else if idx == 5 {
            self.registers.l
        } else {
            self.registers.a
        }
    }

    /// Replace the 8-bit register selected by an operand index other
    /// than the memory operand.
    fn write_reg8(&mut self, idx: u8, v: u8)
        requires
            idx < 8,
            idx != 6,
        ensures
            *final(self) == with_reg8(*old(self), idx as int, v),
    {
        if idx == 0 {
            self.registers.b = v;
        } else if idx == 1 {
            self.registers.c = v;
        } else if idx == 2 {
            self.registers.d = v;
        } else if idx == 3 {
            self.registers.e = v;
        } else if idx == 4 {
            self.registers.h = v;
        } else if idx == 5 {
            self.registers.l = v;
        } else {
            self.registers.a = v;
        }
    }


    /// Execute one of the base-table opcodes 0x00..0x07.
    #[verifier::rlimit(100)]
    #[verifier::spinoff_prover]
    fn q0_col0_lo(&mut self, mem: &mut Memory, op_code: u8) -> (cycles: u8)
        requires
            old(mem)@.wf(),
            0x0 <= op_code < 0x8,
        ensures
            q0_col0_step(op_code, *old(self), old(mem)@, *final(self), final(mem)@, cycles),
            final(mem)@.wf(),
            4 <= cycles && cycles <= 32,
    {
        if op_code == 0x00 {
            // no operation
            proof {
                assert(q0_col0_step(op_code, *old(self), old(mem)@, *self, mem@, 4)) by {
                    reveal(crate::cpu::q0_col0_step);
                }
            }
            return 4;
        }
        if op_code == 0x01 {
            let dw: u16 = self.fetch_u16(mem);
            let u8s: (u8, u8) = BinUtils::u8s_from_u16(dw);
            self.registers.b = u8s.0;
            self.registers.c = u8s.1;
            proof {
                assert(q0_col0_step(op_code, *old(self), old(mem)@, *self, mem@, 12)) by {
                    reveal(crate::cpu::q0_col0_step);
                }
            }
            return 12;
        }
        if op_code == 0x02 {
            let address: u16 = BinUtils::u16_from_u8s(self.registers.b, self.registers.c);
            mem.write_u8(self.registers.a, address as usize);
            proof {
                assert(q0_col0_step(op_code, *old(self), old(mem)@, *self, mem@, 8)) by {
                    reveal(crate::cpu::q0_col0_step);
                }
            }
            return 8;
        }
        if op_code == 0x03 {
            let mut hi: u8 = self.registers.b;
            let mut lo: u8 = self.registers.c;
            Instructions::inc_nn(&mut hi, &mut lo);
            self.registers.b = hi;
            self.registers.c = lo;
            proof {
                assert(q0_col0_step(op_code, *old(self), old(mem)@, *self, mem@, 8)) by {
                    reveal(crate::cpu::q0_col0_step);
                }
            }
            return 8;
        }
        if op_code == 0x04 {
            let mut v: u8 = self.read_reg8(0);
            let mut fl: FRegister = self.registers.f;
            Instructions::inc(&mut v, &mut fl);
            self.write_reg8(0, v);
            self.registers.f = fl;
            proof {
                assert(q0_col0_step(op_code, *old(self), old(mem)@, *self, mem@, 4)) by {
                    reveal(crate::cpu::q0_col0_step);
                }
            }
            return 4;
        }
        if op_code == 0x05 {
            let mut v: u8 = self.read_reg8(0);
            let mut fl: FRegister = self.registers.f;
            Instructions::dec(&mut v, &mut fl);
            self.write_reg8(0, v);
            self.registers.f = fl;
            proof {
                assert(q0_col0_step(op_code, *old(self), old(mem)@, *self, mem@, 4)) by {
                    reveal(crate::cpu::q0_col0_step);
                }
            }
            return 4;
        }
        if op_code == 0x06 {
            let v: u8 = self.fetch_u8(mem);
            self.write_reg8(0, v);
            proof {
                assert(q0_col0_step(op_code, *old(self), old(mem)@, *self, mem@, 8)) by {
                    reveal(crate::cpu::q0_col0_step);
                }
            }
            return 8;
        }
        if op_code == 0x07 {
            let mut v: u8 = self.registers.a;
            let mut fl: FRegister = self.registers.f;
            Instructions::rlc(&mut v, &mut fl);
            fl.zero = false;
            self.registers.a = v;
            self.registers.f = fl;
            proof {
                assert(q0_col0_step(op_code, *old(self), old(mem)@, *self, mem@, 4)) by {
                    reveal(crate::cpu::q0_col0_step);
                }
            }
            return 4;
        }
        proof {
            assert(q0_col0_step(op_code, *old(self), old(mem)@, *self, mem@, 4)) by {
                reveal(crate::cpu::q0_col0_step);
            }
        }
        4
    }

    /// Execute one of the base-table opcodes 0x08..0x0F.
    #[verifier::rlimit(100)]
    #[verifier::spinoff_prover]
    fn q0_col0_hi(&mut self, mem: &mut Memory, op_code: u8) -> (cycles: u8)
        requires
            old(mem)@.wf(),
            0x8 <= op_code < 0x10,
        ensures
            q0_col0_step(op_code, *old(self), old(mem)@, *final(self), final(mem)@, cycles),
            final(mem)@.wf(),
            4 <= cycles && cycles <= 32,
    {
        if op_code == 0x08 {
            let address: u16 = self.fetch_u16(mem);
            let v8s: (u8, u8) = BinUtils::u8s_from_u16(self.registers.sp);
            mem.write_u8(v8s.1, address as usize);
            mem.write_u8(v8s.0, address.wrapping_add(1) as usize);
            proof {
                assert(q0_col0_step(op_code, *old(self), old(mem)@, *self, mem@, 20)) by {
                    reveal(crate::cpu::q0_col0_step);
                }
            }
            return 20;
        }
        if op_code == 0x09 {
            let v: u16 = BinUtils::u16_from_u8s(self.registers.b, self.registers.c);
            let mut hi: u8 = self.registers.h;
            let mut lo: u8 = self.registers.l;
            let mut fl: FRegister = self.registers.f;
            Instructions::add_nn(&mut hi, &mut lo, v, &mut fl);
            self.registers.h = hi;
            self.registers.l = lo;
            self.registers.f = fl;
            proof {
                assert(q0_col0_step(op_code, *old(self), old(mem)@, *self, mem@, 8)) by {
                    reveal(crate::cpu::q0_col0_step);
                }
            }
            return 8;
        }
        if op_code == 0x0A {
            let address: u16 = BinUtils::u16_from_u8s(self.registers.b, self.registers.c);
            let v: u8 = mem.read_u8(address as usize);
            self.registers.a = v;
            proof {
                assert(q0_col0_step(op_code, *old(self), old(mem)@, *self, mem@, 8)) by {
                    reveal(crate::cpu::q0_col0_step);
                }
            }
            return 8;
        }
        if op_code == 0x0B {
            let mut hi: u8 = self.registers.b;
            let mut lo: u8 = self.registers.c;
            Instructions::dec_nn(&mut hi, &mut lo);
            self.registers.b = hi;
            self.registers.c = lo;
            proof {
                assert(q0_col0_step(op_code, *old(self), old(mem)@, *self, mem@, 8)) by {
                    reveal(crate::cpu::q0_col0_step);
                }
            }
            return 8;
        }
        if op_code == 0x0C {
            let mut v: u8 = self.read_reg8(1);
            let mut fl: FRegister = self.registers.f;
            Instructions::inc(&mut v, &mut fl);
            self.write_reg8(1, v);
            self.registers.f = fl;
            proof {
                assert(q0_col0_step(op_code, *old(self), old(mem)@, *self, mem@, 4)) by {
                    reveal(crate::cpu::q0_col0_step);
                }
            }
            return 4;
        }
        if op_code == 0x0D {
            let mut v: u8 = self.read_reg8(1);
            let mut fl: FRegister = self.registers.f;
            Instructions::dec(&mut v, &mut fl);
            self.write_reg8(1, v);
            self.registers.f = fl;
            proof {
                assert(q0_col0_step(op_code, *old(self), old(mem)@, *self, mem@, 4)) by {
                    reveal(crate::cpu::q0_col0_step);
                }
            }
            return 4;
        }
        if op_code == 0x0E {
            let v: u8 = self.fetch_u8(mem);
            self.write_reg8(1, v);
            proof {
                assert(q0_col0_step(op_code, *old(self), old(mem)@, *self, mem@, 8)) by {
                    reveal(crate::cpu::q0_col0_step);
                }
            }
            return 8;
        }
        if op_code == 0x0F {
            let mut v: u8 = self.registers.a;
            let mut fl: FRegister = self.registers.f;
            Instructions::rrc(&mut v, &mut fl, true);
            fl.zero = false;
            self.registers.a = v;
            self.registers.f = fl;
            proof {
                assert(q0_col0_step(op_code, *old(self), old(mem)@, *self, mem@, 4)) by {
                    reveal(crate::cpu::q0_col0_step);
                }
            }
            return 4;
        }
        proof {
            assert(q0_col0_step(op_code, *old(self), old(mem)@, *self, mem@, 4)) by {
                reveal(crate::cpu::q0_col0_step);
            }
        }
        4
    }

    /// Execute one of the base-table opcodes 0x00..0x0F.
    fn q0_col0(&mut self, mem: &mut Memory, op_code: u8) -> (cycles: u8)
        requires
            old(mem)@.wf(),
            0x0 <= op_code < 0x10,
        ensures
            q0_col0_step(op_code, *old(self), old(mem)@, *final(self), final(mem)@, cycles),
            final(mem)@.wf(),
            4 <= cycles && cycles <= 32,
    {
        if op_code < 0x8 {
            self.q0_col0_lo(mem, op_code)
        } else {
            self.q0_col0_hi(mem, op_code)
        }
    }

    /// Execute one of the base-table opcodes 0x10..0x17.
    #[verifier::rlimit(100)]
    #[verifier::spinoff_prover]
    fn q0_col1_lo(&mut self, mem: &mut Memory, op_code: u8) -> (cycles: u8)
        requires
            old(mem)@.wf(),
            0x10 <= op_code < 0x18,
        ensures
            q0_col1_step(op_code, *old(self), old(mem)@, *final(self), final(mem)@, cycles),
            final(mem)@.wf(),
            4 <= cycles && cycles <= 32,
    {
        if op_code == 0x10 {
            mem.stopped = true;
            mem.div = 0x0;
            proof {
                assert(q0_col1_step(op_code, *old(self), old(mem)@, *self, mem@, 4)) by {
                    reveal(crate::cpu::q0_col1_step);
                }
            }
            return 4;
        }
        if op_code == 0x11 {
            let dw: u16 = self.fetch_u16(mem);
            let u8s: (u8, u8) = BinUtils::u8s_from_u16(dw);
            self.registers.d = u8s.0;
            self.registers.e = u8s.1;
            proof {
                assert(q0_col1_step(op_code, *old(self), old(mem)@, *self, mem@, 12)) by {
                    reveal(crate::cpu::q0_col1_step);
                }
            }
            return 12;
        }
        if op_code == 0x12 {
            let address: u16 = BinUtils::u16_from_u8s(self.registers.d, self.registers.e);
            mem.write_u8(self.registers.a, address as usize);
            proof {
                assert(q0_col1_step(op_code, *old(self), old(mem)@, *self, mem@, 8)) by {
                    reveal(crate::cpu::q0_col1_step);
                }
            }
            return 8;
        }
        if op_code == 0x13 {
            let mut hi: u8 = self.registers.d;
            let mut lo: u8 = self.registers.e;
            Instructions::inc_nn(&mut hi, &mut lo);
            self.registers.d = hi;
            self.registers.e = lo;
            proof {
                assert(q0_col1_step(op_code, *old(self), old(mem)@, *self, mem@, 8)) by {
                    reveal(crate::cpu::q0_col1_step);
                }
            }
            return 8;
        }
        if op_code == 0x14 {
            let mut v: u8 = self.read_reg8(2);
            let mut fl: FRegister = self.registers.f;
            Instructions::inc(&mut v, &mut fl);
            self.write_reg8(2, v);
            self.registers.f = fl;
            proof {
                assert(q0_col1_step(op_code, *old(self), old(mem)@, *self, mem@, 4)) by {
                    reveal(crate::cpu::q0_col1_step);
                }
            }
            return 4;
        }
        if op_code == 0x15 {
            let mut v: u8 = self.read_reg8(2);
            let mut fl: FRegister = self.registers.f;
            Instructions::dec(&mut v, &mut fl);
            self.write_reg8(2, v);
            self.registers.f = fl;
            proof {
                assert(q0_col1_step(op_code, *old(self), old(mem)@, *self, mem@, 4)) by {
                    reveal(crate::cpu::q0_col1_step);
                }
            }
            return 4;
        }
        if op_code == 0x16 {
            let v: u8 = self.fetch_u8(mem);
            self.write_reg8(2, v);
            proof {
                assert(q0_col1_step(op_code, *old(self), old(mem)@, *self, mem@, 8)) by {
                    reveal(crate::cpu::q0_col1_step);
                }
            }
            return 8;
        }
        if op_code == 0x17 {
            let mut v: u8 = self.registers.a;
            let mut fl: FRegister = self.registers.f;
            Instructions::rl(&mut v, &mut fl);
            fl.zero = false;
            self.registers.a = v;
            self.registers.f = fl;
            proof {
                assert(q0_col1_step(op_code, *old(self), old(mem)@, *self, mem@, 4)) by {
                    reveal(crate::cpu::q0_col1_step);
                }
            }
            return 4;
        }
        proof {
            assert(q0_col1_step(op_code, *old(self), old(mem)@, *self, mem@, 4)) by {
                reveal(crate::cpu::q0_col1_step);
            }
        }
        4
    }

    /// Execute one of the base-table opcodes 0x18..0x1F.
    #[verifier::rlimit(100)]
    #[verifier::spinoff_prover]
    fn q0_col1_hi(&mut self, mem: &mut Memory, op_code: u8) -> (cycles: u8)
        requires
            old(mem)@.wf(),
            0x18 <= op_code < 0x20,
        ensures
            q0_col1_step(op_code, *old(self), old(mem)@, *final(self), final(mem)@, cycles),
            final(mem)@.wf(),
            4 <= cycles && cycles <= 32,
    {
        if op_code == 0x18 {
            let d8v: u8 = self.fetch_u8(mem);
            let disp: u16 = if d8v < 0x80 { d8v as u16 } else { (d8v as u16) + 0xFF00 };
            self.registers.pc = self.registers.pc.wrapping_add(disp);
            proof {
                assert(q0_col1_step(op_code, *old(self), old(mem)@, *self, mem@, 12)) by {
                    reveal(crate::cpu::q0_col1_step);
                }
            }
            return 12;
        }
        if op_code == 0x19 {
            let v: u16 = BinUtils::u16_from_u8s(self.registers.d, self.registers.e);
            let mut hi: u8 = self.registers.h;
            let mut lo: u8 = self.registers.l;
            let mut fl: FRegister = self.registers.f;
            Instructions::add_nn(&mut hi, &mut lo, v, &mut fl);
            self.registers.h = hi;
            self.registers.l = lo;
            self.registers.f = fl;
            proof {
                assert(q0_col1_step(op_code, *old(self), old(mem)@, *self, mem@, 8)) by {
                    reveal(crate::cpu::q0_col1_step);
                }
            }
            return 8;
        }
        if op_code == 0x1A {
            let address: u16 = BinUtils::u16_from_u8s(self.registers.d, self.registers.e);
            let v: u8 = mem.read_u8(address as usize);
            self.registers.a = v;
            proof {
                assert(q0_col1_step(op_code, *old(self), old(mem)@, *self, mem@, 8)) by {
                    reveal(crate::cpu::q0_col1_step);
                }
            }
            return 8;
        }
        if op_code == 0x1B {
            let mut hi: u8 = self.registers.d;
            let mut lo: u8 = self.registers.e;
            Instructions::dec_nn(&mut hi, &mut lo);
            self.registers.d = hi;
            self.registers.e = lo;
            proof {
                assert(q0_col1_step(op_code, *old(self), old(mem)@, *self, mem@, 8)) by {
                    reveal(crate::cpu::q0_col1_step);
                }
            }
            return 8;
        }
        if op_code == 0x1C {
            let mut v: u8 = self.read_reg8(3);
            let mut fl: FRegister = self.registers.f;
            Instructions::inc(&mut v, &mut fl);
            self.write_reg8(3, v);
            self.registers.f = fl;
            proof {
                assert(q0_col1_step(op_code, *old(self), old(mem)@, *self, mem@, 4)) by {
                    reveal(crate::cpu::q0_col1_step);
                }
            }
            return 4;
        }
        if op_code == 0x1D {
            let mut v: u8 = self.read_reg8(3);
            let mut fl: FRegister = self.registers.f;
            Instructions::dec(&mut v, &mut fl);
            self.write_reg8(3, v);
            self.registers.f = fl;
            proof {
                assert(q0_col1_step(op_code, *old(self), old(mem)@, *self, mem@, 4)) by {
                    reveal(crate::cpu::q0_col1_step);
                }
            }
            return 4;
        }
        if op_code == 0x1E {
            let v: u8 = self.fetch_u8(mem);
            self.write_reg8(3, v);
            proof {
                assert(q0_col1_step(op_code, *old(self), old(mem)@, *self, mem@, 8)) by {
                    reveal(crate::cpu::q0_col1_step);
                }
            }
            return 8;
        }
        if op_code == 0x1F {
            let mut v: u8 = self.registers.a;
            let mut fl: FRegister = self.registers.f;
            Instructions::rr(&mut v, &mut fl);
            fl.zero = false;
            self.registers.a = v;
            self.registers.f = fl;
            proof {
                assert(q0_col1_step(op_code, *old(self), old(mem)@, *self, mem@, 4)) by {
                    reveal(crate::cpu::q0_col1_step);
                }
            }
            return 4;
        }
        proof {
            assert(q0_col1_step(op_code, *old(self), old(mem)@, *self, mem@, 4)) by {
                reveal(crate::cpu::q0_col1_step);
            }
        }
        4
    }

    /// Execute one of the base-table opcodes 0x10..0x1F.
    fn q0_col1(&mut self, mem: &mut Memory, op_code: u8) -> (cycles: u8)
        requires
            old(mem)@.wf(),
            0x10 <= op_code < 0x20,
        ensures
            q0_col1_step(op_code, *old(self), old(mem)@, *final(self), final(mem)@, cycles),
            final(mem)@.wf(),
            4 <= cycles && cycles <= 32,
    {
        if op_code < 0x18 {
            self.q0_col1_lo(mem, op_code)
        } else {
            self.q0_col1_hi(mem, op_code)
        }
    }

    /// Execute one of the base-table opcodes 0x20..0x27.
    #[verifier::rlimit(100)]
    #[verifier::spinoff_prover]
    fn q0_col2_lo(&mut self, mem: &mut Memory, op_code: u8) -> (cycles: u8)
        requires
            old(mem)@.wf(),
            0x20 <= op_code < 0x28,
        ensures
            q0_col2_step(op_code, *old(self), old(mem)@, *final(self), final(mem)@, cycles),
            final(mem)@.wf(),
            4 <= cycles && cycles <= 32,
    {
        if op_code == 0x20 {
            let d8v: u8 = self.fetch_u8(mem);
            let disp: u16 = if d8v < 0x80 { d8v as u16 } else { (d8v as u16) + 0xFF00 };
            if !self.registers.f.zero {
                self.registers.pc = self.registers.pc.wrapping_add(disp);
                proof {
                    assert(q0_col2_step(op_code, *old(self), old(mem)@, *self, mem@, 12)) by {
                        reveal(crate::cpu::q0_col2_step);
                    }
                }
                return 12;
            }
            proof {
                assert(q0_col2_step(op_code, *old(self), old(mem)@, *self, mem@, 8)) by {
                    reveal(crate::cpu::q0_col2_step);
                }
            }
            return 8;
        }
        if op_code == 0x21 {
            let dw: u16 = self.fetch_u16(mem);
            let u8s: (u8, u8) = BinUtils::u8s_from_u16(dw);
            self.registers.h = u8s.0;
            self.registers.l = u8s.1;
            proof {
                assert(q0_col2_step(op_code, *old(self), old(mem)@, *self, mem@, 12)) by {
                    reveal(crate::cpu::q0_col2_step);
                }
            }
            return 12;
        }
        if op_code == 0x22 {
            let address: u16 = BinUtils::u16_from_u8s(self.registers.h, self.registers.l);
            mem.write_u8(self.registers.a, address as usize);
            let mut hi: u8 = self.registers.h;
            let mut lo: u8 = self.registers.l;
            Instructions::inc_nn(&mut hi, &mut lo);
            self.registers.h = hi;
            self.registers.l = lo;
            proof {
                assert(q0_col2_step(op_code, *old(self), old(mem)@, *self, mem@, 8)) by {
                    reveal(crate::cpu::q0_col2_step);
                }
            }
            return 8;
        }
        if op_code == 0x23 {
            let mut hi: u8 = self.registers.h;
            let mut lo: u8 = self.registers.l;
            Instructions::inc_nn(&mut hi, &mut lo);
            self.registers.h = hi;
            self.registers.l = lo;
            proof {
                assert(q0_col2_step(op_code, *old(self), old(mem)@, *self, mem@, 8)) by {
                    reveal(crate::cpu::q0_col2_step);
                }
            }
            return 8;
        }
        if op_code == 0x24 {
            let mut v: u8 = self.read_reg8(4);
            let mut fl: FRegister = self.registers.f;
            Instructions::inc(&mut v, &mut fl);
            self.write_reg8(4, v);
            self.registers.f = fl;
            proof {
                assert(q0_col2_step(op_code, *old(self), old(mem)@, *self, mem@, 4)) by {
                    reveal(crate::cpu::q0_col2_step);
                }
            }
            return 4;
        }
        if op_code == 0x25 {
            let mut v: u8 = self.read_reg8(4);
            let mut fl: FRegister = self.registers.f;
            Instructions::dec(&mut v, &mut fl);
            self.write_reg8(4, v);
            self.registers.f = fl;
            proof {
                assert(q0_col2_step(op_code, *old(self), old(mem)@, *self, mem@, 4)) by {
                    reveal(crate::cpu::q0_col2_step);
                }
            }
            return 4;
        }
        if op_code == 0x26 {
            let v: u8 = self.fetch_u8(mem);
            self.write_reg8(4, v);
            proof {
                assert(q0_col2_step(op_code, *old(self), old(mem)@, *self, mem@, 8)) by {
                    reveal(crate::cpu::q0_col2_step);
                }
            }
            return 8;
        }
        if op_code == 0x27 {
            let mut av: u8 = self.registers.a;
            let mut adjust: u8 = if self.registers.f.carry { 0x60 } else { 0x0 };
            if self.registers.f.half_carry {
                adjust = adjust | 0x06;
            }
            if !self.registers.f.substract {
                if av & 0x0F > 0x09 {
                    adjust = adjust | 0x06;
                }
                if av > 0x99 {
                    adjust = adjust | 0x60;
                }
                av = av.wrapping_add(adjust);
            } else {
                av = av.wrapping_sub(adjust);
            }
            self.registers.f.carry = adjust >= 0x60;
            self.registers.f.half_carry = false;
            self.registers.f.zero = av == 0;
            self.registers.a = av;
            proof {
                assert(q0_col2_step(op_code, *old(self), old(mem)@, *self, mem@, 4)) by {
                    reveal(crate::cpu::q0_col2_step);
                }
            }
            return 4;
        }
        proof {
            assert(q0_col2_step(op_code, *old(self), old(mem)@, *self, mem@, 4)) by {
                reveal(crate::cpu::q0_col2_step);
            }
        }
        4
    }

    /// Execute one of the base-table opcodes 0x28..0x2F.
    #[verifier::rlimit(100)]
    #[verifier::spinoff_prover]
    fn q0_col2_hi(&mut self, mem: &mut Memory, op_code: u8) -> (cycles: u8)
        requires
            old(mem)@.wf(),
            0x28 <= op_code < 0x30,
        ensures
            q0_col2_step(op_code, *old(self), old(mem)@, *final(self), final(mem)@, cycles),
            final(mem)@.wf(),
            4 <= cycles && cycles <= 32,
    {
        if op_code == 0x28 {
            let d8v: u8 = self.fetch_u8(mem);
            let disp: u16 = if d8v < 0x80 { d8v as u16 } else { (d8v as u16) + 0xFF00 };
            if self.registers.f.zero {
                self.registers.pc = self.registers.pc.wrapping_add(disp);
                proof {
                    assert(q0_col2_step(op_code, *old(self), old(mem)@, *self, mem@, 12)) by {
                        reveal(crate::cpu::q0_col2_step);
                    }
                }
                return 12;
            }
            proof {
                assert(q0_col2_step(op_code, *old(self), old(mem)@, *self, mem@, 8)) by {
                    reveal(crate::cpu::q0_col2_step);
                }
            }
            return 8;
        }
        if op_code == 0x29 {
            let v: u16 = BinUtils::u16_from_u8s(self.registers.h, self.registers.l);
            let mut hi: u8 = self.registers.h;
            let mut lo: u8 = self.registers.l;
            let mut fl: FRegister = self.registers.f;
            Instructions::add_nn(&mut hi, &mut lo, v, &mut fl);
            self.registers.h = hi;
            self.registers.l = lo;
            self.registers.f = fl;
            proof {
                assert(q0_col2_step(op_code, *old(self), old(mem)@, *self, mem@, 8)) by {
                    reveal(crate::cpu::q0_col2_step);
                }
            }
            return 8;
        }
        if op_code == 0x2A {
            let address: u16 = BinUtils::u16_from_u8s(self.registers.h, self.registers.l);
            let v: u8 = mem.read_u8(address as usize);
            self.registers.a = v;
            let mut hi: u8 = self.registers.h;
            let mut lo: u8 = self.registers.l;
            Instructions::inc_nn(&mut hi, &mut lo);
            self.registers.h = hi;
            self.registers.l = lo;
            proof {
                assert(q0_col2_step(op_code, *old(self), old(mem)@, *self, mem@, 8)) by {
                    reveal(crate::cpu::q0_col2_step);
                }
            }
            return 8;
        }
        if op_code == 0x2B {
            let mut hi: u8 = self.registers.h;
            let mut lo: u8 = self.registers.l;
            Instructions::dec_nn(&mut hi, &mut lo);
            self.registers.h = hi;
            self.registers.l = lo;
            proof {
                assert(q0_col2_step(op_code, *old(self), old(mem)@, *self, mem@, 8)) by {
                    reveal(crate::cpu::q0_col2_step);
                }
            }
            return 8;
        }
        if op_code == 0x2C {
            let mut v: u8 = self.read_reg8(5);
            let mut fl: FRegister = self.registers.f;
            Instructions::inc(&mut v, &mut fl);
            self.write_reg8(5, v);
            self.registers.f = fl;
            proof {
                assert(q0_col2_step(op_code, *old(self), old(mem)@, *self, mem@, 4)) by {
                    reveal(crate::cpu::q0_col2_step);
                }
            }
            return 4;
        }
        if op_code == 0x2D {
            let mut v: u8 = self.read_reg8(5);
            let mut fl: FRegister = self.registers.f;
            Instructions::dec(&mut v, &mut fl);
            self.write_reg8(5, v);
            self.registers.f = fl;
            proof {
                assert(q0_col2_step(op_code, *old(self), old(mem)@, *self, mem@, 4)) by {
                    reveal(crate::cpu::q0_col2_step);
                }
            }
            return 4;
        }
        if op_code == 0x2E {
            let v: u8 = self.fetch_u8(mem);
            self.write_reg8(5, v);
            proof {
                assert(q0_col2_step(op_code, *old(self), old(mem)@, *self, mem@, 8)) by {
                    reveal(crate::cpu::q0_col2_step);
                }
            }
            return 8;
        }
        if op_code == 0x2F {
            self.registers.a = !self.registers.a;
            self.registers.f.substract = true;
            self.registers.f.half_carry = true;
            proof {
                assert(q0_col2_step(op_code, *old(self), old(mem)@, *self, mem@, 4)) by {
                    reveal(crate::cpu::q0_col2_step);
                }
            }
            return 4;
        }
        proof {
            assert(q0_col2_step(op_code, *old(self), old(mem)@, *self, mem@, 4)) by {
                reveal(crate::cpu::q0_col2_step);
            }
        }
        4
    }

    /// Execute one of the base-table opcodes 0x20..0x2F.
    fn q0_col2(&mut self, mem: &mut Memory, op_code: u8) -> (cycles: u8)
        requires
            old(mem)@.wf(),
            0x20 <= op_code < 0x30,
        ensures
            q0_col2_step(op_code, *old(self), old(mem)@, *final(self), final(mem)@, cycles),
            final(mem)@.wf(),
            4 <= cycles && cycles <= 32,
    {
        if op_code < 0x28 {
            self.q0_col2_lo(mem, op_code)
        } else {
            self.q0_col2_hi(mem, op_code)
        }
    }

    /// Execute one of the base-table opcodes 0x30..0x37.
    #[verifier::rlimit(100)]
    #[verifier::spinoff_prover]
    fn q0_col3_lo(&mut self, mem: &mut Memory, op_code: u8) -> (cycles: u8)
        requires
            old(mem)@.wf(),
            0x30 <= op_code < 0x38,
        ensures
            q0_col3_step(op_code, *old(self), old(mem)@, *final(self), final(mem)@, cycles),
            final(mem)@.wf(),
            4 <= cycles && cycles <= 32,
    {
        if op_code == 0x30 {
            let d8v: u8 = self.fetch_u8(mem);
            let disp: u16 = if d8v < 0x80 { d8v as u16 } else { (d8v as u16) + 0xFF00 };
            if !self.registers.f.carry {
                self.registers.pc = self.registers.pc.wrapping_add(disp);
                proof {
                    assert(q0_col3_step(op_code, *old(self), old(mem)@, *self, mem@, 12)) by {
                        reveal(crate::cpu::q0_col3_step);
                    }
                }
                return 12;
            }
            proof {
                assert(q0_col3_step(op_code, *old(self), old(mem)@, *self, mem@, 8)) by {
                    reveal(crate::cpu::q0_col3_step);
                }
            }
            return 8;
        }
        if op_code == 0x31 {
            let dw: u16 = self.fetch_u16(mem);
            self.registers.sp = dw;
            proof {
                assert(q0_col3_step(op_code, *old(self), old(mem)@, *self, mem@, 12)) by {
                    reveal(crate::cpu::q0_col3_step);
                }
            }
            return 12;
        }
        if op_code == 0x32 {
            let address: u16 = BinUtils::u16_from_u8s(self.registers.h, self.registers.l);
            mem.write_u8(self.registers.a, address as usize);
            let mut hi: u8 = self.registers.h;
            let mut lo: u8 = self.registers.l;
            Instructions::dec_nn(&mut hi, &mut lo);
            self.registers.h = hi;
            self.registers.l = lo;
            proof {
                assert(q0_col3_step(op_code, *old(self), old(mem)@, *self, mem@, 8)) by {
                    reveal(crate::cpu::q0_col3_step);
                }
            }
            return 8;
        }
        if op_code == 0x33 {
            self.registers.sp = self.registers.sp.wrapping_add(1);
            proof {
                assert(q0_col3_step(op_code, *old(self), old(mem)@, *self, mem@, 8)) by {
                    reveal(crate::cpu::q0_col3_step);
                }
            }
            return 8;
        }
        if op_code == 0x34 {
            let address: u16 = BinUtils::u16_from_u8s(self.registers.h, self.registers.l);
            let mut v: u8 = mem.read_u8(address as usize);
            let mut fl: FRegister = self.registers.f;
            Instructions::inc(&mut v, &mut fl);
            mem.write_u8(v, address as usize);
            self.registers.f = fl;
            proof {
                assert(q0_col3_step(op_code, *old(self), old(mem)@, *self, mem@, 12)) by {
                    reveal(crate::cpu::q0_col3_step);
                }
            }
            return 12;
        }
        if op_code == 0x35 {
            let address: u16 = BinUtils::u16_from_u8s(self.registers.h, self.registers.l);
            let mut v: u8 = mem.read_u8(address as usize);
            let mut fl: FRegister = self.registers.f;
            Instructions::dec(&mut v, &mut fl);
            mem.write_u8(v, address as usize);
            self.registers.f = fl;
            proof {
                assert(q0_col3_step(op_code, *old(self), old(mem)@, *self, mem@, 12)) by {
                    reveal(crate::cpu::q0_col3_step);
                }
            }
            return 12;
        }
        if op_code == 0x36 {
            let v: u8 = self.fetch_u8(mem);
            let address: u16 = BinUtils::u16_from_u8s(self.registers.h, self.registers.l);
            mem.write_u8(v, address as usize);
            proof {
                assert(q0_col3_step(op_code, *old(self), old(mem)@, *self, mem@, 12)) by {
                    reveal(crate::cpu::q0_col3_step);
                }
            }
            return 12;
        }
        if op_code == 0x37 {
            self.registers.f.substract = false;
            self.registers.f.half_carry = false;
            self.registers.f.carry = true;
            proof {
                assert(q0_col3_step(op_code, *old(self), old(mem)@, *self, mem@, 4)) by {
                    reveal(crate::cpu::q0_col3_step);
                }
            }
            return 4;
        }
        proof {
            assert(q0_col3_step(op_code, *old(self), old(mem)@, *self, mem@, 4)) by {
                reveal(crate::cpu::q0_col3_step);
            }
        }
        4
    }

    /// Execute one of the base-table opcodes 0x38..0x3F.
    #[verifier::rlimit(100)]
    #[verifier::spinoff_prover]
    fn q0_col3_hi(&mut self, mem: &mut Memory, op_code: u8) -> (cycles: u8)
        requires
            old(mem)@.wf(),
            0x38 <= op_code < 0x40,
        ensures
            q0_col3_step(op_code, *old(self), old(mem)@, *final(self), final(mem)@, cycles),
            final(mem)@.wf(),
            4 <= cycles && cycles <= 32,
    {
        if op_code == 0x38 {
            let d8v: u8 = self.fetch_u8(mem);
            let disp: u16 = if d8v < 0x80 { d8v as u16 } else { (d8v as u16) + 0xFF00 };
            if self.registers.f.carry {
                self.registers.pc = self.registers.pc.wrapping_add(disp);
                proof {
                    assert(q0_col3_step(op_code, *old(self), old(mem)@, *self, mem@, 12)) by {
                        reveal(crate::cpu::q0_col3_step);
                    }
                }
                return 12;
            }
            proof {
                assert(q0_col3_step(op_code, *old(self), old(mem)@, *self, mem@, 8)) by {
                    reveal(crate::cpu::q0_col3_step);
                }
            }
            return 8;
        }
        if op_code == 0x39 {
            let v: u16 = self.registers.sp;
            let mut hi: u8 = self.registers.h;
            let mut lo: u8 = self.registers.l;
            let mut fl: FRegister = self.registers.f;
            Instructions::add_nn(&mut hi, &mut lo, v, &mut fl);
            self.registers.h = hi;
            self.registers.l = lo;
            self.registers.f = fl;
            proof {
                assert(q0_col3_step(op_code, *old(self), old(mem)@, *self, mem@, 8)) by {
                    reveal(crate::cpu::q0_col3_step);
                }
            }
            return 8;
        }
        if op_code == 0x3A {
            let address: u16 = BinUtils::u16_from_u8s(self.registers.h, self.registers.l);
            let v: u8 = mem.read_u8(address as usize);
            self.registers.a = v;
            let mut hi: u8 = self.registers.h;
            let mut lo: u8 = self.registers.l;
            Instructions::dec_nn(&mut hi, &mut lo);
            self.registers.h = hi;
            self.registers.l = lo;
            proof {
                assert(q0_col3_step(op_code, *old(self), old(mem)@, *self, mem@, 8)) by {
                    reveal(crate::cpu::q0_col3_step);
                }
            }
            return 8;
        }
        if op_code == 0x3B {
            self.registers.sp = self.registers.sp.wrapping_sub(1);
            proof {
                assert(q0_col3_step(op_code, *old(self), old(mem)@, *self, mem@, 8)) by {
                    reveal(crate::cpu::q0_col3_step);
                }
            }
            return 8;
        }
        if op_code == 0x3C {
            let mut v: u8 = self.read_reg8(7);
            let mut fl: FRegister = self.registers.f;
            Instructions::inc(&mut v, &mut fl);
            self.write_reg8(7, v);
            self.registers.f = fl;
            proof {
                assert(q0_col3_step(op_code, *old(self), old(mem)@, *self, mem@, 4)) by {
                    reveal(crate::cpu::q0_col3_step);
                }
            }
            return 4;
        }
        if op_code == 0x3D {
            let mut v: u8 = self.read_reg8(7);
            let mut fl: FRegister = self.registers.f;
            Instructions::dec(&mut v, &mut fl);
            self.write_reg8(7, v);
            self.registers.f = fl;
            proof {
                assert(q0_col3_step(op_code, *old(self), old(mem)@, *self, mem@, 4)) by {
                    reveal(crate::cpu::q0_col3_step);
                }
            }
            return 4;
        }
        if op_code == 0x3E {
            let v: u8 = self.fetch_u8(mem);
            self.write_reg8(7, v);
            proof {
                assert(q0_col3_step(op_code, *old(self), old(mem)@, *self, mem@, 8)) by {
                    reveal(crate::cpu::q0_col3_step);
                }
            }
            return 8;
        }
        if op_code == 0x3F {
            self.registers.f.carry = !self.registers.f.carry;
            self.registers.f.substract = false;
            self.registers.f.half_carry = false;
            proof {
                assert(q0_col3_step(op_code, *old(self), old(mem)@, *self, mem@, 4)) by {
                    reveal(crate::cpu::q0_col3_step);
                }
            }
            return 4;
        }
        proof {
            assert(q0_col3_step(op_code, *old(self), old(mem)@, *self, mem@, 4)) by {
                reveal(crate::cpu::q0_col3_step);
            }
        }
        4
    }

    /// Execute one of the base-table opcodes 0x30..0x3F.
    fn q0_col3(&mut self, mem: &mut Memory, op_code: u8) -> (cycles: u8)
        requires
            old(mem)@.wf(),
            0x30 <= op_code < 0x40,
        ensures
            q0_col3_step(op_code, *old(self), old(mem)@, *final(self), final(mem)@, cycles),
            final(mem)@.wf(),
            4 <= cycles && cycles <= 32,
    {
        if op_code < 0x38 {
            self.q0_col3_lo(mem, op_code)
        } else {
            self.q0_col3_hi(mem, op_code)
        }
    }

    /// Execute one opcode of the first quarter of the base table.
    fn call_q0(&mut self, mem: &mut Memory, op_code: u8) -> (cycles: u8)
        requires
            old(mem)@.wf(),
            op_code < 0x40,
        ensures
            q0_step(op_code, *old(self), old(mem)@, *final(self), final(mem)@, cycles),
            final(mem)@.wf(),
            4 <= cycles && cycles <= 32,
    {
        let cycles: u8 = if op_code < 0x10 {
            self.q0_col0(mem, op_code)
        } else if op_code < 0x20 {
            self.q0_col1(mem, op_code)
        } else if op_code < 0x30 {
            self.q0_col2(mem, op_code)
        } else {
            self.q0_col3(mem, op_code)
        };
        proof {
            assert(q0_step(op_code, *old(self), old(mem)@, *self, mem@, cycles)) by {
                reveal(crate::cpu::q0_step);
            }
        }
        cycles
    }

    /// Execute one of the implemented base-table opcodes 0xC0..0xC7.
    #[verifier::rlimit(100)]
    #[verifier::spinoff_prover]
    fn q3_col0_lo(&mut self, mem: &mut Memory, op_code: u8) -> (cycles: u8)
        requires
            old(mem)@.wf(),
            0xC0 <= op_code < 0xC8,
        ensures
            q3_col0_step(op_code, *old(self), old(mem)@, *final(self), final(mem)@, cycles),
            final(mem)@.wf(),
            4 <= cycles && cycles <= 32,
    {
        if op_code == 0xC0 {
            if !self.registers.f.zero {
                let address: u16 = self.pop_word(mem);
                self.registers.pc = address;
                proof {
                    assert(q3_col0_step(op_code, *old(self), old(mem)@, *self, mem@, 20)) by {
                        reveal(crate::cpu::q3_col0_step);
                    }
                }
                return 20;
            }
            proof {
                assert(q3_col0_step(op_code, *old(self), old(mem)@, *self, mem@, 8)) by {
                    reveal(crate::cpu::q3_col0_step);
                }
            }
            return 8;
        }
        if op_code == 0xC1 {
            let w: u16 = self.pop_word(mem);
            let u8s: (u8, u8) = BinUtils::u8s_from_u16(w);
            self.registers.b = u8s.0;
            self.registers.c = u8s.1;
            proof {
                assert(q3_col0_step(op_code, *old(self), old(mem)@, *self, mem@, 12)) by {
                    reveal(crate::cpu::q3_col0_step);
                }
            }
            return 12;
        }
        if op_code == 0xC2 {
            let dw: u16 = self.fetch_u16(mem);
            if !self.registers.f.zero {
                self.registers.pc = dw;
                proof {
                    assert(q3_col0_step(op_code, *old(self), old(mem)@, *self, mem@, 16)) by {
                        reveal(crate::cpu::q3_col0_step);
                    }
                }
                return 16;
            }
            proof {
                assert(q3_col0_step(op_code, *old(self), old(mem)@, *self, mem@, 12)) by {
                    reveal(crate::cpu::q3_col0_step);
                }
            }
            return 12;
        }
        if op_code == 0xC3 {
            let address: u16 = self.fetch_u16(mem);
            self.registers.pc = address;
            proof {
                assert(q3_col0_step(op_code, *old(self), old(mem)@, *self, mem@, 12)) by {
                    reveal(crate::cpu::q3_col0_step);
                }
            }
            return 12;
        }
        if op_code == 0xC4 {
            let dw: u16 = self.fetch_u16(mem);
            if !self.registers.f.zero {
                let ret_pc: u16 = self.registers.pc;
                self.push_word(mem, ret_pc);
                self.registers.pc = dw;
                proof {
                    assert(q3_col0_step(op_code, *old(self), old(mem)@, *self, mem@, 24)) by {
                        reveal(crate::cpu::q3_col0_step);
                    }
                }
                return 24;
            }
            proof {
                assert(q3_col0_step(op_code, *old(self), old(mem)@, *self, mem@, 12)) by {
                    reveal(crate::cpu::q3_col0_step);
                }
            }
            return 12;
        }
        if op_code == 0xC5 {
            let word: u16 = BinUtils::u16_from_u8s(self.registers.b, self.registers.c);
            self.push_word(mem, word);
            proof {
                assert(q3_col0_step(op_code, *old(self), old(mem)@, *self, mem@, 16)) by {
                    reveal(crate::cpu::q3_col0_step);
                }
            }
            return 16;
        }
        if op_code == 0xC6 {
            let v: u8 = self.fetch_u8(mem);
            let mut av: u8 = self.registers.a;
            let mut fl: FRegister = self.registers.f;
            Instructions::add(&mut av, v, &mut fl);
            self.registers.a = av;
            self.registers.f = fl;
            proof {
                assert(q3_col0_step(op_code, *old(self), old(mem)@, *self, mem@, 8)) by {
                    reveal(crate::cpu::q3_col0_step);
                }
            }
            return 8;
        }
        if op_code == 0xC7 {
            let ret_pc: u16 = self.registers.pc;
            self.push_word(mem, ret_pc);
            self.registers.pc = 0x00;
            proof {
                assert(q3_col0_step(op_code, *old(self), old(mem)@, *self, mem@, 32)) by {
                    reveal(crate::cpu::q3_col0_step);
                }
            }
            return 32;
        }
        proof {
            assert(q3_col0_step(op_code, *old(self), old(mem)@, *self, mem@, 4)) by {
                reveal(crate::cpu::q3_col0_step);
            }
        }
        4
    }

    /// Execute one of the implemented base-table opcodes 0xC8..0xCF.
    #[verifier::rlimit(100)]
    #[verifier::spinoff_prover]
    fn q3_col0_hi(&mut self, mem: &mut Memory, op_code: u8) -> (cycles: u8)
        requires
            old(mem)@.wf(),
            0xC8 <= op_code < 0xD0,
        ensures
            q3_col0_step(op_code, *old(self), old(mem)@, *final(self), final(mem)@, cycles),
            final(mem)@.wf(),
            4 <= cycles && cycles <= 32,
    {
        if op_code == 0xC8 {
            if self.registers.f.zero {
                let address: u16 = self.pop_word(mem);
                self.registers.pc = address;
                proof {
                    assert(q3_col0_step(op_code, *old(self), old(mem)@, *self, mem@, 20)) by {
                        reveal(crate::cpu::q3_col0_step);
                    }
                }
                return 20;
            }
            proof {
                assert(q3_col0_step(op_code, *old(self), old(mem)@, *self, mem@, 8)) by {
                    reveal(crate::cpu::q3_col0_step);
                }
            }
            return 8;
        }
        if op_code == 0xC9 {
            let address: u16 = self.pop_word(mem);
            self.registers.pc = address;
            proof {
                assert(q3_col0_step(op_code, *old(self), old(mem)@, *self, mem@, 16)) by {
                    reveal(crate::cpu::q3_col0_step);
                }
            }
            return 16;
        }
        if op_code == 0xCA {
            let dw: u16 = self.fetch_u16(mem);
            if self.registers.f.zero {
                self.registers.pc = dw;
                proof {
                    assert(q3_col0_step(op_code, *old(self), old(mem)@, *self, mem@, 16)) by {
                        reveal(crate::cpu::q3_col0_step);
                    }
                }
                return 16;
            }
            proof {
                assert(q3_col0_step(op_code, *old(self), old(mem)@, *self, mem@, 12)) by {
                    reveal(crate::cpu::q3_col0_step);
                }
            }
            return 12;
        }
        if op_code == 0xCB {
            let extended_op_code: u8 = self.fetch_u8(mem);
            let cyc: u8 = self.call_extended(mem, extended_op_code);
            proof {
                assert(q3_col0_step(op_code, *old(self), old(mem)@, *self, mem@, cyc)) by {
                    reveal(crate::cpu::q3_col0_step);
                }
            }
            return cyc;
        }
        if op_code == 0xCC {
            let dw: u16 = self.fetch_u16(mem);
            if self.registers.f.zero {
                let ret_pc: u16 = self.registers.pc;
                self.push_word(mem, ret_pc);
                self.registers.pc = dw;
                proof {
                    assert(q3_col0_step(op_code, *old(self), old(mem)@, *self, mem@, 24)) by {
                        reveal(crate::cpu::q3_col0_step);
                    }
                }
                return 24;
            }
            proof {
                assert(q3_col0_step(op_code, *old(self), old(mem)@, *self, mem@, 12)) by {
                    reveal(crate::cpu::q3_col0_step);
                }
            }
            return 12;
        }
        if op_code == 0xCD {
            let dw: u16 = self.fetch_u16(mem);
            let ret_pc: u16 = self.registers.pc;
            self.push_word(mem, ret_pc);
            self.registers.pc = dw;
            proof {
                assert(q3_col0_step(op_code, *old(self), old(mem)@, *self, mem@, 24)) by {
                    reveal(crate::cpu::q3_col0_step);
                }
            }
            return 24;
        }
        if op_code == 0xCE {
            let v: u8 = self.fetch_u8(mem);
            let mut av: u8 = self.registers.a;
            let mut fl: FRegister = self.registers.f;
            Instructions::adc(&mut av, v, &mut fl);
            self.registers.a = av;
            self.registers.f = fl;
            proof {
                assert(q3_col0_step(op_code, *old(self), old(mem)@, *self, mem@, 8)) by {
                    reveal(crate::cpu::q3_col0_step);
                }
            }
            return 8;
        }
        if op_code == 0xCF {
            let ret_pc: u16 = self.registers.pc;
            self.push_word(mem, ret_pc);
            self.registers.pc = 0x08;
            proof {
                assert(q3_col0_step(op_code, *old(self), old(mem)@, *self, mem@, 32)) by {
                    reveal(crate::cpu::q3_col0_step);
                }
            }
            return 32;
        }
        proof {
            assert(q3_col0_step(op_code, *old(self), old(mem)@, *self, mem@, 4)) by {
                reveal(crate::cpu::q3_col0_step);
            }
        }
        4
    }

    /// Execute one of the implemented base-table opcodes 0xC0..0xCF.
    fn q3_col0(&mut self, mem: &mut Memory, op_code: u8) -> (cycles: u8)
        requires
            old(mem)@.wf(),
            0xC0 <= op_code < 0xD0,
        ensures
            q3_col0_step(op_code, *old(self), old(mem)@, *final(self), final(mem)@, cycles),
            final(mem)@.wf(),
            4 <= cycles && cycles <= 32,
    {
        if op_code < 0xC8 {
            self.q3_col0_lo(mem, op_code)
        } else {
            self.q3_col0_hi(mem, op_code)
        }
    }

    /// Execute one of the implemented base-table opcodes 0xD0..0xD7.
    #[verifier::rlimit(100)]
    #[verifier::spinoff_prover]
    fn q3_col1_lo(&mut self, mem: &mut Memory, op_code: u8) -> (cycles: u8)
        requires
            old(mem)@.wf(),
            0xD0 <= op_code < 0xD8,
            op_code != 0xD3,
        ensures
            q3_col1_step(op_code, *old(self), old(mem)@, *final(self), final(mem)@, cycles),
            final(mem)@.wf(),
            4 <= cycles && cycles <= 32,
    {
        if op_code == 0xD0 {
            if !self.registers.f.carry {
                let address: u16 = self.pop_word(mem);
                self.registers.pc = address;
                proof {
                    assert(q3_col1_step(op_code, *old(self), old(mem)@, *self, mem@, 20)) by {
                        reveal(crate::cpu::q3_col1_step);
                    }
                }
                return 20;
            }
            proof {
                assert(q3_col1_step(op_code, *old(self), old(mem)@, *self, mem@, 8)) by {
                    reveal(crate::cpu::q3_col1_step);
                }
            }
            return 8;
        }
        if op_code == 0xD1 {
            let w: u16 = self.pop_word(mem);
            let u8s: (u8, u8) = BinUtils::u8s_from_u16(w);
            self.registers.d = u8s.0;
            self.registers.e = u8s.1;
            proof {
                assert(q3_col1_step(op_code, *old(self), old(mem)@, *self, mem@, 12)) by {
                    reveal(crate::cpu::q3_col1_step);
                }
            }
            return 12;
        }
        if op_code == 0xD2 {
            let dw: u16 = self.fetch_u16(mem);
            if !self.registers.f.carry {
                self.registers.pc = dw;
                proof {
                    assert(q3_col1_step(op_code, *old(self), old(mem)@, *self, mem@, 16)) by {
                        reveal(crate::cpu::q3_col1_step);
                    }
                }
                return 16;
            }
            proof {
                assert(q3_col1_step(op_code, *old(self), old(mem)@, *self, mem@, 12)) by {
                    reveal(crate::cpu::q3_col1_step);
                }
            }
            return 12;
        }
        if op_code == 0xD4 {
            let dw: u16 = self.fetch_u16(mem);
            if !self.registers.f.carry {
                let ret_pc: u16 = self.registers.pc;
                self.push_word(mem, ret_pc);
                self.registers.pc = dw;
                proof {
                    assert(q3_col1_step(op_code, *old(self), old(mem)@, *self, mem@, 24)) by {
                        reveal(crate::cpu::q3_col1_step);
                    }
                }
                return 24;
            }
            proof {
                assert(q3_col1_step(op_code, *old(self), old(mem)@, *self, mem@, 12)) by {
                    reveal(crate::cpu::q3_col1_step);
                }
            }
            return 12;
        }
        if op_code == 0xD5 {
            let word: u16 = BinUtils::u16_from_u8s(self.registers.d, self.registers.e);
            self.push_word(mem, word);
            proof {
                assert(q3_col1_step(op_code, *old(self), old(mem)@, *self, mem@, 16)) by {
                    reveal(crate::cpu::q3_col1_step);
                }
            }
            return 16;
        }
        if op_code == 0xD6 {
            let v: u8 = self.fetch_u8(mem);
            let mut av: u8 = self.registers.a;
            let mut fl: FRegister = self.registers.f;
            Instructions::sub(&mut av, v, &mut fl);
            self.registers.a = av;
            self.registers.f = fl;
            proof {
                assert(q3_col1_step(op_code, *old(self), old(mem)@, *self, mem@, 8)) by {
                    reveal(crate::cpu::q3_col1_step);
                }
            }
            return 8;
        }
        if op_code == 0xD7 {
            let ret_pc: u16 = self.registers.pc;
            self.push_word(mem, ret_pc);
            self.registers.pc = 0x10;
            proof {
                assert(q3_col1_step(op_code, *old(self), old(mem)@, *self, mem@, 32)) by {
                    reveal(crate::cpu::q3_col1_step);
                }
            }
            return 32;
        }
        proof {
            assert(q3_col1_step(op_code, *old(self), old(mem)@, *self, mem@, 4)) by {
                reveal(crate::cpu::q3_col1_step);
            }
        }
        4
    }

    /// Execute one of the implemented base-table opcodes 0xD8..0xDF.
    #[verifier::rlimit(100)]
    #[verifier::spinoff_prover]
    fn q3_col1_hi(&mut self, mem: &mut Memory, op_code: u8) -> (cycles: u8)
        requires
            old(mem)@.wf(),
            0xD8 <= op_code < 0xE0,
            op_code != 0xDB,
            op_code != 0xDD,
        ensures
            q3_col1_step(op_code, *old(self), old(mem)@, *final(self), final(mem)@, cycles),
            final(mem)@.wf(),
            4 <= cycles && cycles <= 32,
    {
        if op_code == 0xD8 {
            if self.registers.f.carry {
                let address: u16 = self.pop_word(mem);
                self.registers.pc = address;
                proof {
                    assert(q3_col1_step(op_code, *old(self), old(mem)@, *self, mem@, 20)) by {
                        reveal(crate::cpu::q3_col1_step);
                    }
                }
                return 20;
            }
            proof {
                assert(q3_col1_step(op_code, *old(self), old(mem)@, *self, mem@, 8)) by {
                    reveal(crate::cpu::q3_col1_step);
                }
            }
            return 8;
        }
        if op_code == 0xD9 {
            let address: u16 = self.pop_word(mem);
            self.registers.pc = address;
            proof {
                assert(q3_col1_step(op_code, *old(self), old(mem)@, *self, mem@, 8)) by {
                    reveal(crate::cpu::q3_col1_step);
                }
            }
            return 8;
        }
        if op_code == 0xDA {
            let dw: u16 = self.fetch_u16(mem);
            if self.registers.f.carry {
                self.registers.pc = dw;
                proof {
                    assert(q3_col1_step(op_code, *old(self), old(mem)@, *self, mem@, 16)) by {
                        reveal(crate::cpu::q3_col1_step);
                    }
                }
                return 16;
            }
            proof {
                assert(q3_col1_step(op_code, *old(self), old(mem)@, *self, mem@, 12)) by {
                    reveal(crate::cpu::q3_col1_step);
                }
            }
            return 12;
        }
        if op_code == 0xDC {
            let dw: u16 = self.fetch_u16(mem);
            if self.registers.f.carry {
                let ret_pc: u16 = self.registers.pc;
                self.push_word(mem, ret_pc);
                self.registers.pc = dw;
                proof {
                    assert(q3_col1_step(op_code, *old(self), old(mem)@, *self, mem@, 24)) by {
                        reveal(crate::cpu::q3_col1_step);
                    }
                }
                return 24;
            }
            proof {
                assert(q3_col1_step(op_code, *old(self), old(mem)@, *self, mem@, 12)) by {
                    reveal(crate::cpu::q3_col1_step);
                }
            }
            return 12;
        }
        if op_code == 0xDE {
            let v: u8 = self.fetch_u8(mem);
            let mut av: u8 = self.registers.a;
            let mut fl: FRegister = self.registers.f;
            Instructions::sbc(&mut av, v, &mut fl);
            self.registers.a = av;
            self.registers.f = fl;
            proof {
                assert(q3_col1_step(op_code, *old(self), old(mem)@, *self, mem@, 8)) by {
                    reveal(crate::cpu::q3_col1_step);
                }
            }
            return 8;
        }
        if op_code == 0xDF {
            let ret_pc: u16 = self.registers.pc;
            self.push_word(mem, ret_pc);
            self.registers.pc = 0x18;
            proof {
                assert(q3_col1_step(op_code, *old(self), old(mem)@, *self, mem@, 32)) by {
                    reveal(crate::cpu::q3_col1_step);
                }
            }
            return 32;
        }
        proof {
            assert(q3_col1_step(op_code, *old(self), old(mem)@, *self, mem@, 4)) by {
                reveal(crate::cpu::q3_col1_step);
            }
        }
        4
    }

    /// Execute one of the implemented base-table opcodes 0xD0..0xDF.
    fn q3_col1(&mut self, mem: &mut Memory, op_code: u8) -> (cycles: u8)
        requires
            old(mem)@.wf(),
            0xD0 <= op_code < 0xE0,
            op_code != 0xD3,
            op_code != 0xDB,
            op_code != 0xDD,
        ensures
            q3_col1_step(op_code, *old(self), old(mem)@, *final(self), final(mem)@, cycles),
            final(mem)@.wf(),
            4 <= cycles && cycles <= 32,
    {
        if op_code < 0xD8 {
            self.q3_col1_lo(mem, op_code)
        } else {
            self.q3_col1_hi(mem, op_code)
        }
    }

    /// Execute one of the implemented base-table opcodes 0xE0..0xE7.
    #[verifier::rlimit(100)]
    #[verifier::spinoff_prover]
    fn q3_col2_lo(&mut self, mem: &mut Memory, op_code: u8) -> (cycles: u8)
        requires
            old(mem)@.wf(),
            0xE0 <= op_code < 0xE8,
            op_code != 0xE3,
            op_code != 0xE4,
        ensures
            q3_col2_step(op_code, *old(self), old(mem)@, *final(self), final(mem)@, cycles),
            final(mem)@.wf(),
            4 <= cycles && cycles <= 32,
    {
        if op_code == 0xE0 {
            let dv: u8 = self.fetch_u8(mem);
            let address: u16 = 0xFF00 + (dv as u16);
            mem.write_u8(self.registers.a, address as usize);
            proof {
                assert(q3_col2_step(op_code, *old(self), old(mem)@, *self, mem@, 12)) by {
                    reveal(crate::cpu::q3_col2_step);
                }
            }
            return 12;
        }
        if op_code == 0xE1 {
            let w: u16 = self.pop_word(mem);
            let u8s: (u8, u8) = BinUtils::u8s_from_u16(w);
            self.registers.h = u8s.0;
            self.registers.l = u8s.1;
            proof {
                assert(q3_col2_step(op_code, *old(self), old(mem)@, *self, mem@, 12)) by {
                    reveal(crate::cpu::q3_col2_step);
                }
            }
            return 12;
        }
        if op_code == 0xE2 {
            let address: u16 = 0xFF00 + (self.registers.c as u16);
            mem.write_u8(self.registers.a, address as usize);
            proof {
                assert(q3_col2_step(op_code, *old(self), old(mem)@, *self, mem@, 8)) by {
                    reveal(crate::cpu::q3_col2_step);
                }
            }
            return 8;
        }
        if op_code == 0xE5 {
            let word: u16 = BinUtils::u16_from_u8s(self.registers.h, self.registers.l);
            self.push_word(mem, word);
            proof {
                assert(q3_col2_step(op_code, *old(self), old(mem)@, *self, mem@, 16)) by {
                    reveal(crate::cpu::q3_col2_step);
                }
            }
            return 16;
        }
        if op_code == 0xE6 {
            let v: u8 = self.fetch_u8(mem);
            let mut av: u8 = self.registers.a;
            let mut fl: FRegister = self.registers.f;
            Instructions::and(&mut av, &mut fl, v);
            self.registers.a = av;
            self.registers.f = fl;
            proof {
                assert(q3_col2_step(op_code, *old(self), old(mem)@, *self, mem@, 8)) by {
                    reveal(crate::cpu::q3_col2_step);
                }
            }
            return 8;
        }
        if op_code == 0xE7 {
            let ret_pc: u16 = self.registers.pc;
            self.push_word(mem, ret_pc);
            self.registers.pc = 0x20;
            proof {
                assert(q3_col2_step(op_code, *old(self), old(mem)@, *self, mem@, 32)) by {
                    reveal(crate::cpu::q3_col2_step);
                }
            }
            return 32;
        }
        proof {
            assert(q3_col2_step(op_code, *old(self), old(mem)@, *self, mem@, 4)) by {
                reveal(crate::cpu::q3_col2_step);
            }
        }
        4
    }

    /// Execute one of the implemented base-table opcodes 0xE8..0xEF.
    #[verifier::rlimit(100)]
    #[verifier::spinoff_prover]
    fn q3_col2_hi(&mut self, mem: &mut Memory, op_code: u8) -> (cycles: u8)
        requires
            old(mem)@.wf(),
            0xE8 <= op_code < 0xF0,
            op_code != 0xEB,
            op_code != 0xEC,
            op_code != 0xED,
        ensures
            q3_col2_step(op_code, *old(self), old(mem)@, *final(self), final(mem)@, cycles),
            final(mem)@.wf(),
            4 <= cycles && cycles <= 32,
    {
        if op_code == 0xE8 {
            let dv: u8 = self.fetch_u8(mem);
            let v16: u16 = if dv < 0x80 { dv as u16 } else { (dv as u16) + 0xFF00 };
            let sp0: u16 = self.registers.sp;
            self.registers.f.half_carry = ((sp0 & 0x000F) as u32) + ((v16 & 0x000F) as u32) > 0x000F;
            self.registers.f.carry = ((sp0 & 0x00FF) as u32) + ((v16 & 0x00FF) as u32) > 0x00FF;
            self.registers.sp = sp0.wrapping_add(v16);
            self.registers.f.zero = false;
            self.registers.f.substract = false;
            proof {
                assert(q3_col2_step(op_code, *old(self), old(mem)@, *self, mem@, 16)) by {
                    reveal(crate::cpu::q3_col2_step);
                }
            }
            return 16;
        }
        if op_code == 0xE9 {
            let address: u16 = BinUtils::u16_from_u8s(self.registers.h, self.registers.l);
            self.registers.pc = address;
            proof {
                assert(q3_col2_step(op_code, *old(self), old(mem)@, *self, mem@, 4)) by {
                    reveal(crate::cpu::q3_col2_step);
                }
            }
            return 4;
        }
        if op_code == 0xEA {
            let address: u16 = self.fetch_u16(mem);
            mem.write_u8(self.registers.a, address as usize);
            proof {
                assert(q3_col2_step(op_code, *old(self), old(mem)@, *self, mem@, 16)) by {
                    reveal(crate::cpu::q3_col2_step);
                }
            }
            return 16;
        }
        if op_code == 0xEE {
            let v: u8 = self.fetch_u8(mem);
            let mut av: u8 = self.registers.a;
            let mut fl: FRegister = self.registers.f;
            Instructions::xor(&mut av, &mut fl, v);
            self.registers.a = av;
            self.registers.f = fl;
            proof {
                assert(q3_col2_step(op_code, *old(self), old(mem)@, *self, mem@, 8)) by {
                    reveal(crate::cpu::q3_col2_step);
                }
            }
            return 8;
        }
        if op_code == 0xEF {
            let ret_pc: u16 = self.registers.pc;
            self.push_word(mem, ret_pc);
            self.registers.pc = 0x28;
            proof {
                assert(q3_col2_step(op_code, *old(self), old(mem)@, *self, mem@, 32)) by {
                    reveal(crate::cpu::q3_col2_step);
                }
            }
            return 32;
        }
        proof {
            assert(q3_col2_step(op_code, *old(self), old(mem)@, *self, mem@, 4)) by {
                reveal(crate::cpu::q3_col2_step);
            }
        }
        4
    }

    /// Execute one of the implemented base-table opcodes 0xE0..0xEF.
    fn q3_col2(&mut self, mem: &mut Memory, op_code: u8) -> (cycles: u8)
        requires
            old(mem)@.wf(),
            0xE0 <= op_code < 0xF0,
            op_code != 0xE3,
            op_code != 0xE4,
            op_code != 0xEB,
            op_code != 0xEC,
            op_code != 0xED,
        ensures
            q3_col2_step(op_code, *old(self), old(mem)@, *final(self), final(mem)@, cycles),
            final(mem)@.wf(),
            4 <= cycles && cycles <= 32,
    {
        if op_code < 0xE8 {
            self.q3_col2_lo(mem, op_code)
        } else {
            self.q3_col2_hi(mem, op_code)
        }
    }

    /// Execute one of the implemented base-table opcodes 0xF0..0xF7.
    #[verifier::rlimit(100)]
    #[verifier::spinoff_prover]
    fn q3_col3_lo(&mut self, mem: &mut Memory, op_code: u8) -> (cycles: u8)
        requires
            old(mem)@.wf(),
            0xF0 <= op_code < 0xF8,
            op_code != 0xF4,
        ensures
            q3_col3_step(op_code, *old(self), old(mem)@, *final(self), final(mem)@, cycles),
            final(mem)@.wf(),
            4 <= cycles && cycles <= 32,
    {
        if op_code == 0xF0 {
            let dv: u8 = self.fetch_u8(mem);
            let address: u16 = 0xFF00 + (dv as u16);
            self.registers.a = mem.read_u8(address as usize);
            proof {
                assert(q3_col3_step(op_code, *old(self), old(mem)@, *self, mem@, 12)) by {
                    reveal(crate::cpu::q3_col3_step);
                }
            }
            return 12;
        }
        if op_code == 0xF1 {
            let w: u16 = self.pop_word(mem);
            let u8s: (u8, u8) = BinUtils::u8s_from_u16(w);
            self.registers.a = u8s.0;
            self.registers.f = FRegister::from_u8(u8s.1);
            proof {
                assert(q3_col3_step(op_code, *old(self), old(mem)@, *self, mem@, 12)) by {
                    reveal(crate::cpu::q3_col3_step);
                }
            }
            return 12;
        }
        if op_code == 0xF2 {
            let address: u16 = 0xFF00 + (self.registers.c as u16);
            self.registers.a = mem.read_u8(address as usize);
            proof {
                assert(q3_col3_step(op_code, *old(self), old(mem)@, *self, mem@, 8)) by {
                    reveal(crate::cpu::q3_col3_step);
                }
            }
            return 8;
        }
        if op_code == 0xF3 {
            self.imd_next = true;
            proof {
                assert(q3_col3_step(op_code, *old(self), old(mem)@, *self, mem@, 4)) by {
                    reveal(crate::cpu::q3_col3_step);
                }
            }
            return 4;
        }
        if op_code == 0xF5 {
            let word: u16 = BinUtils::u16_from_u8s(self.registers.a, self.registers.f.to_u8());
            self.push_word(mem, word);
            proof {
                assert(q3_col3_step(op_code, *old(self), old(mem)@, *self, mem@, 16)) by {
                    reveal(crate::cpu::q3_col3_step);
                }
            }
            return 16;
        }
        if op_code == 0xF6 {
            let v: u8 = self.fetch_u8(mem);
            let mut av: u8 = self.registers.a;
            let mut fl: FRegister = self.registers.f;
            Instructions::or(&mut av, &mut fl, v);
            self.registers.a = av;
            self.registers.f = fl;
            proof {
                assert(q3_col3_step(op_code, *old(self), old(mem)@, *self, mem@, 8)) by {
                    reveal(crate::cpu::q3_col3_step);
                }
            }
            return 8;
        }
        if op_code == 0xF7 {
            let ret_pc: u16 = self.registers.pc;
            self.push_word(mem, ret_pc);
            self.registers.pc = 0x30;
            proof {
                assert(q3_col3_step(op_code, *old(self), old(mem)@, *self, mem@, 32)) by {
                    reveal(crate::cpu::q3_col3_step);
                }
            }
            return 32;
        }
        proof {
            assert(q3_col3_step(op_code, *old(self), old(mem)@, *self, mem@, 4)) by {
                reveal(crate::cpu::q3_col3_step);
            }
        }
        4
    }

    /// Execute one of the implemented base-table opcodes 0xF8..0xFF.
    #[verifier::rlimit(100)]
    #[verifier::spinoff_prover]
    fn q3_col3_hi(&mut self, mem: &mut Memory, op_code: u8) -> (cycles: u8)
        requires
            old(mem)@.wf(),
            0xF8 <= op_code < 0x100,
            op_code != 0xFC,
            op_code != 0xFD,
        ensures
            q3_col3_step(op_code, *old(self), old(mem)@, *final(self), final(mem)@, cycles),
            final(mem)@.wf(),
            4 <= cycles && cycles <= 32,
    {
        if op_code == 0xF8 {
            let dv: u8 = self.fetch_u8(mem);
            let v16: u16 = if dv < 0x80 { dv as u16 } else { (dv as u16) + 0xFF00 };
            let sp0: u16 = self.registers.sp;
            let result: u16 = sp0.wrapping_add(v16);
            self.registers.f.substract = false;
            self.registers.f.zero = false;
            self.registers.f.half_carry = ((sp0 & 0x000F) as u32) + ((v16 & 0x000F) as u32) > 0x000F;
            self.registers.f.carry = ((sp0 & 0x00FF) as u32) + ((v16 & 0x00FF) as u32) > 0x00FF;
            let rsplit: (u8, u8) = BinUtils::u8s_from_u16(result);
            self.registers.h = rsplit.0;
            self.registers.l = rsplit.1;
            proof {
                assert(q3_col3_step(op_code, *old(self), old(mem)@, *self, mem@, 12)) by {
                    reveal(crate::cpu::q3_col3_step);
                }
            }
            return 12;
        }
        if op_code == 0xF9 {
            let hlv: u16 = BinUtils::u16_from_u8s(self.registers.h, self.registers.l);
            self.registers.sp = hlv;
            proof {
                assert(q3_col3_step(op_code, *old(self), old(mem)@, *self, mem@, 8)) by {
                    reveal(crate::cpu::q3_col3_step);
                }
            }
            return 8;
        }
        if op_code == 0xFA {
            let address: u16 = self.fetch_u16(mem);
            let v: u8 = mem.read_u8(address as usize);
            self.registers.a = v;
            proof {
                assert(q3_col3_step(op_code, *old(self), old(mem)@, *self, mem@, 16)) by {
                    reveal(crate::cpu::q3_col3_step);
                }
            }
            return 16;
        }
        if op_code == 0xFB {
            self.ime_next = true;
            proof {
                assert(q3_col3_step(op_code, *old(self), old(mem)@, *self, mem@, 4)) by {
                    reveal(crate::cpu::q3_col3_step);
                }
            }
            return 4;
        }
        if op_code == 0xFE {
            let v: u8 = self.fetch_u8(mem);
            let mut fl: FRegister = self.registers.f;
            Instructions::cp(self.registers.a, v, &mut fl);
            self.registers.f = fl;
            proof {
                assert(q3_col3_step(op_code, *old(self), old(mem)@, *self, mem@, 8)) by {
                    reveal(crate::cpu::q3_col3_step);
                }
            }
            return 8;
        }
        if op_code == 0xFF {
            let ret_pc: u16 = self.registers.pc;
            self.push_word(mem, ret_pc);
            self.registers.pc = 0x38;
            proof {
                assert(q3_col3_step(op_code, *old(self), old(mem)@, *self, mem@, 32)) by {
                    reveal(crate::cpu::q3_col3_step);
                }
            }
            return 32;
        }
        proof {
            assert(q3_col3_step(op_code, *old(self), old(mem)@, *self, mem@, 4)) by {
                reveal(crate::cpu::q3_col3_step);
            }
        }
        4
    }

    /// Execute one of the implemented base-table opcodes 0xF0..0xFF.
    fn q3_col3(&mut self, mem: &mut Memory, op_code: u8) -> (cycles: u8)
        requires
            old(mem)@.wf(),
            0xF0 <= op_code < 0x100,
            op_code != 0xF4,
            op_code != 0xFC,
            op_code != 0xFD,
        ensures
            q3_col3_step(op_code, *old(self), old(mem)@, *final(self), final(mem)@, cycles),
            final(mem)@.wf(),
            4 <= cycles && cycles <= 32,
    {
        if op_code < 0xF8 {
            self.q3_col3_lo(mem, op_code)
        } else {
            self.q3_col3_hi(mem, op_code)
        }
    }

    /// Execute one opcode of the last quarter of the base table.
    fn call_q3(&mut self, mem: &mut Memory, op_code: u8) -> (cycles: u8)
        requires
            old(mem)@.wf(),
            0xC0 <= op_code,
            base_implemented(op_code),
        ensures
            q3_step(op_code, *old(self), old(mem)@, *final(self), final(mem)@, cycles),
            final(mem)@.wf(),
            4 <= cycles && cycles <= 32,
    {
        let cycles: u8 = if op_code < 0xD0 {
            self.q3_col0(mem, op_code)
        } else if op_code < 0xE0 {
            self.q3_col1(mem, op_code)
        } else if op_code < 0xF0 {
            self.q3_col2(mem, op_code)
        } else {
            self.q3_col3(mem, op_code)
        };
        proof {
            assert(q3_step(op_code, *old(self), old(mem)@, *self, mem@, cycles)) by {
                reveal(crate::cpu::q3_step);
            }
        }
        cycles
    }

    /// Decode and execute one opcode of the base table, the program
    /// counter already past the opcode byte. The result carries the
    /// cycle cost, or the unimplemented-opcode fault with the engine
    /// left untouched.
    fn call(&mut self, mem: &mut Memory, op_code: u8) -> (r: Result<u8, EmuError>)
        requires
            old(mem)@.wf(),
        ensures
            r is Ok <==> base_implemented(op_code),
            r matches Ok(cycles) ==> 4 <= cycles && cycles <= 32,
            r matches Ok(cycles) ==> base_step(
                op_code,
                *old(self),
                old(mem)@,
                *final(self),
                final(mem)@,
                cycles,
            ),
            !base_implemented(op_code) ==> *final(self) == *old(self) && final(mem)@ == old(mem)@
                && r == Err::<u8, EmuError>(EmuError::UnimplementedOpcode {
                opcode: op_code,
                pc: old(self).registers.pc,
            }),
            final(mem)@.wf(),
    {
        if op_code == 0xD3 || op_code == 0xDB || op_code == 0xDD || op_code == 0xE3
            || op_code == 0xE4 || op_code == 0xEB || op_code == 0xEC || op_code == 0xED
            || op_code == 0xF4 || op_code == 0xFC || op_code == 0xFD {
            return Err(EmuError::UnimplementedOpcode { opcode: op_code, pc: self.registers.pc });
        }
        let cycles: u8 = if op_code < 0x40 {
            self.call_q0(mem, op_code)
        } else if op_code < 0x80 {
            self.call_ld(mem, op_code)
        } else if op_code < 0xC0 {
            self.call_alu(mem, op_code)
        } else {
            self.call_q3(mem, op_code)
        };
        proof {
            assert(base_step(op_code, *old(self), old(mem)@, *self, mem@, cycles)) by {
                reveal(crate::cpu::base_step);
            }
        }
        Ok(cycles)
    }

    /// Fetch, decode and execute one instruction: the cycle cost of the
    /// opcode at the program counter, or the unimplemented-opcode fault
    /// with the program counter left just past the offending byte.
    pub fn cycle(&mut self, mem: &mut Memory) -> (r: Result<usize, EmuError>)
        requires
            old(mem)@.wf(),
        ensures
            ({
                let op = old(mem)@.spec_read(old(self).registers.pc as int);
                let c_mid = with_pc(*old(self), wrap_add16(old(self).registers.pc, 1));
                &&& (r matches Ok(cycles) ==> 4 <= cycles && cycles <= 32 && base_step(
                    op,
                    c_mid,
                    old(mem)@,
                    *final(self),
                    final(mem)@,
                    cycles as u8,
                ))
                &&& (r is Ok <==> base_implemented(op))
                &&& (r matches Err(e) ==> e == (EmuError::UnimplementedOpcode {
                    opcode: op,
                    pc: wrap_add16(old(self).registers.pc, 1),
                }) && *final(self) == c_mid && final(mem)@ == old(mem)@)
            }),
            final(mem)@.wf(),
            final(mem)@.tima == old(mem)@.tima,
            final(mem)@.tma == old(mem)@.tma,
            final(mem)@.tac == old(mem)@.tac,
    {
        let inst_op_code: u8 = self.fetch_u8(mem);
        let r = self.call(mem, inst_op_code);
        match r {
            Ok(cycles) => {
                proof {
                    lemma_base_step_keeps_timer(
                        inst_op_code,
                        with_pc(*old(self), wrap_add16(old(self).registers.pc, 1)),
                        old(mem)@,
                        *self,
                        mem@,
                        cycles,
                    );
                }
                Ok(cycles as usize)
            },
            Err(e) => Err(e),
        }
    }

    /// Execute one opcode of the extended table.
    fn call_extended(&mut self, mem: &mut Memory, op_code: u8) -> (cycles: u8)
        requires
            old(mem)@.wf(),
        ensures
            cb_step(op_code, *old(self), old(mem)@, *final(self), final(mem)@, cycles),
            final(mem)@.wf(),
            4 <= cycles && cycles <= 32,
    {
        let loc: u8 = op_code % 8;
        let fam: u8 = op_code / 8;
        let b: u8 = fam % 8;
        let address: u16 = BinUtils::u16_from_u8s(self.registers.h, self.registers.l);
        let mut v: u8 = if loc == 6 {
            mem.read_u8(address as usize)
        } else {
            self.read_reg8(loc)
        };
        let mut f: FRegister = self.registers.f;
        if op_code < 0x40 {
            if fam == 0 {
                Instructions::rlc(&mut v, &mut f);
            } else if fam == 1 {
                Instructions::rrc(&mut v, &mut f, true);
            } else if fam == 2 {
                Instructions::rl(&mut v, &mut f);
            } else if fam == 3 {
                Instructions::rr(&mut v, &mut f);
            } else if fam == 4 {
                Instructions::sla(&mut v, &mut f);
            } else if fam == 5 {
                Instructions::sra(&mut v, &mut f);
            } else if fam == 6 {
                Instructions::swap(&mut v, &mut f);
            } else {
                Instructions::srl(&mut v, &mut f);
            }
            self.registers.f = f;
            if loc == 6 {
                mem.write_u8(v, address as usize);
            } else {
                self.write_reg8(loc, v);
            }
            let cycles: u8 = if loc == 6 { 16 } else { 8 };
            proof {
                assert(cb_step(op_code, *old(self), old(mem)@, *self, mem@, cycles)) by {
                    reveal(crate::cpu::cb_step);
                }
            }
            cycles
        } else if op_code < 0x80 {
            Instructions::bit(b, v, &mut f);
            self.registers.f = f;
            let cycles: u8 = if loc == 6 { 16 } else { 8 };
            proof {
                assert(cb_step(op_code, *old(self), old(mem)@, *self, mem@, cycles)) by {
                    reveal(crate::cpu::cb_step);
                }
            }
            cycles
        } else if op_code < 0xC0 {
            Instructions::res(&mut v, b);
            if loc == 6 {
                mem.write_u8(v, address as usize);
            } else {
                self.write_reg8(loc, v);
            }
            let cycles: u8 = if loc == 6 { 16 } else { 8 };
            proof {
                assert(cb_step(op_code, *old(self), old(mem)@, *self, mem@, cycles)) by {
                    reveal(crate::cpu::cb_step);
                }
            }
            cycles
        } else {
            Instructions::set(b, &mut v);
            if loc == 6 {
                mem.write_u8(v, address as usize);
            } else {
                self.write_reg8(loc, v);
            }
            let cycles: u8 = if loc == 6 { 16 } else { 8 };
            proof {
                assert(cb_step(op_code, *old(self), old(mem)@, *self, mem@, cycles)) by {
                    reveal(crate::cpu::cb_step);
                }
            }
            cycles
        }
    }

    /// Execute one opcode of the load quarter of the base table.
    fn call_ld(&mut self, mem: &mut Memory, op_code: u8) -> (cycles: u8)
        requires
            old(mem)@.wf(),
            0x40 <= op_code < 0x80,
        ensures
            ld_step(op_code, *old(self), old(mem)@, *final(self), final(mem)@, cycles),
            final(mem)@.wf(),
            4 <= cycles && cycles <= 32,
    {
        if op_code == 0x76 {
            mem.halted = true;
            proof {
                assert(ld_step(op_code, *old(self), old(mem)@, *self, mem@, 4)) by {
                    reveal(crate::cpu::ld_step);
                }
            }
            return 4;
        }
        let src: u8 = op_code % 8;
        let dst: u8 = (op_code / 8) % 8;
        if src == 6 {
            let address: u16 = BinUtils::u16_from_u8s(self.registers.h, self.registers.l);
            let v: u8 = mem.read_u8(address as usize);
            self.write_reg8(dst, v);
            proof {
                assert(ld_step(op_code, *old(self), old(mem)@, *self, mem@, 8)) by {
                    reveal(crate::cpu::ld_step);
                }
            }
            8
        } else if dst == 6 {
            let address: u16 = BinUtils::u16_from_u8s(self.registers.h, self.registers.l);
            let v: u8 = self.read_reg8(src);
            mem.write_u8(v, address as usize);
            proof {
                assert(ld_step(op_code, *old(self), old(mem)@, *self, mem@, 8)) by {
                    reveal(crate::cpu::ld_step);
                }
            }
            8
        } else {
            let v: u8 = self.read_reg8(src);
            self.write_reg8(dst, v);
            proof {
                assert(ld_step(op_code, *old(self), old(mem)@, *self, mem@, 4)) by {
                    reveal(crate::cpu::ld_step);
                }
            }
            4
        }
    }

    /// Execute one opcode of the accumulator-arithmetic quarter of the
    /// base table.
    fn call_alu(&mut self, mem: &mut Memory, op_code: u8) -> (cycles: u8)
        requires
            old(mem)@.wf(),
            0x80 <= op_code < 0xC0,
        ensures
            alu_step(op_code, *old(self), old(mem)@, *final(self), final(mem)@, cycles),
            final(mem)@.wf(),
            4 <= cycles && cycles <= 32,
    {
        let src: u8 = op_code % 8;
        let fam: u8 = (op_code / 8) % 8;
        let v: u8 = if src == 6 {
            let address: u16 = BinUtils::u16_from_u8s(self.registers.h, self.registers.l);
            mem.read_u8(address as usize)
        } else {
            self.read_reg8(src)
        };
        let mut a: u8 = self.registers.a;
        let mut f: FRegister = self.registers.f;
        if fam == 0 {
            Instructions::add(&mut a, v, &mut f);
        } else if fam == 1 {
            Instructions::adc(&mut a, v, &mut f);
        } else if fam == 2 {
            Instructions::sub(&mut a, v, &mut f);
        } else if fam == 3 {
            Instructions::sbc(&mut a, v, &mut f);
        } else if fam == 4 {
            Instructions::and(&mut a, &mut f, v);
        } else if fam == 5 {
            Instructions::xor(&mut a, &mut f, v);
        } else if fam == 6 {
            Instructions::or(&mut a, &mut f, v);
        } else {
            Instructions::cp(a, v, &mut f);
        }
        self.registers.a = a;
        self.registers.f = f;
        let cycles: u8 = if src == 6 { 8 } else { 4 };
        proof {
            assert(alu_step(op_code, *old(self), old(mem)@, *self, mem@, cycles)) by {
                reveal(crate::cpu::alu_step);
            }
        }
        cycles
    }
}


/// A step of the extended table leaves the timer-counter registers
/// alone.
pub proof fn lemma_cb_step_keeps_timer(op: u8, c0: Cpu, m0: MemView, c1: Cpu, m1: MemView, cycles: u8)
    requires
        cb_step(op, c0, m0, c1, m1, cycles),
    ensures
        m1.tima == m0.tima && m1.tma == m0.tma && m1.tac == m0.tac,
{
    broadcast use crate::memory::lemma_spec_write_keeps_timer;

    reveal(crate::cpu::cb_step);
}

/// A step of the load quarter leaves the timer-counter registers alone.
pub proof fn lemma_ld_step_keeps_timer(op: u8, c0: Cpu, m0: MemView, c1: Cpu, m1: MemView, cycles: u8)
    requires
        ld_step(op, c0, m0, c1, m1, cycles),
    ensures
        m1.tima == m0.tima && m1.tma == m0.tma && m1.tac == m0.tac,
{
    broadcast use crate::memory::lemma_spec_write_keeps_timer;

    reveal(crate::cpu::ld_step);
}

/// A step of the arithmetic quarter leaves the timer-counter registers
/// alone.
pub proof fn lemma_alu_step_keeps_timer(op: u8, c0: Cpu, m0: MemView, c1: Cpu, m1: MemView, cycles: u8)
    requires
        alu_step(op, c0, m0, c1, m1, cycles),
    ensures
        m1.tima == m0.tima && m1.tma == m0.tma && m1.tac == m0.tac,
{
    broadcast use crate::memory::lemma_spec_write_keeps_timer;

    reveal(crate::cpu::alu_step);
}

/// A step of the first quarter leaves the timer-counter registers
/// alone.
#[verifier::rlimit(100)]
pub proof fn lemma_q0_step_keeps_timer(op: u8, c0: Cpu, m0: MemView, c1: Cpu, m1: MemView, cycles: u8)
    requires
        q0_step(op, c0, m0, c1, m1, cycles),
    ensures
        m1.tima == m0.tima && m1.tma == m0.tma && m1.tac == m0.tac,
{
    broadcast use crate::memory::lemma_spec_write_keeps_timer;

    reveal(crate::cpu::q0_step);
    reveal(crate::cpu::q0_col0_step);
    reveal(crate::cpu::q0_col1_step);
    reveal(crate::cpu::q0_col2_step);
    reveal(crate::cpu::q0_col3_step);
}

/// A step of the last quarter leaves the timer-counter registers alone.
#[verifier::rlimit(100)]
pub proof fn lemma_q3_step_keeps_timer(op: u8, c0: Cpu, m0: MemView, c1: Cpu, m1: MemView, cycles: u8)
    requires
        q3_step(op, c0, m0, c1, m1, cycles),
    ensures
        m1.tima == m0.tima && m1.tma == m0.tma && m1.tac == m0.tac,
{
    broadcast use crate::memory::lemma_spec_write_keeps_timer;

    reveal(crate::cpu::q3_step);
    reveal(crate::cpu::q3_col0_step);
    reveal(crate::cpu::q3_col1_step);
    reveal(crate::cpu::q3_col2_step);
    reveal(crate::cpu::q3_col3_step);
    if 0xC0 <= op < 0xD0 {
        if op == 0xCB {
            let pc1 = wrap_add16(c0.registers.pc, 1);
            lemma_cb_step_keeps_timer(
                m0.spec_read(c0.registers.pc as int),
                with_pc(c0, pc1),
                m0,
                c1,
                m1,
                cycles,
            );
        }
    }
}

/// A step of the base table leaves the timer-counter registers alone.
pub proof fn lemma_base_step_keeps_timer(op: u8, c0: Cpu, m0: MemView, c1: Cpu, m1: MemView, cycles: u8)
    requires
        base_step(op, c0, m0, c1, m1, cycles),
    ensures
        m1.tima == m0.tima && m1.tma == m0.tma && m1.tac == m0.tac,
{
    reveal(crate::cpu::base_step);
    if op < 0x40 {
        lemma_q0_step_keeps_timer(op, c0, m0, c1, m1, cycles);
    } else if op < 0x80 {
        lemma_ld_step_keeps_timer(op, c0, m0, c1, m1, cycles);
    } else if op < 0xC0 {
        lemma_alu_step_keeps_timer(op, c0, m0, c1, m1, cycles);
    } else {
        lemma_q3_step_keeps_timer(op, c0, m0, c1, m1, cycles);
    }
}


/// True when a stack cell sits in a band that stores writes and reads
/// them back unchanged: video RAM, working RAM and its echo, object
/// attribute memory, or high RAM.
pub open spec fn stack_writable(a: int) -> bool {
    (0x8000 <= a < 0xA000) || (0xC000 <= a < 0xFF00) || (0xFF80 <= a < 0xFFFF)
}

/// Stack round-trip law: pushing a 16-bit word at a stack pointer whose
/// two cells lie in RAM-backed bands and popping it back returns the
/// word unchanged, and the stack pointer arithmetic restores the
/// pointer to its pre-push value.
#[verifier::rlimit(100)]
pub proof fn lemma_push_pop_round_trip(m: MemView, sp: u16, v: u16)
    requires
        m.wf(),
        stack_writable(wrap_sub16(sp, 1) as int),
        stack_writable(wrap_sub16(sp, 2) as int),
    ensures
        pushed(m, sp, v).spec_read(wrap_sub16(sp, 2) as int) == low_byte(v),
        pushed(m, sp, v).spec_read(wrap_sub16(sp, 1) as int) == high_byte(v),
        word_of_bytes(
            pushed(m, sp, v).spec_read(wrap_add16(wrap_sub16(sp, 2), 1) as int),
            pushed(m, sp, v).spec_read(wrap_sub16(sp, 2) as int),
        ) == v,
        wrap_add16(wrap_sub16(sp, 2), 2) == sp,
{
    reveal(crate::memory::MemView::spec_write);
    reveal(crate::memory::MemView::spec_read);
    assert(wrap_add16(wrap_sub16(sp, 2), 1) == wrap_sub16(sp, 1));
}

/// The condition a conditional relative jump tests: not-zero, zero,
/// not-carry or carry.
pub open spec fn jr_condition(op: u8, f: FRegister) -> bool {
    if op == 0x20 {
        !f.zero
    } else if op == 0x28 {
        f.zero
    } else if op == 0x30 {
        !f.carry
    } else {
        f.carry
    }
}

/// Branch-timing law for the conditional relative jumps: a step whose
/// condition fails costs strictly fewer cycles than a step of the same
/// opcode whose condition holds, leaves memory alone, and advances the
/// program counter exactly past the displacement byte.
pub proof fn lemma_conditional_jump_timing(
    op: u8,
    ct0: Cpu,
    mt0: MemView,
    ct1: Cpu,
    mt1: MemView,
    cyt: u8,
    cn0: Cpu,
    mn0: MemView,
    cn1: Cpu,
    mn1: MemView,
    cyn: u8,
)
    requires
        op == 0x20 || op == 0x28 || op == 0x30 || op == 0x38,
        q0_step(op, ct0, mt0, ct1, mt1, cyt),
        q0_step(op, cn0, mn0, cn1, mn1, cyn),
        jr_condition(op, ct0.registers.f),
        !jr_condition(op, cn0.registers.f),
    ensures
        cyn < cyt,
        cyt == 12 && cyn == 8,
        mn1 == mn0,
        cn1 == with_pc(cn0, wrap_add16(cn0.registers.pc, 1)),
{
    reveal(crate::cpu::q0_step);
    reveal(crate::cpu::q0_col2_step);
    reveal(crate::cpu::q0_col3_step);
}

/// Interrupt-enable delay law: the enable-interrupts opcode only sets
/// the pending flag — the master enable itself is unchanged by the
/// instruction, so a dispatch check made before the pending change is
/// applied still sees it off and services nothing.
pub proof fn lemma_interrupt_enable_delay(c0: Cpu, m0: MemView, c1: Cpu, m1: MemView, cycles: u8)
    requires
        base_step(0xFB, c0, m0, c1, m1, cycles),
    ensures
        c1.ime == c0.ime,
        c1.ime_next,
        c1.registers == c0.registers,
        m1 == m0,
{
    reveal(crate::cpu::base_step);
    reveal(crate::cpu::q3_step);
    reveal(crate::cpu::q3_col3_step);
}

} // verus!
