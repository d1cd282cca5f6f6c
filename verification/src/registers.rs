//! The register file: eight 8-bit general registers, the packed flag
//! register, and the two 16-bit pointers (stack pointer, program counter).

use vstd::prelude::*;

verus! {

/// The four condition flags, packed into bits 7..4 of the F register.
/// Bits 3..0 of the packed byte always read as zero.
#[derive(Copy, Clone, PartialEq, Eq, Structural, Debug)]
pub struct FRegister {
    pub zero: bool,
    pub substract: bool,
    pub half_carry: bool,
    pub carry: bool,
}

/// The byte encoding of the flag register: zero in bit 7, subtract in
/// bit 6, half-carry in bit 5, carry in bit 4, low nibble zero.
pub open spec fn u8_of_flags(f: FRegister) -> u8 {
    ((if f.zero { 0x80int } else { 0 })
        + (if f.substract { 0x40int } else { 0 })
        + (if f.half_carry { 0x20int } else { 0 })
        + (if f.carry { 0x10int } else { 0 })) as u8
}

/// The flags read back from a byte: each flag is its bit in the top nibble.
pub open spec fn flags_of_u8(v: u8) -> FRegister {
    FRegister {
        zero: v & 0x80 != 0,
        substract: v & 0x40 != 0,
        half_carry: v & 0x20 != 0,
        carry: v & 0x10 != 0,
    }
}

impl FRegister {
    /// A flag register with every flag clear.
    pub fn new() -> (r: Self)
        ensures
            r == (FRegister { zero: false, substract: false, half_carry: false, carry: false }),
    {
        FRegister { zero: false, substract: false, half_carry: false, carry: false }
    }

    /// Unpack a byte into the four flags (top nibble only).
    pub fn from_u8(item: u8) -> (r: Self)
        ensures
            r == flags_of_u8(item),
    {
        FRegister {
            zero: item & 0x80 != 0,
            substract: item & 0x40 != 0,
            half_carry: item & 0x20 != 0,
            carry: item & 0x10 != 0,
        }
    }

    /// Pack the four flags into a byte with a zero low nibble.
    pub fn to_u8(self) -> (r: u8)
        ensures
            r == u8_of_flags(self),
    {
        let mut ret: u8 = 0;
        if self.zero {
            ret += 0x80;
        }
        if self.substract {
            ret += 0x40;
        }
        if self.half_carry {
            ret += 0x20;
        }
        if self.carry {
            ret += 0x10;
        }
        ret
    }
}

/// Round trip law: packing the flags and unpacking the byte restores the
/// flags exactly, and unpacking a byte and repacking keeps its top nibble
/// and clears the bottom nibble.
pub proof fn lemma_flags_round_trip(f: FRegister, v: u8)
    ensures
        flags_of_u8(u8_of_flags(f)) == f,
        u8_of_flags(flags_of_u8(v)) == v & 0xF0,
{
    let z: u8 = if f.zero { 0x80 } else { 0 };
    let s: u8 = if f.substract { 0x40 } else { 0 };
    let h: u8 = if f.half_carry { 0x20 } else { 0 };
    let c: u8 = if f.carry { 0x10 } else { 0 };
    assert(((z + s + h + c) as u8 & 0x80 != 0) == (z == 0x80)
        && ((z + s + h + c) as u8 & 0x40 != 0) == (s == 0x40)
        && ((z + s + h + c) as u8 & 0x20 != 0) == (h == 0x20)
        && ((z + s + h + c) as u8 & 0x10 != 0) == (c == 0x10)) by (bit_vector)
        requires
            z == 0x80 || z == 0,
            s == 0x40 || s == 0,
            h == 0x20 || h == 0,
            c == 0x10 || c == 0,
    ;
    let zb: u8 = if v & 0x80 != 0 { 0x80 } else { 0 };
    let sb: u8 = if v & 0x40 != 0 { 0x40 } else { 0 };
    let hb: u8 = if v & 0x20 != 0 { 0x20 } else { 0 };
    let cb: u8 = if v & 0x10 != 0 { 0x10 } else { 0 };
    assert((zb + sb + hb + cb) as u8 == v & 0xF0) by (bit_vector)
        requires
            zb == (if v & 0x80 != 0 { 0x80u8 } else { 0u8 }),
            sb == (if v & 0x40 != 0 { 0x40u8 } else { 0u8 }),
            hb == (if v & 0x20 != 0 { 0x20u8 } else { 0u8 }),
            cb == (if v & 0x10 != 0 { 0x10u8 } else { 0u8 }),
    ;
}

/// The CPU registers: accumulator, six general registers pairable into
/// BC, DE and HL, the flag register, the stack pointer and the program
/// counter.
#[derive(Copy, Clone, PartialEq, Eq, Structural, Debug)]
pub struct Registers {
    pub a: u8,
    pub b: u8,
    pub c: u8,
    pub d: u8,
    pub e: u8,
    pub f: FRegister,
    pub h: u8,
    pub l: u8,
    pub sp: u16,
    pub pc: u16,
}

impl Registers {
    /// A register file with every register zeroed and every flag clear.
    pub fn new() -> (r: Self)
        ensures
            r == (Registers {
                a: 0u8, b: 0u8, c: 0u8, d: 0u8, e: 0u8,
                f: FRegister { zero: false, substract: false, half_carry: false, carry: false },
                h: 0u8, l: 0u8, sp: 0u16, pc: 0u16,
            }),
    {
        Registers {
            a: 0,
            b: 0,
            c: 0,
            d: 0,
            e: 0,
            f: FRegister::new(),
            h: 0,
            l: 0,
            sp: 0,
            pc: 0,
        }
    }
}

} // verus!
