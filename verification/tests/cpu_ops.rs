use gameboy::cpu::{Cpu, EmuError, Instructions};
use gameboy::memory::Memory;
use gameboy::registers::FRegister;

#[test]
fn dec_hc() {
    let mut a: u8 = 0x40;
    let mut f: FRegister = FRegister {
        zero: true,
        substract: false,
        half_carry: false,
        carry: false,
    };

    Instructions::dec(&mut a, &mut f);
    assert_eq!(a, 0x3F);
    assert!(!f.zero);
    assert!(f.substract);
    assert!(!f.carry);
    assert!(f.half_carry);
}

#[test]
fn dec_no_hc() {
    let mut a: u8 = 0x4;
    let mut f: FRegister = FRegister {
        zero: true,
        substract: false,
        half_carry: false,
        carry: false,
    };

    Instructions::dec(&mut a, &mut f);
    assert_eq!(a, 3);
    assert!(!f.zero);
    assert!(f.substract);
    assert!(!f.carry);
    assert!(!f.half_carry);
}

#[test]
fn dec_of_one_sets_zero() {
    let mut a: u8 = 0x01;
    let mut f = FRegister { zero: false, substract: false, half_carry: true, carry: false };
    Instructions::dec(&mut a, &mut f);
    assert_eq!(a, 0x00);
    assert!(f.zero);
    assert!(f.substract);
    assert!(!f.half_carry);
}

#[test]
fn dec_of_sixteen_sets_half_carry() {
    let mut a: u8 = 0x10;
    let mut f = FRegister { zero: false, substract: false, half_carry: false, carry: false };
    Instructions::dec(&mut a, &mut f);
    assert_eq!(a, 0x0F);
    assert!(!f.zero);
    assert!(f.substract);
    assert!(f.half_carry);
}

#[test]
fn inc_half_carry_and_wrap() {
    let mut a: u8 = 0x0F;
    let mut f = FRegister { zero: false, substract: true, half_carry: false, carry: false };
    Instructions::inc(&mut a, &mut f);
    assert_eq!(a, 0x10);
    assert!(f.half_carry);
    assert!(!f.zero);
    assert!(!f.substract);

    let mut b: u8 = 0xFF;
    Instructions::inc(&mut b, &mut f);
    assert_eq!(b, 0x00);
    assert!(f.zero);
    assert!(f.half_carry);
}

#[test]
fn alu_add_adc_carry_chain() {
    let mut a: u8 = 0xFF;
    let mut f = FRegister { zero: false, substract: false, half_carry: false, carry: false };
    Instructions::add(&mut a, 0x02, &mut f);
    assert_eq!(a, 0x01);
    assert!(f.carry);
    assert!(f.half_carry);
    assert!(!f.zero);

    Instructions::adc(&mut a, 0x01, &mut f);
    assert_eq!(a, 0x03);
    assert!(!f.carry);
}

#[test]
fn alu_sub_cp_borrow() {
    let mut a: u8 = 0x10;
    let mut f = FRegister { zero: false, substract: false, half_carry: false, carry: false };
    Instructions::sub(&mut a, 0x20, &mut f);
    assert_eq!(a, 0xF0);
    assert!(f.carry);
    assert!(f.substract);

    let mut g = FRegister { zero: false, substract: false, half_carry: false, carry: false };
    Instructions::cp(0x42, 0x42, &mut g);
    assert!(g.zero);
    assert!(g.substract);
    assert!(!g.carry);
}

#[test]
fn rotates_and_shifts() {
    let mut v: u8 = 0x80;
    let mut f = FRegister { zero: false, substract: false, half_carry: false, carry: false };
    Instructions::rlc(&mut v, &mut f);
    assert_eq!(v, 0x01);
    assert!(f.carry);

    let mut w: u8 = 0x01;
    Instructions::rr(&mut w, &mut f);
    // The old carry rotates into bit 7.
    assert_eq!(w, 0x80);
    assert!(f.carry);

    let mut x: u8 = 0x81;
    Instructions::sra(&mut x, &mut f);
    assert_eq!(x, 0xC0);
    assert!(f.carry);

    let mut y: u8 = 0x81;
    Instructions::srl(&mut y, &mut f);
    assert_eq!(y, 0x40);
    assert!(f.carry);

    let mut z: u8 = 0xAB;
    Instructions::swap(&mut z, &mut f);
    assert_eq!(z, 0xBA);
    assert!(!f.zero);
}

#[test]
fn bit_set_res() {
    let mut f = FRegister { zero: false, substract: true, half_carry: false, carry: true };
    Instructions::bit(7, 0x7F, &mut f);
    assert!(f.zero);
    assert!(!f.substract);
    assert!(f.half_carry);
    assert!(f.carry);

    let mut v: u8 = 0x00;
    Instructions::set(3, &mut v);
    assert_eq!(v, 0x08);
    Instructions::res(&mut v, 3);
    assert_eq!(v, 0x00);
}

#[test]
fn res_keeps_other_bits() {
    let mut v: u8 = 0xFF;
    Instructions::res(&mut v, 0);
    assert_eq!(v, 0xFE);
}

#[test]
fn jr_n_signed_displacement() {
    let mut pc: u16 = 0x0100;
    Instructions::jr_n(-2, &mut pc);
    assert_eq!(pc, 0x00FE);
    let mut pc2: u16 = 0x0005;
    Instructions::jr_n(-10, &mut pc2);
    assert_eq!(pc2, 0xFFFB);
    let mut pc3: u16 = 0xFFFE;
    Instructions::jr_n(5, &mut pc3);
    assert_eq!(pc3, 0x0003);
}

#[test]
fn add_nn_bit11_and_bit15_carries() {
    let mut h: u8 = 0x0F;
    let mut l: u8 = 0xFF;
    let mut f = FRegister { zero: true, substract: true, half_carry: false, carry: false };
    Instructions::add_nn(&mut h, &mut l, 0x0001, &mut f);
    assert_eq!((h, l), (0x10, 0x00));
    assert!(f.half_carry);
    assert!(!f.carry);
    // The zero flag is untouched by the 16-bit add.
    assert!(f.zero);
    assert!(!f.substract);

    let mut h2: u8 = 0xFF;
    let mut l2: u8 = 0xFF;
    Instructions::add_nn(&mut h2, &mut l2, 0x0001, &mut f);
    assert_eq!((h2, l2), (0x00, 0x00));
    assert!(f.carry);
}

#[test]
fn daa_corrects_bcd_addition() {
    // 0x15 + 0x27 = 0x3C; the decimal adjust turns it into 0x42.
    let mut a: u8 = 0x15;
    let mut f = FRegister { zero: false, substract: false, half_carry: false, carry: false };
    Instructions::add(&mut a, 0x27, &mut f);
    assert_eq!(a, 0x3C);
    let mut cpu = Cpu::new();
    let mut mem = Memory::new();
    cpu.registers.a = a;
    cpu.registers.f = f;
    cpu.registers.pc = 0xC000;
    mem.write_u8(0x27, 0xC000); // the decimal-adjust opcode
    let cycles = cpu.cycle(&mut mem).unwrap();
    assert_eq!(cycles, 4);
    assert_eq!(cpu.registers.a, 0x42);
    assert!(!cpu.registers.f.carry);
}

#[test]
fn push_pop_round_trip_runtime() {
    let mut cpu = Cpu::new();
    let mut mem = Memory::new();
    cpu.registers.sp = 0xFFFE;
    cpu.push_word(&mut mem, 0xBEEF);
    assert_eq!(cpu.registers.sp, 0xFFFC);
    let v = cpu.pop_word(&mut mem);
    assert_eq!(v, 0xBEEF);
    assert_eq!(cpu.registers.sp, 0xFFFE);
}

#[test]
fn conditional_relative_jump_timing() {
    // JR NZ with the zero flag set: not taken, 8 cycles, program
    // counter just past the displacement byte.
    let mut cpu = Cpu::new();
    let mut mem = Memory::new();
    cpu.registers.pc = 0xC000;
    mem.write_u8(0x20, 0xC000);
    mem.write_u8(0x05, 0xC001);
    cpu.registers.f.zero = true;
    let not_taken = cpu.cycle(&mut mem).unwrap();
    assert_eq!(not_taken, 8);
    assert_eq!(cpu.registers.pc, 0xC002);

    // The same opcode with the condition true: taken, strictly more
    // cycles, and the displacement applied.
    let mut cpu2 = Cpu::new();
    cpu2.registers.pc = 0xC000;
    cpu2.registers.f.zero = false;
    let taken = cpu2.cycle(&mut mem).unwrap();
    assert_eq!(taken, 12);
    assert!(not_taken < taken);
    assert_eq!(cpu2.registers.pc, 0xC007);
}

#[test]
fn unimplemented_opcode_faults() {
    let mut cpu = Cpu::new();
    let mut mem = Memory::new();
    cpu.registers.pc = 0xC000;
    mem.write_u8(0xD3, 0xC000);
    let r = cpu.cycle(&mut mem);
    assert_eq!(r, Err(EmuError::UnimplementedOpcode { opcode: 0xD3, pc: 0xC001 }));
}

#[test]
fn extended_table_bit_and_swap() {
    // CB 0x37 swaps the accumulator's nibbles.
    let mut cpu = Cpu::new();
    let mut mem = Memory::new();
    cpu.registers.pc = 0xC000;
    cpu.registers.a = 0x5A;
    mem.write_u8(0xCB, 0xC000);
    mem.write_u8(0x37, 0xC001);
    let cycles = cpu.cycle(&mut mem).unwrap();
    assert_eq!(cycles, 8);
    assert_eq!(cpu.registers.a, 0xA5);

    // CB 0x46 tests bit 0 of the byte at HL.
    let mut cpu2 = Cpu::new();
    cpu2.registers.pc = 0xC000;
    cpu2.registers.h = 0xC1;
    cpu2.registers.l = 0x00;
    mem.write_u8(0xCB, 0xC000);
    mem.write_u8(0x46, 0xC001);
    mem.write_u8(0xFE, 0xC100);
    let cycles2 = cpu2.cycle(&mut mem).unwrap();
    assert_eq!(cycles2, 16);
    assert!(cpu2.registers.f.zero);
    assert!(cpu2.registers.f.half_carry);
}

#[test]
fn halt_sets_low_power_state() {
    let mut cpu = Cpu::new();
    let mut mem = Memory::new();
    cpu.registers.pc = 0xC000;
    mem.write_u8(0x76, 0xC000);
    let cycles = cpu.cycle(&mut mem).unwrap();
    assert_eq!(cycles, 4);
    assert!(mem.halted);
}

#[test]
fn stop_resets_divider() {
    let mut cpu = Cpu::new();
    let mut mem = Memory::new();
    mem.div = 0x55;
    cpu.registers.pc = 0xC000;
    mem.write_u8(0x10, 0xC000);
    let cycles = cpu.cycle(&mut mem).unwrap();
    assert_eq!(cycles, 4);
    assert!(mem.stopped);
    assert_eq!(mem.div, 0);
}

#[test]
fn call_and_ret_pair() {
    let mut cpu = Cpu::new();
    let mut mem = Memory::new();
    cpu.registers.pc = 0xC000;
    cpu.registers.sp = 0xFFFE;
    mem.write_u8(0xCD, 0xC000); // call 0xC100
    mem.write_u8(0x00, 0xC001);
    mem.write_u8(0xC1, 0xC002);
    mem.write_u8(0xC9, 0xC100); // ret
    let call_cycles = cpu.cycle(&mut mem).unwrap();
    assert_eq!(call_cycles, 24);
    assert_eq!(cpu.registers.pc, 0xC100);
    assert_eq!(cpu.registers.sp, 0xFFFC);
    let ret_cycles = cpu.cycle(&mut mem).unwrap();
    assert_eq!(ret_cycles, 16);
    assert_eq!(cpu.registers.pc, 0xC003);
    assert_eq!(cpu.registers.sp, 0xFFFE);
}

#[test]
fn extended_memory_rotate_costs_sixteen() {
    // CB 0x16 rotates the byte at HL left through the carry flag; like
    // every extended memory form it costs sixteen cycles.
    let mut cpu = Cpu::new();
    let mut mem = Memory::new();
    cpu.registers.pc = 0xC000;
    cpu.registers.h = 0xC1;
    cpu.registers.l = 0x00;
    cpu.registers.f.carry = true;
    mem.write_u8(0xCB, 0xC000);
    mem.write_u8(0x16, 0xC001);
    mem.write_u8(0x80, 0xC100);
    let cycles = cpu.cycle(&mut mem).unwrap();
    assert_eq!(cycles, 16);
    assert_eq!(mem.read_u8(0xC100), 0x01);
    assert!(cpu.registers.f.carry);
}
