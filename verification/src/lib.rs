//! A cycle-counting emulator core for a classic 8-bit handheld console:
//! a Z80-derived CPU, a banked 64KiB memory map, an interrupt controller,
//! a timer unit and a scanline pixel processor, with machine-checked
//! contracts for the instruction and flag semantics.

pub mod bin_utils;
pub mod cpu;
pub mod debugger;
pub mod gameboy;
pub mod gpu;
pub mod mbc;
pub mod memory;
pub mod mbc0;
pub mod mbc1;
pub mod rdb_packet;
pub mod registers;
pub mod timer;
