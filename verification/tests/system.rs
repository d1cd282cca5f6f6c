use gameboy::gameboy::{CartridgeError, Gameboy};
use gameboy::gpu::Gpu;
use gameboy::mbc::Mbc;
use gameboy::memory::Memory;
use gameboy::timer::Timer;

fn image(len: usize, kind: u8) -> Vec<u8> {
    let mut buffer = vec![0u8; len];
    buffer[0x147] = kind;
    buffer
}

#[test]
fn cartridge_type_one_selects_banked_controller() {
    let mut gb = Gameboy::new();
    let mut img = image(0x20000, 0x01);
    img[0x4000] = 0x42; // first byte of bank 1
    gb.load_cartridge(img).unwrap();
    match &gb.mem_map.rom {
        Mbc::Banked(m) => {
            assert_eq!(m.rom_bank_low, 1);
            assert!(!m.ram_enable);
        },
        _ => panic!("wrong controller"),
    }
    // Writing zero to the low-bank-select window is coerced to bank 1:
    // the switchable window still reads bank 1, never bank 0.
    gb.mem_map.write_u8(0x00, 0x2000);
    match &gb.mem_map.rom {
        Mbc::Banked(m) => assert_eq!(m.rom_bank_low, 1),
        _ => panic!("wrong controller"),
    }
    assert_eq!(gb.mem_map.read_u8(0x4000), 0x42);
}

#[test]
fn cartridge_load_errors() {
    let mut gb = Gameboy::new();
    assert_eq!(gb.load_cartridge(vec![0u8; 0x100]), Err(CartridgeError::TruncatedImage));
    assert_eq!(gb.load_cartridge(image(0x8001, 0x00)), Err(CartridgeError::OversizedImage));
    assert_eq!(gb.load_cartridge(image(0x20001, 0x01)), Err(CartridgeError::OversizedImage));
    assert_eq!(gb.load_cartridge(image(0x8000, 0x05)), Err(CartridgeError::UnsupportedType(0x05)));
}

#[test]
fn ram_enable_needs_low_nibble_a() {
    let mut gb = Gameboy::new();
    gb.load_cartridge(image(0x20000, 0x01)).unwrap();
    // Low nibble 0xF is not 0xA: the latch stays off.
    gb.mem_map.write_u8(0xFF, 0x0000);
    match &gb.mem_map.rom {
        Mbc::Banked(m) => assert!(!m.ram_enable),
        _ => panic!("wrong controller"),
    }
    // RAM-window traffic while disabled must not crash.
    gb.mem_map.write_u8(0x5A, 0xA000);
    let _ = gb.mem_map.read_u8(0xA000);
    // The documented enable value turns the latch on.
    gb.mem_map.write_u8(0x0A, 0x0000);
    match &gb.mem_map.rom {
        Mbc::Banked(m) => assert!(m.ram_enable),
        _ => panic!("wrong controller"),
    }
}

#[test]
fn banked_ram_stores_and_reads_back() {
    let mut gb = Gameboy::new();
    gb.load_cartridge(image(0x20000, 0x01)).unwrap();
    gb.mem_map.write_u8(0x0A, 0x0000);
    gb.mem_map.write_u8(0x77, 0xA123);
    assert_eq!(gb.mem_map.read_u8(0xA123), 0x77);
}

#[test]
fn nop_rom_runs_one_frame() {
    // A no-banking image of zero bytes is a stream of no-ops: a frame's
    // worth of cycles at sixty frames a second must complete without a
    // fatal fault and carry the program counter past the entry point.
    let mut gb = Gameboy::new();
    gb.load_cartridge(image(0x8000, 0x00)).unwrap();
    gb.power_up();
    assert_eq!(gb.cpu.registers.pc, 0x100);
    let spent = gb.cycle(4_194_304 / 60).unwrap();
    assert!(spent >= 4_194_304 / 60);
    assert!(gb.cpu.registers.pc > 0x100);
}

#[test]
fn interrupt_enable_is_delayed_one_instruction() {
    let mut gb = Gameboy::new();
    gb.load_cartridge(image(0x8000, 0x00)).unwrap();
    gb.power_up();
    gb.cpu.ime = false;
    // Make a vertical-blank interrupt pending and enabled.
    gb.mem_map.ei.vblank = true;
    gb.mem_map.iflag.vblank = true;
    // Execute the enable-interrupts opcode.
    gb.mem_map.write_u8(0xFB, 0xC000);
    gb.cpu.registers.pc = 0xC000;
    gb.cpu.cycle(&mut gb.mem_map).unwrap();
    assert!(!gb.cpu.ime);
    assert!(gb.cpu.ime_next);
    // A check made before one full instruction has passed sees the
    // master enable still off and services nothing.
    gb.mem_map.iflag.vblank = true;
    assert_eq!(gb.check_interrupts(), 0);
    assert_ne!(gb.cpu.registers.pc, 0x40);
}

#[test]
fn interrupt_dispatch_by_priority() {
    let mut gb = Gameboy::new();
    gb.cpu.ime = true;
    gb.cpu.registers.sp = 0xFFFE;
    gb.cpu.registers.pc = 0x1234;
    gb.mem_map.ei.vblank = true;
    gb.mem_map.ei.timer_overflow = true;
    gb.mem_map.iflag.vblank = true;
    gb.mem_map.iflag.timer_overflow = true;
    let cycles = gb.check_interrupts();
    assert_eq!(cycles, 20);
    // Vertical blank outranks timer overflow.
    assert_eq!(gb.cpu.registers.pc, 0x40);
    assert!(!gb.cpu.ime);
    // The return address was pushed.
    assert_eq!(gb.cpu.registers.sp, 0xFFFC);
    assert_eq!(gb.mem_map.read_u8(0xFFFD), 0x12);
    assert_eq!(gb.mem_map.read_u8(0xFFFC), 0x34);
    // Every pending request was cleared by the check.
    assert!(!gb.mem_map.iflag.timer_overflow);
    assert!(!gb.mem_map.iflag.vblank);
}

#[test]
fn master_disable_clears_requests_and_costs_nothing() {
    let mut gb = Gameboy::new();
    gb.cpu.ime = false;
    gb.mem_map.ei.vblank = true;
    gb.mem_map.iflag.vblank = true;
    let pc = gb.cpu.registers.pc;
    assert_eq!(gb.check_interrupts(), 0);
    assert_eq!(gb.cpu.registers.pc, pc);
    assert!(!gb.mem_map.iflag.vblank);
}

#[test]
fn divider_accumulates_with_residue() {
    let mut timer = Timer::new();
    let mut mem = Memory::new();
    timer.increment_div(&mut mem, 200);
    assert_eq!(mem.div, 0);
    assert_eq!(timer.internal_divider, 200);
    timer.increment_div(&mut mem, 100);
    assert_eq!(mem.div, 1);
    // The residue carries forward rather than resetting.
    assert_eq!(timer.internal_divider, 44);
}

#[test]
fn timer_counter_reloads_and_reports_overflow() {
    let mut timer = Timer::new();
    let mut mem = Memory::new();
    mem.tac = 0b101; // enabled, sixteen cycles per tick
    mem.tma = 0x23;
    mem.tima = 0xFF;
    assert!(!timer.increment_tima(&mut mem, 8));
    assert_eq!(mem.tima, 0xFF);
    assert!(timer.increment_tima(&mut mem, 32));
    assert_eq!(mem.tima, 0x23);
    // Disabled: nothing moves.
    mem.tac = 0;
    assert!(!timer.increment_tima(&mut mem, 4096));
    assert_eq!(mem.tima, 0x23);
}

#[test]
fn timer_overflow_raises_interrupt_request() {
    let mut gb = Gameboy::new();
    gb.mem_map.tac = 0b101;
    gb.mem_map.tima = 0xFF;
    gb.timer_cycle(16);
    assert!(gb.mem_map.iflag.timer_overflow);
}

#[test]
fn unknown_io_register_is_tolerated() {
    let mut mem = Memory::new();
    // An unimplemented sound register reads as a stub and ignores
    // writes instead of aborting the session.
    mem.write_u8(0x5A, 0xFF26);
    assert_eq!(mem.read_u8(0xFF26), 0);
    assert_eq!(mem.read_u8(0xFF47), 0xFC);
}

#[test]
fn io_registers_round_trip() {
    let mut mem = Memory::new();
    mem.write_u8(0x42, 0xFF42);
    assert_eq!(mem.read_u8(0xFF42), 0x42);
    mem.write_u8(0x13, 0xFF43);
    assert_eq!(mem.read_u8(0xFF43), 0x13);
    mem.write_u8(0x1F, 0xFFFF);
    assert_eq!(mem.read_u8(0xFFFF), 0x1F);
    mem.write_u8(0x91, 0xFF40);
    assert_eq!(mem.read_u8(0xFF40), 0x91);
}

#[test]
fn echo_ram_mirrors_working_ram() {
    let mut mem = Memory::new();
    mem.write_u8(0x99, 0xC123);
    assert_eq!(mem.read_u8(0xE123), 0x99);
    mem.write_u8(0x77, 0xE200);
    assert_eq!(mem.read_u8(0xC200), 0x77);
}

#[test]
fn boot_overlay_redirects_low_reads_until_disabled() {
    let mut gb = Gameboy::new();
    let mut img = image(0x8000, 0x00);
    img[0x50] = 0xAB;
    gb.load_cartridge(img).unwrap();
    // While the latch is clear, low reads come from the boot image.
    assert_eq!(gb.mem_map.read_u8(0x50), 0x00);
    gb.mem_map.write_u8(1, 0xFF50);
    assert_eq!(gb.mem_map.read_u8(0x50), 0xAB);
}

#[test]
fn gpu_enters_object_scan_and_vblank() {
    let mut gpu = Gpu::new();
    let mut mem = Memory::new();
    mem.stat.mode_flag = 0;
    mem.ly = 0;
    let entered = gpu.cycle(&mut mem, 10);
    assert!(entered);
    assert_eq!(mem.stat.mode_flag, 2);

    let mut gpu2 = Gpu::new();
    mem.ly = 150;
    mem.stat.mode_flag = 0;
    let entered2 = gpu2.cycle(&mut mem, 10);
    assert!(!entered2);
    assert_eq!(mem.stat.mode_flag, 1);
    assert!(mem.iflag.vblank);
    assert!(gpu2.vblank);
}

#[test]
fn screen_buffer_has_screen_size() {
    let gb = Gameboy::new();
    let screen = gb.get_screen_buffer();
    assert_eq!(screen.len(), 160 * 144);
    // A fresh buffer is uniformly the darkest color.
    assert!(screen.iter().all(|p| *p == 0xFF1B0F0F));
}

#[test]
fn mnemonic_tables_are_populated() {
    let debugger = gameboy::debugger::Debugger::new();
    assert_eq!(debugger.translation_table.get(&0x0).map(|s| s.as_str()), Some("NOP"));
    assert_eq!(
        debugger.translation_table_extended.get(&0x0).map(|s| s.as_str()),
        Some("RLC B"),
    );
}

#[test]
fn background_line_draws_tile_colors() {
    let mut gpu = Gpu::new();
    let mut mem = Memory::new();
    // Tile 0, line 0: low byte all ones, high byte zero — every pixel
    // of the row gets two-bit color 1. The tile map holds zeroes, so
    // tile 0 covers the whole background.
    mem.write_u8(0xFF, 0x8000);
    mem.ly = 0;
    mem.stat.mode_flag = 0;
    let entered = gpu.cycle(&mut mem, 10);
    assert!(entered);
    let screen = gpu.get_screen_buffer(&mem);
    assert_eq!(screen[0], 0xFF755A56);
    assert_eq!(screen[159], 0xFF755A56);
    // The next row was not drawn and keeps the initial color.
    assert_eq!(screen[160], 0xFF1B0F0F);
}

#[test]
fn oam_band_stores_bytes() {
    let mut mem = Memory::new();
    mem.write_u8(0x66, 0xFE05);
    assert_eq!(mem.read_u8(0xFE05), 0x66);
    mem.write_u8(0x42, 0xFF80);
    assert_eq!(mem.read_u8(0xFF80), 0x42);
}

#[test]
fn boot_latch_is_one_way() {
    let mut gb = Gameboy::new();
    let mut img = image(0x8000, 0x00);
    img[0x50] = 0xAB;
    gb.load_cartridge(img).unwrap();
    gb.mem_map.write_u8(1, 0xFF50);
    assert_eq!(gb.mem_map.read_u8(0x50), 0xAB);
    // Writing zero back does not resurrect the boot overlay.
    gb.mem_map.write_u8(0, 0xFF50);
    assert_eq!(gb.mem_map.read_u8(0xFF50), 1);
    assert_eq!(gb.mem_map.read_u8(0x50), 0xAB);
}

#[test]
fn scheduler_checks_before_applying_pending_enable() {
    let mut gb = Gameboy::new();
    gb.load_cartridge(image(0x8000, 0x00)).unwrap();
    gb.power_up();
    gb.cpu.ime = false;
    gb.mem_map.ei.timer_overflow = true;
    gb.mem_map.tac = 0b101; // counter enabled
    gb.mem_map.tima = 0x100; // overflows during this iteration's tail
    gb.mem_map.write_u8(0xFB, 0xC000); // the enable-interrupts opcode
    gb.cpu.registers.pc = 0xC000;
    // The iteration that executes the enable opcode: the overflow in
    // its tail raises the request after the enable became pending.
    gb.frame_step().unwrap();
    assert!(gb.mem_map.iflag.timer_overflow);
    assert!(gb.cpu.ime_next);
    assert!(!gb.cpu.ime);
    // The next iteration checks before applying the pending change, so
    // nothing is serviced and one full instruction runs after the
    // enable opcode.
    gb.frame_step().unwrap();
    assert_ne!(gb.cpu.registers.pc, 0x50);
    assert_eq!(gb.cpu.registers.pc, 0xC002);
    assert!(gb.cpu.ime);
}
