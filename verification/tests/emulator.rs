use chip8_cpu::model::EmuError;
use chip8_cpu::Emulator;

/// A machine with `rom` loaded at the start address.
fn boot(rom: &[u8]) -> Emulator {
    let mut emu = Emulator::new();
    emu.load_rom(rom).unwrap();
    emu
}

#[test]
fn construction_state() {
    let emu = Emulator::new();
    assert_eq!(emu.pc, 0x200);
    assert_eq!(emu.i, 0);
    assert_eq!(emu.dt, 0);
    assert_eq!(emu.st, 0);
    assert_eq!(emu.ram.len(), 4096);
    assert_eq!(emu.ram[0], 0xF0);
    assert_eq!(emu.ram[79], 0x80);
    assert_eq!(emu.ram[80], 0);
    assert_eq!(emu.ram[4095], 0);
    assert_eq!(emu.v, vec![0u8; 16]);
    assert_eq!(emu.keys, vec![false; 16]);
    assert_eq!(emu.screen, vec![false; 64 * 32]);
}

#[test]
fn load_rom_places_image() {
    let emu = boot(&[0xAB, 0xCD, 0xEF]);
    assert_eq!(emu.ram[0x200], 0xAB);
    assert_eq!(emu.ram[0x201], 0xCD);
    assert_eq!(emu.ram[0x202], 0xEF);
    assert_eq!(emu.ram[0x203], 0);
}

#[test]
fn load_rom_rejects_oversized() {
    let mut emu = Emulator::new();
    let too_big = vec![0u8; 4096 - 0x200 + 1];
    assert_eq!(emu.load_rom(&too_big), Err(EmuError::RomTooLarge));
    let just_fits = vec![7u8; 4096 - 0x200];
    assert_eq!(emu.load_rom(&just_fits), Ok(()));
    assert_eq!(emu.ram[4095], 7);
}

#[test]
fn set_register_scenario() {
    // 6xkk with x = 0xA, kk = 5.
    let mut emu = boot(&[0x6A, 0x05]);
    emu.tick().unwrap();
    assert_eq!(emu.v[0xA], 5);
    assert_eq!(emu.pc, 0x202);
}

#[test]
fn clear_screen_scenario() {
    let mut emu = boot(&[0x00, 0xE0]);
    emu.screen[0] = true;
    let fb = emu.tick().unwrap();
    assert!(fb.iter().all(|cell| !cell));
    assert_eq!(fb.len(), 2048);
}

#[test]
fn call_pushes_return_address() {
    // 2nnn with nnn = 0x204.
    let mut emu = boot(&[0x22, 0x04]);
    emu.tick().unwrap();
    assert_eq!(emu.pc, 0x204);
    assert_eq!(emu.stack.pop(), Ok(0x202));
    assert_eq!(emu.stack.pop(), Err(EmuError::StackUnderflow));
}

#[test]
fn call_return_restores_pc() {
    // Call 0x204; there, return.
    let mut emu = boot(&[0x22, 0x04, 0x00, 0x00, 0x00, 0xEE]);
    emu.tick().unwrap();
    assert_eq!(emu.pc, 0x204);
    emu.tick().unwrap();
    assert_eq!(emu.pc, 0x202);
}

#[test]
fn sixteen_calls_succeed_seventeenth_overflows() {
    // The instruction at the start address calls itself.
    let mut emu = boot(&[0x22, 0x00]);
    for _ in 0..16 {
        assert!(emu.tick().is_ok());
        assert_eq!(emu.pc, 0x200);
    }
    assert_eq!(emu.tick(), Err(EmuError::StackOverflow));
    // The fault leaves the machine as it was.
    assert_eq!(emu.pc, 0x200);
}

#[test]
fn return_on_empty_stack_underflows() {
    let mut emu = boot(&[0x00, 0xEE]);
    assert_eq!(emu.tick(), Err(EmuError::StackUnderflow));
    assert_eq!(emu.pc, 0x200);
}

#[test]
fn invalid_opcode_reported_with_word() {
    let mut emu = boot(&[0xFF, 0xFF]);
    assert_eq!(emu.tick(), Err(EmuError::InvalidOpcode(0xFFFF)));
    let mut emu = boot(&[0x50, 0x11]);
    assert_eq!(emu.tick(), Err(EmuError::InvalidOpcode(0x5011)));
}

#[test]
fn fetch_out_of_bounds() {
    let mut emu = Emulator::new();
    emu.pc = 4095;
    assert_eq!(emu.tick(), Err(EmuError::OutOfBounds));
    assert_eq!(emu.pc, 4095);
}

#[test]
fn jump_sets_pc() {
    let mut emu = boot(&[0x13, 0x45]);
    emu.tick().unwrap();
    assert_eq!(emu.pc, 0x345);
}

#[test]
fn jump_plus_v0() {
    let mut emu = boot(&[0x60, 0x04, 0xB2, 0x10]);
    emu.tick().unwrap();
    emu.tick().unwrap();
    assert_eq!(emu.pc, 0x214);
}

#[test]
fn skips_equal_and_unequal() {
    // V0 = 7; skip if V0 == 7 lands on 0x6105; V1 stays 0 only if skipped.
    let mut emu = boot(&[0x60, 0x07, 0x30, 0x07, 0x61, 0x05]);
    emu.tick().unwrap();
    emu.tick().unwrap();
    assert_eq!(emu.pc, 0x206);
    assert_eq!(emu.v[1], 0);

    // Skip if V0 != 7 does not skip here.
    let mut emu = boot(&[0x60, 0x07, 0x40, 0x07]);
    emu.tick().unwrap();
    emu.tick().unwrap();
    assert_eq!(emu.pc, 0x204);
}

#[test]
fn skips_register_pairs() {
    // V0 == V1 (both 9): 5xy0 skips.
    let mut emu = boot(&[0x60, 0x09, 0x61, 0x09, 0x50, 0x10, 0x00, 0x00, 0x9A, 0xB0]);
    emu.tick().unwrap();
    emu.tick().unwrap();
    emu.tick().unwrap();
    assert_eq!(emu.pc, 0x208);
    // VA == VB (both 0): 9xy0 does not skip.
    emu.tick().unwrap();
    assert_eq!(emu.pc, 0x20A);
}

#[test]
fn add_immediate_wraps_without_flag() {
    let mut emu = boot(&[0x60, 0xFA, 0x70, 0x0A]);
    emu.v[0xF] = 9;
    emu.tick().unwrap();
    emu.tick().unwrap();
    assert_eq!(emu.v[0], 4);
    assert_eq!(emu.v[0xF], 9);
}

#[test]
fn register_moves_and_bitwise() {
    let mut emu = boot(&[
        0x60, 0xCC, 0x61, 0xAA, 0x82, 0x00, // V2 = V0
        0x83, 0x01, // V3 = V3 | V0
        0x84, 0x12, // V4 = V4 & V1
        0x85, 0x03, // V5 = V5 ^ V0
    ]);
    emu.v[3] = 0x0F;
    emu.v[4] = 0xFF;
    emu.v[5] = 0xF0;
    for _ in 0..6 {
        emu.tick().unwrap();
    }
    assert_eq!(emu.v[2], 0xCC);
    assert_eq!(emu.v[3], 0x0F | 0xCC);
    assert_eq!(emu.v[4], 0xAA);
    assert_eq!(emu.v[5], 0xF0 ^ 0xCC);
}

#[test]
fn add_with_carry_sets_flag() {
    // 200 + 100 = 300: result 44, carry 1.
    let mut emu = boot(&[0x60, 0xC8, 0x61, 0x64, 0x80, 0x14]);
    emu.tick().unwrap();
    emu.tick().unwrap();
    emu.tick().unwrap();
    assert_eq!(emu.v[0], 44);
    assert_eq!(emu.v[0xF], 1);

    // 3 + 4 = 7: no carry.
    let mut emu = boot(&[0x60, 0x03, 0x61, 0x04, 0x80, 0x14]);
    emu.v[0xF] = 1;
    emu.tick().unwrap();
    emu.tick().unwrap();
    emu.tick().unwrap();
    assert_eq!(emu.v[0], 7);
    assert_eq!(emu.v[0xF], 0);
}

#[test]
fn subtract_sets_no_borrow_flag() {
    // 10 - 5: flag 1 (no borrow).
    let mut emu = boot(&[0x60, 0x0A, 0x61, 0x05, 0x80, 0x15]);
    emu.tick().unwrap();
    emu.tick().unwrap();
    emu.tick().unwrap();
    assert_eq!(emu.v[0], 5);
    assert_eq!(emu.v[0xF], 1);

    // 5 - 10 wraps to 251: flag 0.
    let mut emu = boot(&[0x60, 0x05, 0x61, 0x0A, 0x80, 0x15]);
    emu.tick().unwrap();
    emu.tick().unwrap();
    emu.tick().unwrap();
    assert_eq!(emu.v[0], 251);
    assert_eq!(emu.v[0xF], 0);
}

#[test]
fn subtract_reversed() {
    // V0 = V1 - V0 with V1 = 9, V0 = 2: result 7, flag 1 (V1 > V0).
    let mut emu = boot(&[0x60, 0x02, 0x61, 0x09, 0x80, 0x17]);
    emu.tick().unwrap();
    emu.tick().unwrap();
    emu.tick().unwrap();
    assert_eq!(emu.v[0], 7);
    assert_eq!(emu.v[0xF], 1);
}

#[test]
fn shift_right_flag_is_pre_shift_lsb() {
    let mut emu = boot(&[0x60, 0x07, 0x80, 0x06]);
    emu.tick().unwrap();
    emu.tick().unwrap();
    assert_eq!(emu.v[0], 3);
    assert_eq!(emu.v[0xF], 1);

    let mut emu = boot(&[0x60, 0x06, 0x80, 0x06]);
    emu.v[0xF] = 1;
    emu.tick().unwrap();
    emu.tick().unwrap();
    assert_eq!(emu.v[0], 3);
    assert_eq!(emu.v[0xF], 0);
}

#[test]
fn shift_left_flag_is_pre_shift_msb() {
    let mut emu = boot(&[0x60, 0x81, 0x80, 0x0E]);
    emu.tick().unwrap();
    emu.tick().unwrap();
    assert_eq!(emu.v[0], 2);
    assert_eq!(emu.v[0xF], 1);

    let mut emu = boot(&[0x60, 0x41, 0x80, 0x0E]);
    emu.v[0xF] = 1;
    emu.tick().unwrap();
    emu.tick().unwrap();
    assert_eq!(emu.v[0], 0x82);
    assert_eq!(emu.v[0xF], 0);
}

#[test]
fn index_register_ops() {
    let mut emu = boot(&[0xA1, 0x23]);
    emu.tick().unwrap();
    assert_eq!(emu.i, 0x123);

    // Fx1E wraps at 16 bits.
    let mut emu = boot(&[0x60, 0x02, 0xF0, 0x1E]);
    emu.i = 0xFFFF;
    emu.tick().unwrap();
    emu.tick().unwrap();
    assert_eq!(emu.i, 1);
}

#[test]
fn font_glyph_address() {
    let mut emu = boot(&[0x65, 0x0A, 0xF5, 0x29]);
    emu.tick().unwrap();
    emu.tick().unwrap();
    assert_eq!(emu.i, 50);
    // The glyph for 0xA starts with row 0xF0.
    assert_eq!(emu.ram[50], 0xF0);
}

#[test]
fn random_byte_is_masked() {
    let mut emu = boot(&[0xC0, 0x0F]);
    emu.tick().unwrap();
    assert_eq!(emu.v[0] & 0xF0, 0);
}

#[test]
fn bcd_digits() {
    let mut emu = boot(&[0x60, 0x7B, 0xA3, 0x00, 0xF0, 0x33]);
    emu.tick().unwrap();
    emu.tick().unwrap();
    emu.tick().unwrap();
    assert_eq!(emu.ram[0x300], 1);
    assert_eq!(emu.ram[0x301], 2);
    assert_eq!(emu.ram[0x302], 3);
}

#[test]
fn bcd_out_of_bounds() {
    let mut emu = boot(&[0xF0, 0x33]);
    emu.i = 4094;
    assert_eq!(emu.tick(), Err(EmuError::OutOfBounds));
}

#[test]
fn store_load_round_trip() {
    // Store V0..V2 at 0x300, clobber registers and memory outside the
    // range, load back: V0..V2 restored.
    let mut emu = boot(&[
        0x60, 0x11, 0x61, 0x22, 0x62, 0x33, 0xA3, 0x00, 0xF2, 0x55, 0x60, 0x00, 0x61, 0x00, 0x62,
        0x00, 0xF2, 0x65,
    ]);
    for _ in 0..5 {
        emu.tick().unwrap();
    }
    assert_eq!(&emu.ram[0x300..0x303], &[0x11, 0x22, 0x33]);
    emu.ram[0x2FF] = 0xEE;
    emu.ram[0x303] = 0xEE;
    for _ in 0..4 {
        emu.tick().unwrap();
    }
    assert_eq!(emu.v[0], 0x11);
    assert_eq!(emu.v[1], 0x22);
    assert_eq!(emu.v[2], 0x33);
}

#[test]
fn store_out_of_bounds() {
    let mut emu = boot(&[0xF1, 0x55]);
    emu.i = 4095;
    assert_eq!(emu.tick(), Err(EmuError::OutOfBounds));
    let mut emu = boot(&[0xF1, 0x65]);
    emu.i = 4095;
    assert_eq!(emu.tick(), Err(EmuError::OutOfBounds));
}

#[test]
fn key_skips() {
    // Skip if key in V0 (5) pressed.
    let mut emu = boot(&[0xE0, 0x9E]);
    emu.v[0] = 5;
    emu.key_down(5);
    emu.tick().unwrap();
    assert_eq!(emu.pc, 0x204);

    let mut emu = boot(&[0xE0, 0x9E]);
    emu.v[0] = 5;
    emu.tick().unwrap();
    assert_eq!(emu.pc, 0x202);

    // Skip if key in V0 not pressed.
    let mut emu = boot(&[0xE0, 0xA1]);
    emu.v[0] = 5;
    emu.tick().unwrap();
    assert_eq!(emu.pc, 0x204);
}

#[test]
fn key_skip_rejects_bad_key_number() {
    let mut emu = boot(&[0xE0, 0x9E]);
    emu.v[0] = 16;
    assert_eq!(emu.tick(), Err(EmuError::OutOfBounds));
}

#[test]
fn key_state_setters() {
    let mut emu = Emulator::new();
    emu.input(3, true);
    assert!(emu.keys[3]);
    emu.key_up(3);
    assert!(!emu.keys[3]);
    emu.key_down(15);
    assert!(emu.keys[15]);
}

#[test]
fn wait_for_key_polls() {
    let mut emu = boot(&[0xF4, 0x0A]);
    // No key pressed: the instruction re-executes next call.
    emu.tick().unwrap();
    assert_eq!(emu.pc, 0x200);
    emu.tick().unwrap();
    assert_eq!(emu.pc, 0x200);
    // Two keys pressed at once: the highest index wins.
    emu.key_down(3);
    emu.key_down(7);
    emu.tick().unwrap();
    assert_eq!(emu.pc, 0x202);
    assert_eq!(emu.v[4], 7);
}

#[test]
fn timer_reads_and_writes() {
    let mut emu = boot(&[0x60, 0x09, 0xF0, 0x15, 0xF1, 0x07, 0xF0, 0x18]);
    emu.tick().unwrap();
    emu.tick().unwrap();
    assert_eq!(emu.dt, 9);
    emu.tick().unwrap();
    assert_eq!(emu.v[1], 9);
    emu.tick().unwrap();
    assert_eq!(emu.st, 9);
}

#[test]
fn timers_idle_at_zero() {
    let mut emu = Emulator::new();
    assert!(!emu.tick_timers());
    assert_eq!(emu.dt, 0);
    assert_eq!(emu.st, 0);
}

#[test]
fn timers_count_down() {
    let mut emu = Emulator::new();
    emu.dt = 2;
    assert!(!emu.tick_timers());
    assert_eq!(emu.dt, 1);
    assert!(!emu.tick_timers());
    assert_eq!(emu.dt, 0);
}

#[test]
fn beep_exactly_once() {
    let mut emu = Emulator::new();
    emu.st = 1;
    assert!(emu.tick_timers());
    assert_eq!(emu.dt, 0);
    assert_eq!(emu.st, 0);
    assert!(!emu.tick_timers());
    assert!(!emu.tick_timers());
}

#[test]
fn beep_only_on_the_final_tick() {
    let mut emu = Emulator::new();
    emu.st = 3;
    assert!(!emu.tick_timers());
    assert!(!emu.tick_timers());
    assert!(emu.tick_timers());
    assert!(!emu.tick_timers());
}

#[test]
fn draw_glyph_and_collision() {
    // I at glyph 0 (address 0), draw 5 rows at (V0, V1) = (0, 0).
    let mut emu = boot(&[0xD0, 0x15]);
    emu.tick().unwrap();
    // Top row of glyph 0 is 0xF0: pixels 0..4 lit, 4..8 unlit.
    for px in 0..4 {
        assert!(emu.screen[px]);
    }
    for px in 4..8 {
        assert!(!emu.screen[px]);
    }
    assert_eq!(emu.v[0xF], 0);

    // Drawing the same sprite again erases it and reports the collision.
    emu.pc = 0x200;
    emu.tick().unwrap();
    assert!(emu.screen.iter().all(|cell| !cell));
    assert_eq!(emu.v[0xF], 1);
}

#[test]
fn draw_wraps_at_edges() {
    // Draw glyph 0 at (62, 31): wraps to columns 62, 63, 0, 1 on row 31
    // and rows 0..4 below.
    let mut emu = boot(&[0xD0, 0x15]);
    emu.v[0] = 62;
    emu.v[1] = 31;
    emu.tick().unwrap();
    // Top glyph row 0xF0 lands on row 31, columns 62, 63, 0, 1.
    assert!(emu.screen[31 * 64 + 62]);
    assert!(emu.screen[31 * 64 + 63]);
    assert!(emu.screen[31 * 64 + 0]);
    assert!(emu.screen[31 * 64 + 1]);
    assert!(!emu.screen[31 * 64 + 61]);
    // The second glyph row 0x90 wraps to row 0, columns 62 and 1.
    assert!(emu.screen[0 * 64 + 62]);
    assert!(emu.screen[0 * 64 + 1]);
    assert!(!emu.screen[0 * 64 + 63]);
}

#[test]
fn draw_out_of_bounds() {
    let mut emu = boot(&[0xD0, 0x15]);
    emu.i = 4092;
    assert_eq!(emu.tick(), Err(EmuError::OutOfBounds));
}

#[test]
fn tick_returns_framebuffer_snapshot() {
    let mut emu = boot(&[0x60, 0x01]);
    emu.screen[100] = true;
    let fb = emu.tick().unwrap();
    assert_eq!(fb.len(), 2048);
    assert!(fb[100]);
    assert!(!fb[99]);
}
