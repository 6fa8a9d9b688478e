use chip8_emu::state::{Chip8, RomError};

/// Write one big-endian opcode at `addr`.
fn put_op(c: &mut Chip8, addr: usize, op: u16) {
    c.memory[addr] = (op >> 8) as u8;
    c.memory[addr + 1] = (op & 0xFF) as u8;
}

#[test]
fn fresh_state_layout() {
    let c = Chip8::new();
    assert_eq!(c.pc, 0x200);
    assert_eq!(c.i, 0);
    assert_eq!(c.sp, 0);
    assert_eq!(c.memory.len(), 4096);
    assert_eq!(c.memory[0], 0xF0);
    assert_eq!(c.memory[79], 0x80);
    assert_eq!(c.memory[80], 0);
    assert_eq!(c.memory[0x200], 0);
    assert!(c.v.iter().all(|&b| b == 0));
    assert!(c.display.iter().all(|&p| p == 0));
    assert!(c.keypad.iter().all(|&k| k == 0));
    assert_eq!(c.stack.len(), 16);
    assert_eq!(c.display.len(), 64 * 32);
}

#[test]
fn load_rom_places_bytes() {
    let mut c = Chip8::new();
    let rom = vec![0x60, 0x05, 0x70, 0x03];
    let r = c.chip8_load_rom(&rom);
    assert!(r.is_ok());
    assert_eq!(c.memory[0x200], 0x60);
    assert_eq!(c.memory[0x203], 0x03);
    assert_eq!(c.memory[0x204], 0);
    assert_eq!(c.pc, 0x200);
}

#[test]
fn load_rom_too_large_changes_nothing() {
    let mut c = Chip8::new();
    let rom = vec![0xAB; 3585];
    let r = c.chip8_load_rom(&rom);
    assert!(matches!(r, Err(RomError::RomTooLarge)));
    assert_eq!(c.memory[0x200], 0);
    assert_eq!(c.pc, 0x200);
}

#[test]
fn load_rom_largest_size_fits() {
    let mut c = Chip8::new();
    let rom = vec![0xCD; 3584];
    assert!(c.chip8_load_rom(&rom).is_ok());
    assert_eq!(c.memory[0x200], 0xCD);
    assert_eq!(c.memory[4095], 0xCD);
}

#[test]
fn add_imm_wraps_and_keeps_vf() {
    let mut c = Chip8::new();
    c.v[0] = 0xFF;
    c.v[15] = 0x55;
    put_op(&mut c, 0x200, 0x7003);
    c.chip8_emulate_cycle();
    assert_eq!(c.v[0], 0x02);
    assert_eq!(c.v[15], 0x55);
    assert_eq!(c.pc, 0x202);
}

#[test]
fn add_reg_sets_carry() {
    let mut c = Chip8::new();
    c.v[1] = 0xFF;
    c.v[2] = 0x01;
    put_op(&mut c, 0x200, 0x8124);
    c.chip8_emulate_cycle();
    assert_eq!(c.v[1], 0x00);
    assert_eq!(c.v[15], 1);
}

#[test]
fn add_reg_clears_carry() {
    let mut c = Chip8::new();
    c.v[1] = 0x01;
    c.v[2] = 0x01;
    c.v[15] = 1;
    put_op(&mut c, 0x200, 0x8124);
    c.chip8_emulate_cycle();
    assert_eq!(c.v[1], 0x02);
    assert_eq!(c.v[15], 0);
}

#[test]
fn sub_reg_no_borrow() {
    let mut c = Chip8::new();
    c.v[1] = 0x05;
    c.v[2] = 0x03;
    put_op(&mut c, 0x200, 0x8125);
    c.chip8_emulate_cycle();
    assert_eq!(c.v[1], 0x02);
    assert_eq!(c.v[15], 1);
}

#[test]
fn sub_reg_with_borrow() {
    let mut c = Chip8::new();
    c.v[1] = 0x03;
    c.v[2] = 0x05;
    put_op(&mut c, 0x200, 0x8125);
    c.chip8_emulate_cycle();
    assert_eq!(c.v[1], 0xFE);
    assert_eq!(c.v[15], 0);
}

#[test]
fn shr_reports_low_bit() {
    let mut c = Chip8::new();
    c.v[3] = 0x03;
    put_op(&mut c, 0x200, 0x8366);
    c.chip8_emulate_cycle();
    assert_eq!(c.v[3], 0x01);
    assert_eq!(c.v[15], 1);
}

#[test]
fn shl_reports_high_bit() {
    let mut c = Chip8::new();
    c.v[3] = 0x81;
    put_op(&mut c, 0x200, 0x836E);
    c.chip8_emulate_cycle();
    assert_eq!(c.v[3], 0x02);
    assert_eq!(c.v[15], 1);
}

#[test]
fn subn_reverses_operands() {
    let mut c = Chip8::new();
    c.v[1] = 0x03;
    c.v[2] = 0x05;
    put_op(&mut c, 0x200, 0x8127);
    c.chip8_emulate_cycle();
    assert_eq!(c.v[1], 0x02);
    assert_eq!(c.v[15], 1);
}

#[test]
fn draw_twice_restores_display() {
    let mut c = Chip8::new();
    // The fontset glyph for 0 sits at address 0; draw it at (0, 0).
    c.i = 0;
    put_op(&mut c, 0x200, 0xD015);
    put_op(&mut c, 0x202, 0xD015);
    c.chip8_emulate_cycle();
    assert!(c.display.iter().any(|&p| p == 1));
    assert_eq!(c.v[15], 0);
    c.chip8_emulate_cycle();
    assert!(c.display.iter().all(|&p| p == 0));
    assert_eq!(c.v[15], 1);
}

#[test]
fn draw_wraps_columns() {
    let mut c = Chip8::new();
    c.v[0] = 60;
    c.v[1] = 30;
    c.i = 0x300;
    c.memory[0x300] = 0xFF;
    c.memory[0x301] = 0xFF;
    put_op(&mut c, 0x200, 0xD012);
    c.chip8_emulate_cycle();
    for row in [30usize, 31] {
        for col in 60..64usize {
            assert_eq!(c.display[row * 64 + col], 1);
        }
        for col in 0..4usize {
            assert_eq!(c.display[row * 64 + col], 1);
        }
        for col in 4..60usize {
            assert_eq!(c.display[row * 64 + col], 0);
        }
    }
    assert_eq!(c.v[15], 0);
}

#[test]
fn draw_wraps_rows() {
    let mut c = Chip8::new();
    c.v[0] = 60;
    c.v[1] = 31;
    c.i = 0x300;
    c.memory[0x300] = 0xFF;
    c.memory[0x301] = 0xFF;
    put_op(&mut c, 0x200, 0xD012);
    c.chip8_emulate_cycle();
    for row in [31usize, 0] {
        for col in [60usize, 63, 0, 3] {
            assert_eq!(c.display[row * 64 + col], 1);
        }
    }
    assert_eq!(c.display[1 * 64 + 0], 0);
}

#[test]
fn draw_detects_collision() {
    let mut c = Chip8::new();
    c.i = 0;
    put_op(&mut c, 0x200, 0xD011);
    put_op(&mut c, 0x202, 0xD011);
    c.chip8_emulate_cycle();
    assert_eq!(c.v[15], 0);
    c.chip8_emulate_cycle();
    assert_eq!(c.v[15], 1);
}

#[test]
fn bcd_splits_digits() {
    let mut c = Chip8::new();
    c.v[5] = 234;
    c.i = 0x400;
    put_op(&mut c, 0x200, 0xF533);
    c.chip8_emulate_cycle();
    assert_eq!(c.memory[0x400], 2);
    assert_eq!(c.memory[0x401], 3);
    assert_eq!(c.memory[0x402], 4);
    assert_eq!(c.pc, 0x202);
}

#[test]
fn store_load_round_trip() {
    let mut c = Chip8::new();
    c.v[0] = 10;
    c.v[1] = 20;
    c.v[2] = 30;
    c.v[3] = 40;
    c.i = 0x500;
    put_op(&mut c, 0x200, 0xF355);
    c.chip8_emulate_cycle();
    assert_eq!(c.memory[0x500], 10);
    assert_eq!(c.memory[0x503], 40);
    for k in 0..4 {
        c.v[k] = 0;
    }
    put_op(&mut c, 0x202, 0xF365);
    c.chip8_emulate_cycle();
    assert_eq!(c.v[0], 10);
    assert_eq!(c.v[1], 20);
    assert_eq!(c.v[2], 30);
    assert_eq!(c.v[3], 40);
}

#[test]
fn two_cycle_program() {
    let mut c = Chip8::new();
    let rom = vec![0x60, 0x05, 0x70, 0x03];
    assert!(c.chip8_load_rom(&rom).is_ok());
    c.chip8_emulate_cycle();
    c.chip8_emulate_cycle();
    assert_eq!(c.v[0], 8);
    assert_eq!(c.pc, 0x204);
}

#[test]
fn jump_sets_pc_exactly() {
    let mut c = Chip8::new();
    put_op(&mut c, 0x200, 0x1300);
    c.chip8_emulate_cycle();
    assert_eq!(c.pc, 0x300);
}

#[test]
fn jump_v0_adds_offset() {
    let mut c = Chip8::new();
    c.v[0] = 0x10;
    put_op(&mut c, 0x200, 0xB300);
    c.chip8_emulate_cycle();
    assert_eq!(c.pc, 0x310);
}

#[test]
fn unknown_opcode_is_two_byte_noop() {
    let mut c = Chip8::new();
    c.v[0] = 7;
    c.i = 0x123;
    put_op(&mut c, 0x200, 0x800F);
    c.chip8_emulate_cycle();
    assert_eq!(c.pc, 0x202);
    assert_eq!(c.v[0], 7);
    assert_eq!(c.i, 0x123);
    put_op(&mut c, 0x202, 0xE055);
    c.chip8_emulate_cycle();
    assert_eq!(c.pc, 0x204);
    assert_eq!(c.v[0], 7);
}

#[test]
fn call_and_ret() {
    let mut c = Chip8::new();
    put_op(&mut c, 0x200, 0x2300);
    put_op(&mut c, 0x300, 0x00EE);
    c.chip8_emulate_cycle();
    assert_eq!(c.pc, 0x300);
    assert_eq!(c.sp, 1);
    assert_eq!(c.stack[0], 0x200);
    c.chip8_emulate_cycle();
    assert_eq!(c.sp, 0);
    assert_eq!(c.pc, 0x202);
}

#[test]
fn ret_with_empty_stack_is_noop() {
    let mut c = Chip8::new();
    put_op(&mut c, 0x200, 0x00EE);
    c.chip8_emulate_cycle();
    assert_eq!(c.pc, 0x202);
    assert_eq!(c.sp, 0);
}

#[test]
fn clear_display() {
    let mut c = Chip8::new();
    c.display[100] = 1;
    put_op(&mut c, 0x200, 0x00E0);
    c.chip8_emulate_cycle();
    assert!(c.display.iter().all(|&p| p == 0));
    assert_eq!(c.pc, 0x202);
}

#[test]
fn skip_equal_immediate() {
    let mut c = Chip8::new();
    c.v[4] = 0x2A;
    put_op(&mut c, 0x200, 0x342A);
    c.chip8_emulate_cycle();
    assert_eq!(c.pc, 0x204);
    let mut d = Chip8::new();
    d.v[4] = 0x2B;
    put_op(&mut d, 0x200, 0x342A);
    d.chip8_emulate_cycle();
    assert_eq!(d.pc, 0x202);
}

#[test]
fn skip_register_compares() {
    let mut c = Chip8::new();
    c.v[1] = 9;
    c.v[2] = 9;
    put_op(&mut c, 0x200, 0x5120);
    c.chip8_emulate_cycle();
    assert_eq!(c.pc, 0x204);
    put_op(&mut c, 0x204, 0x9120);
    c.chip8_emulate_cycle();
    assert_eq!(c.pc, 0x206);
}

#[test]
fn load_i_and_add_i() {
    let mut c = Chip8::new();
    put_op(&mut c, 0x200, 0xA123);
    c.chip8_emulate_cycle();
    assert_eq!(c.i, 0x123);
    c.v[6] = 0x10;
    put_op(&mut c, 0x202, 0xF61E);
    c.chip8_emulate_cycle();
    assert_eq!(c.i, 0x133);
}

#[test]
fn font_address_is_five_per_glyph() {
    let mut c = Chip8::new();
    c.v[2] = 0xA;
    put_op(&mut c, 0x200, 0xF229);
    c.chip8_emulate_cycle();
    assert_eq!(c.i, 50);
}

#[test]
fn timers_load_and_read() {
    let mut c = Chip8::new();
    c.v[1] = 42;
    put_op(&mut c, 0x200, 0xF115);
    c.chip8_emulate_cycle();
    assert_eq!(c.delay_timer, 42);
    put_op(&mut c, 0x202, 0xF118);
    c.chip8_emulate_cycle();
    assert_eq!(c.sound_timer, 42);
    put_op(&mut c, 0x204, 0xF207);
    c.chip8_emulate_cycle();
    assert_eq!(c.v[2], 42);
}

#[test]
fn tick_timers_counts_down_to_zero() {
    let mut c = Chip8::new();
    c.delay_timer = 2;
    c.sound_timer = 0;
    c.tick_timers();
    assert_eq!(c.delay_timer, 1);
    assert_eq!(c.sound_timer, 0);
    c.tick_timers();
    c.tick_timers();
    assert_eq!(c.delay_timer, 0);
}

#[test]
fn random_byte_is_masked() {
    let mut c = Chip8::new();
    c.v[0] = 0xAA;
    put_op(&mut c, 0x200, 0xC00F);
    c.chip8_emulate_cycle();
    assert_eq!(c.v[0] & 0xF0, 0);
    assert_eq!(c.pc, 0x202);
}

#[test]
fn wait_for_key_stalls_until_pressed() {
    let mut c = Chip8::new();
    put_op(&mut c, 0x200, 0xF30A);
    c.chip8_emulate_cycle();
    assert_eq!(c.pc, 0x200);
    c.set_key(7, true);
    c.chip8_emulate_cycle();
    assert_eq!(c.v[3], 7);
    assert_eq!(c.pc, 0x202);
}

#[test]
fn key_skip_instructions() {
    let mut c = Chip8::new();
    c.v[0] = 5;
    c.set_key(5, true);
    put_op(&mut c, 0x200, 0xE09E);
    c.chip8_emulate_cycle();
    assert_eq!(c.pc, 0x204);
    put_op(&mut c, 0x204, 0xE0A1);
    c.chip8_emulate_cycle();
    assert_eq!(c.pc, 0x206);
    c.set_key(5, false);
    put_op(&mut c, 0x206, 0xE0A1);
    c.chip8_emulate_cycle();
    assert_eq!(c.pc, 0x20A);
}

#[test]
fn register_copy_and_bitwise() {
    let mut c = Chip8::new();
    c.v[1] = 0b1100;
    c.v[2] = 0b1010;
    put_op(&mut c, 0x200, 0x8120);
    c.chip8_emulate_cycle();
    assert_eq!(c.v[1], 0b1010);
    c.v[1] = 0b1100;
    put_op(&mut c, 0x202, 0x8121);
    c.chip8_emulate_cycle();
    assert_eq!(c.v[1], 0b1110);
    c.v[1] = 0b1100;
    put_op(&mut c, 0x204, 0x8122);
    c.chip8_emulate_cycle();
    assert_eq!(c.v[1], 0b1000);
    c.v[1] = 0b1100;
    put_op(&mut c, 0x206, 0x8123);
    c.chip8_emulate_cycle();
    assert_eq!(c.v[1], 0b0110);
}

#[test]
fn load_empty_rom_changes_nothing() {
    let mut c = Chip8::new();
    let rom: Vec<u8> = Vec::new();
    assert!(c.chip8_load_rom(&rom).is_ok());
    assert_eq!(c.memory[0x200], 0);
    assert_eq!(c.pc, 0x200);
}

#[test]
fn random_with_zero_mask_is_zero() {
    let mut c = Chip8::new();
    c.v[9] = 0xFF;
    put_op(&mut c, 0x200, 0xC900);
    c.chip8_emulate_cycle();
    assert_eq!(c.v[9], 0);
    assert_eq!(c.pc, 0x202);
}
