use chip8::{Chip8, Chip8Error, DecodeFault, Instruction, KeyState, Quirks, decode};

fn machine(program: &[u8]) -> Chip8 {
    let mut m = Chip8::new();
    m.load_cartridge(program);
    m
}

fn run(m: &mut Chip8, steps: usize) {
    for _ in 0..steps {
        m.step().unwrap();
    }
}

fn no_keys() -> [Option<KeyState>; 16] {
    [None; 16]
}

#[test]
fn operand_extraction_uses_second_and_third_nibbles() {
    assert_eq!(decode(0x8AB4), Ok(Instruction::AddReg { x: 0xA, y: 0xB }));
    let mut m = machine(&[0x6A, 0x10, 0x6B, 0x22, 0x8A, 0xB4]);
    run(&mut m, 3);
    assert_eq!(m.register(0xA), 0x32);
    assert_eq!(m.register(0xB), 0x22);
    assert_eq!(m.register(0xF), 0);
}

#[test]
fn add_with_carry_sets_flag() {
    let mut m = machine(&[0x61, 0xFF, 0x62, 0x01, 0x81, 0x24]);
    run(&mut m, 3);
    assert_eq!(m.register(1), 0x00);
    assert_eq!(m.register(0xF), 1);
}

#[test]
fn add_without_carry_clears_flag() {
    let mut m = machine(&[0x6F, 0x07, 0x61, 0x01, 0x62, 0x01, 0x81, 0x24]);
    run(&mut m, 4);
    assert_eq!(m.register(1), 0x02);
    assert_eq!(m.register(0xF), 0);
}

#[test]
fn sub_with_borrow_clears_flag() {
    let mut m = machine(&[0x6F, 0x07, 0x61, 0x01, 0x62, 0x02, 0x81, 0x25]);
    run(&mut m, 4);
    assert_eq!(m.register(1), 0xFF);
    assert_eq!(m.register(0xF), 0);
}

#[test]
fn sub_without_borrow_sets_flag() {
    let mut m = machine(&[0x61, 0x05, 0x62, 0x02, 0x81, 0x25]);
    run(&mut m, 3);
    assert_eq!(m.register(1), 0x03);
    assert_eq!(m.register(0xF), 1);
}

#[test]
fn reverse_subtraction() {
    // V1 = V2 - V1 = 2 - 5, with a borrow
    let mut m = machine(&[0x61, 0x05, 0x62, 0x02, 0x81, 0x27]);
    run(&mut m, 3);
    assert_eq!(m.register(1), 0xFD);
    assert_eq!(m.register(0xF), 0);
}

#[test]
fn shift_right_moves_low_bit_to_flag() {
    let mut m = machine(&[0x62, 0x81, 0x81, 0x26]);
    run(&mut m, 2);
    assert_eq!(m.register(1), 0x40);
    assert_eq!(m.register(2), 0x81);
    assert_eq!(m.register(0xF), 1);
}

#[test]
fn shift_left_moves_high_bit_to_flag() {
    let mut m = machine(&[0x62, 0x81, 0x81, 0x2E]);
    run(&mut m, 2);
    assert_eq!(m.register(1), 0x02);
    assert_eq!(m.register(0xF), 1);
}

#[test]
fn bitwise_operations() {
    let mut m = machine(&[
        0x61, 0x0C, 0x62, 0x0A, 0x83, 0x10, 0x83, 0x21, 0x84, 0x10, 0x84, 0x22, 0x85, 0x10,
        0x85, 0x23,
    ]);
    run(&mut m, 8);
    assert_eq!(m.register(3), 0x0E);
    assert_eq!(m.register(4), 0x08);
    assert_eq!(m.register(5), 0x06);
}

#[test]
fn add_immediate_wraps_without_flag() {
    let mut m = machine(&[0x61, 0xF0, 0x71, 0x20]);
    run(&mut m, 2);
    assert_eq!(m.register(1), 0x10);
    assert_eq!(m.register(0xF), 0);
}

#[test]
fn drawing_twice_collides_and_clears() {
    // sprite byte 0x80 at 0x300: one set pixel
    let mut program = vec![0u8; 0x101];
    program[..12].copy_from_slice(&[0x00, 0xE0, 0xA3, 0x00, 0x61, 0x05, 0x62, 0x03, 0xD1, 0x21, 0xD1, 0x21]);
    program[0x100] = 0x80;
    let mut m = machine(&program);
    run(&mut m, 5);
    assert!(m.pixel(5, 3));
    assert_eq!(m.register(0xF), 0);
    run(&mut m, 1);
    assert!(!m.pixel(5, 3));
    assert_eq!(m.register(0xF), 1);
}

#[test]
fn drawing_clips_at_the_right_edge() {
    let mut program = vec![0u8; 0x101];
    program[..8].copy_from_slice(&[0xA3, 0x00, 0x61, 60, 0x62, 0x00, 0xD1, 0x21]);
    program[0x100] = 0xFF;
    let mut m = machine(&program);
    run(&mut m, 4);
    for x in 60..64 {
        assert!(m.pixel(x, 0));
    }
    for x in 0..4 {
        assert!(!m.pixel(x, 0));
        assert!(!m.pixel(x, 1));
    }
    let lit = m.display_snapshot().iter().filter(|p| **p).count();
    assert_eq!(lit, 4);
}

#[test]
fn drawing_clips_at_the_bottom_edge() {
    let mut program = vec![0u8; 0x104];
    program[..8].copy_from_slice(&[0xA3, 0x00, 0x61, 0, 0x62, 30, 0xD1, 0x24]);
    program[0x100..0x104].copy_from_slice(&[0x80, 0x80, 0x80, 0x80]);
    let mut m = machine(&program);
    run(&mut m, 4);
    assert!(m.pixel(0, 30));
    assert!(m.pixel(0, 31));
    assert!(!m.pixel(0, 0));
    assert!(!m.pixel(0, 1));
}

#[test]
fn drawing_wraps_the_start_coordinates() {
    // x = 69 is drawn at 5, y = 35 at 3
    let mut program = vec![0u8; 0x101];
    program[..8].copy_from_slice(&[0xA3, 0x00, 0x61, 69, 0x62, 35, 0xD1, 0x21]);
    program[0x100] = 0x80;
    let mut m = machine(&program);
    run(&mut m, 4);
    assert!(m.pixel(5, 3));
}

#[test]
fn font_digit_sprite_draws() {
    // draw digit 1 at (0, 0)
    let mut m = machine(&[0x61, 0x01, 0xF1, 0x29, 0x62, 0x00, 0xD2, 0x25]);
    run(&mut m, 4);
    assert_eq!(m.index_register(), 5);
    // first row of "1" is 0x20: one pixel at column 2
    assert!(m.pixel(2, 0));
    assert!(!m.pixel(0, 0));
    assert!(m.pixel(1, 1));
}

#[test]
fn reset_state() {
    let m = Chip8::new();
    assert_eq!(m.program_counter(), 0x200);
    assert_eq!(m.index_register(), 0);
    assert_eq!(m.memory_byte(0), 0xF0);
    assert_eq!(m.memory_byte(79), 0x80);
    assert_eq!(m.memory_byte(80), 0);
    assert_eq!(m.memory_byte(0x200), 0);
    assert!(!m.sound_active());
    assert!(!m.is_waiting_for_key());
    assert!(m.display_snapshot().iter().all(|p| !*p));
    assert_eq!(m.display_snapshot().len(), 2048);
}

#[test]
fn load_cartridge_copies_to_program_origin() {
    let m = machine(&[0x12, 0x34, 0x56]);
    assert_eq!(m.memory_byte(0x200), 0x12);
    assert_eq!(m.memory_byte(0x201), 0x34);
    assert_eq!(m.memory_byte(0x202), 0x56);
    assert_eq!(m.memory_byte(0x203), 0);
}

#[test]
fn key_wait_round_trip() {
    let mut m = machine(&[0xF3, 0x0A, 0x64, 0x01]);
    run(&mut m, 1);
    assert!(m.is_waiting_for_key());
    assert_eq!(m.program_counter(), 0x202);
    run(&mut m, 3);
    assert_eq!(m.program_counter(), 0x202);
    assert_eq!(m.register(3), 0);
    let mut keys = no_keys();
    keys[7] = Some(KeyState::Pressed);
    m.set_keys(keys);
    assert!(!m.is_waiting_for_key());
    assert_eq!(m.register(3), 7);
    run(&mut m, 1);
    assert_eq!(m.register(4), 1);
    assert_eq!(m.register(3), 7);
    assert_eq!(m.program_counter(), 0x204);
}

#[test]
fn key_wait_takes_highest_pressed_key() {
    let mut m = machine(&[0xF3, 0x0A]);
    run(&mut m, 1);
    let mut keys = no_keys();
    keys[2] = Some(KeyState::Pressed);
    keys[9] = Some(KeyState::Pressed);
    keys[12] = Some(KeyState::Released);
    m.set_keys(keys);
    assert_eq!(m.register(3), 9);
}

#[test]
fn key_wait_ignores_releases() {
    let mut m = machine(&[0xF3, 0x0A]);
    run(&mut m, 1);
    let mut keys = no_keys();
    keys[5] = Some(KeyState::Released);
    m.set_keys(keys);
    assert!(m.is_waiting_for_key());
}

#[test]
fn timers_freeze_while_waiting_for_key() {
    let mut m = machine(&[0x61, 0x05, 0xF1, 0x15, 0xF3, 0x0A]);
    run(&mut m, 3);
    assert_eq!(m.delay_timer(), 4);
    run(&mut m, 5);
    assert_eq!(m.delay_timer(), 4);
}

#[test]
fn key_skips_follow_held_keys() {
    // V1 = 4; skip if key 4 held; skip if key 4 not held
    let mut m = machine(&[0x61, 0x04, 0xE1, 0x9E, 0x00, 0x00, 0xE1, 0xA1]);
    let mut keys = no_keys();
    keys[4] = Some(KeyState::Pressed);
    m.set_keys(keys);
    run(&mut m, 2);
    assert_eq!(m.program_counter(), 0x206);
    run(&mut m, 1);
    assert_eq!(m.program_counter(), 0x208);
    let mut keys = no_keys();
    keys[4] = Some(KeyState::Released);
    m.set_keys(keys);
    let mut m2 = machine(&[0x61, 0x04, 0xE1, 0xA1]);
    run(&mut m2, 2);
    assert_eq!(m2.program_counter(), 0x206);
}

#[test]
fn immediate_and_register_skips() {
    let mut m = machine(&[0x61, 0x07, 0x31, 0x07, 0x00, 0x00, 0x41, 0x07, 0x51, 0x00]);
    run(&mut m, 2);
    assert_eq!(m.program_counter(), 0x206);
    run(&mut m, 1);
    assert_eq!(m.program_counter(), 0x208);
    run(&mut m, 1);
    assert_eq!(m.program_counter(), 0x20A);
    let mut m2 = machine(&[0x61, 0x07, 0x91, 0x20]);
    run(&mut m2, 2);
    assert_eq!(m2.program_counter(), 0x206);
}

#[test]
fn call_then_return_resumes_after_call() {
    let mut program = vec![0u8; 0x102];
    program[..2].copy_from_slice(&[0x23, 0x00]);
    program[0x100..0x102].copy_from_slice(&[0x00, 0xEE]);
    let mut m = machine(&program);
    run(&mut m, 1);
    assert_eq!(m.program_counter(), 0x300);
    run(&mut m, 1);
    assert_eq!(m.program_counter(), 0x202);
}

#[test]
fn jumps() {
    let mut m = machine(&[0x60, 0x04, 0xB3, 0x00]);
    run(&mut m, 2);
    assert_eq!(m.program_counter(), 0x304);
    let mut m2 = machine(&[0x14, 0x56]);
    run(&mut m2, 1);
    assert_eq!(m2.program_counter(), 0x456);
}

#[test]
fn call_beyond_stack_depth_fails() {
    let mut m = machine(&[0x22, 0x00]);
    run(&mut m, 16);
    assert_eq!(m.step(), Err(Chip8Error::StackOverflow { pc: 0x200 }));
}

#[test]
fn return_with_empty_stack_fails() {
    let mut m = machine(&[0x00, 0xEE]);
    assert_eq!(m.step(), Err(Chip8Error::StackUnderflow { pc: 0x200 }));
    assert_eq!(m.program_counter(), 0x200);
}

#[test]
fn undefined_opcode_leaves_state_unchanged() {
    let mut m = machine(&[0x61, 0x09, 0xF1, 0x15, 0x8A, 0xB8]);
    run(&mut m, 2);
    let before_delay = m.delay_timer();
    let before_snapshot = m.display_snapshot();
    assert_eq!(
        m.step(),
        Err(Chip8Error::InvalidOpcode { fault: DecodeFault::Unknown, opcode: 0x8AB8, pc: 0x204 })
    );
    assert_eq!(m.program_counter(), 0x204);
    assert_eq!(m.delay_timer(), before_delay);
    assert_eq!(m.register(0xA), 0);
    assert_eq!(m.register(1), 9);
    assert_eq!(m.display_snapshot(), before_snapshot);
}

#[test]
fn decode_faults() {
    assert_eq!(decode(0x5121), Err(DecodeFault::Malformed));
    assert_eq!(decode(0x9121), Err(DecodeFault::Malformed));
    assert_eq!(decode(0x0123), Err(DecodeFault::NativeCall));
    assert_eq!(decode(0xE1FF), Err(DecodeFault::Unknown));
    assert_eq!(decode(0xF1FF), Err(DecodeFault::Unknown));
    assert_eq!(decode(0x00E0), Ok(Instruction::ClearScreen));
    assert_eq!(decode(0x00EE), Ok(Instruction::Return));
    assert_eq!(decode(0xD123), Ok(Instruction::Draw { x: 1, y: 2, n: 3 }));
    assert_eq!(decode(0xF265), Ok(Instruction::RestoreRegisters { x: 2 }));
}

#[test]
fn malformed_skip_is_reported() {
    let mut m = machine(&[0x51, 0x21]);
    assert_eq!(
        m.step(),
        Err(Chip8Error::InvalidOpcode { fault: DecodeFault::Malformed, opcode: 0x5121, pc: 0x200 })
    );
}

#[test]
fn native_call_is_reported() {
    let mut m = machine(&[0x01, 0x23]);
    assert_eq!(
        m.step(),
        Err(Chip8Error::InvalidOpcode { fault: DecodeFault::NativeCall, opcode: 0x0123, pc: 0x200 })
    );
}

#[test]
fn memory_access_past_the_end_fails() {
    let mut m = machine(&[0xAF, 0xFF, 0xD0, 0x02]);
    run(&mut m, 1);
    assert_eq!(m.step(), Err(Chip8Error::MemoryOutOfRange { pc: 0x202, index: 0xFFF }));
    let mut m2 = machine(&[0xAF, 0xFE, 0xF0, 0x33]);
    run(&mut m2, 1);
    assert_eq!(m2.step(), Err(Chip8Error::MemoryOutOfRange { pc: 0x202, index: 0xFFE }));
    let mut m3 = machine(&[0xAF, 0xFE, 0xF2, 0x55]);
    run(&mut m3, 1);
    assert_eq!(m3.step(), Err(Chip8Error::MemoryOutOfRange { pc: 0x202, index: 0xFFE }));
}

#[test]
fn program_counter_past_memory_fails() {
    let mut m = machine(&[0x1F, 0xFF]);
    run(&mut m, 1);
    assert_eq!(m.step(), Err(Chip8Error::ProgramCounterOutOfRange { pc: 0xFFF }));
}

#[test]
fn bcd_stores_decimal_digits() {
    let mut m = machine(&[0x61, 234, 0xA3, 0x00, 0xF1, 0x33]);
    run(&mut m, 3);
    assert_eq!(m.memory_byte(0x300), 2);
    assert_eq!(m.memory_byte(0x301), 3);
    assert_eq!(m.memory_byte(0x302), 4);
    assert_eq!(m.index_register(), 0x300);
}

#[test]
fn bulk_store_and_restore_registers() {
    let mut m = machine(&[
        0x60, 0x11, 0x61, 0x22, 0x62, 0x33, 0xA3, 0x00, 0xF1, 0x55, 0x60, 0x00, 0x61, 0x00,
        0x62, 0x00, 0xF1, 0x65,
    ]);
    run(&mut m, 9);
    assert_eq!(m.memory_byte(0x300), 0x11);
    assert_eq!(m.memory_byte(0x301), 0x22);
    assert_eq!(m.memory_byte(0x302), 0);
    assert_eq!(m.register(0), 0x11);
    assert_eq!(m.register(1), 0x22);
    assert_eq!(m.register(2), 0);
    assert_eq!(m.index_register(), 0x300);
}

#[test]
fn index_addition_wraps_at_sixteen_bits() {
    let mut m = machine(&[0xAF, 0xF0, 0x61, 0x20, 0xF1, 0x1E]);
    run(&mut m, 3);
    assert_eq!(m.index_register(), 0x1010);
    let mut m2 = machine(&[0xAF, 0xF0, 0x61, 0x20, 0xF1, 0x1E, 0xF1, 0x1E]);
    run(&mut m2, 4);
    assert_eq!(m2.index_register(), 0x1030);
}

#[test]
fn timers_count_down_and_stop_at_zero() {
    let mut m = machine(&[0x61, 0x02, 0xF1, 0x15, 0xF1, 0x18, 0xF2, 0x07, 0x00, 0xE0, 0x00, 0xE0]);
    run(&mut m, 3);
    assert_eq!(m.delay_timer(), 1);
    assert_eq!(m.sound_timer(), 2);
    assert!(m.sound_active());
    run(&mut m, 1);
    assert_eq!(m.register(2), 0);
    assert_eq!(m.sound_timer(), 1);
    run(&mut m, 2);
    assert_eq!(m.delay_timer(), 0);
    assert_eq!(m.sound_timer(), 0);
    assert!(!m.sound_active());
}

#[test]
fn random_is_masked() {
    let mut m = machine(&[0xC1, 0x0F, 0xC2, 0x00]);
    m.step_with_random(0xAB).unwrap();
    assert_eq!(m.register(1), 0x0B);
    m.step().unwrap();
    assert_eq!(m.register(2), 0);
}

#[test]
fn clear_screen_blanks_display() {
    let mut m = machine(&[0x62, 0x00, 0xD2, 0x25, 0x00, 0xE0]);
    run(&mut m, 2);
    assert!(m.display_snapshot().iter().any(|p| *p));
    run(&mut m, 1);
    assert!(m.display_snapshot().iter().all(|p| !*p));
}

fn quirky(program: &[u8], quirks: Quirks) -> Chip8 {
    let mut m = Chip8::with_quirks(quirks);
    m.load_cartridge(program);
    m
}

#[test]
fn standard_quirks_are_the_default() {
    let q = Chip8::new().quirks();
    assert_eq!(q, Quirks::standard());
    assert!(!q.borrow_sets_flag);
    assert!(!q.shift_in_place);
    assert!(!q.bulk_transfer_advances_index);
}

#[test]
fn borrow_quirk_inverts_the_sub_flag() {
    let q = Quirks { borrow_sets_flag: true, ..Quirks::standard() };
    let mut m = quirky(&[0x61, 0x01, 0x62, 0x02, 0x81, 0x25], q);
    run(&mut m, 3);
    assert_eq!(m.register(1), 0xFF);
    assert_eq!(m.register(0xF), 1);
    let mut m2 = quirky(&[0x61, 0x05, 0x62, 0x02, 0x81, 0x25], q);
    run(&mut m2, 3);
    assert_eq!(m2.register(1), 0x03);
    assert_eq!(m2.register(0xF), 0);
}

#[test]
fn shift_quirk_shifts_vx_in_place() {
    let q = Quirks { shift_in_place: true, ..Quirks::standard() };
    let mut m = quirky(&[0x61, 0x06, 0x62, 0x81, 0x81, 0x26], q);
    run(&mut m, 3);
    assert_eq!(m.register(1), 0x03);
    assert_eq!(m.register(0xF), 0);
}

#[test]
fn index_quirk_advances_past_bulk_transfers() {
    let q = Quirks { bulk_transfer_advances_index: true, ..Quirks::standard() };
    let mut m = quirky(&[0xA3, 0x00, 0xF2, 0x55, 0xF1, 0x65], q);
    run(&mut m, 2);
    assert_eq!(m.index_register(), 0x303);
    run(&mut m, 1);
    assert_eq!(m.index_register(), 0x305);
}

#[test]
fn reset_keeps_quirks_and_clears_state() {
    let q = Quirks { shift_in_place: true, ..Quirks::standard() };
    let mut m = quirky(&[0x61, 0x06, 0xF1, 0x15], q);
    run(&mut m, 2);
    m.reset();
    assert_eq!(m.quirks(), q);
    assert_eq!(m.program_counter(), 0x200);
    assert_eq!(m.register(1), 0);
    assert_eq!(m.delay_timer(), 0);
    assert_eq!(m.memory_byte(0x200), 0);
    assert_eq!(m.memory_byte(0), 0xF0);
}
