use chip8::{Keyboard, Memory, CHIP8};

#[test]
fn new_machine_is_in_the_initial_state() {
    let chip = CHIP8::new();
    assert_eq!(chip.program_counter, 0);
    assert_eq!(chip.index, 0);
    assert!(chip.variable.iter().all(|v| *v == 0));
    assert_eq!(chip.variable.len(), 16);
    assert!(chip.display.screen.iter().all(|p| !p));
    assert_eq!(chip.timer.delay_timer, 0);
    assert_eq!(chip.timer.sound_timer, 0);
    assert!(chip.keyboard.keys.iter().all(|k| !k));
}

#[test]
fn font_is_preloaded_into_the_reserved_region() {
    let chip = CHIP8::new();
    // Glyph 0 starts at 0x50 with 0xF0; glyph F ends at 0x9F with 0x80.
    assert_eq!(chip.memory.read(0x50), 0xF0);
    assert_eq!(chip.memory.read(0x51), 0x90);
    assert_eq!(chip.memory.read(0x9F), 0x80);
    // Glyph 1 is 0x20 0x60 0x20 0x20 0x70 at 0x55.
    assert_eq!(chip.memory.read(0x55), 0x20);
    assert_eq!(chip.memory.read(0x59), 0x70);
    // Just outside the font the memory is zero.
    assert_eq!(chip.memory.read(0x4F), 0x00);
    assert_eq!(chip.memory.read(0xA0), 0x00);
}

#[test]
fn memory_addressing_wraps_modulo_4096() {
    let mut memory = Memory::new();
    // 0x1234 reduces to 0x234.
    memory.write(0x1234, 0xAB);
    assert_eq!(memory.read(0x0234), 0xAB);
    assert_eq!(memory.read(0x1234), 0xAB);
    memory.write(0x0FFF, 0xCD);
    assert_eq!(memory.read(0x1FFF), 0xCD);
}

#[test]
fn fetch_reads_the_word_and_advances_the_program_counter() {
    let mut chip = CHIP8::new();
    chip.memory.write(0x200, 0x60);
    chip.memory.write(0x201, 0x0A);
    chip.program_counter = 0x200;
    let instruction = chip.fetch();
    assert_eq!(instruction, (0x60, 0x0A));
    assert_eq!(chip.program_counter, 0x202);
}

#[test]
fn fetch_wraps_at_the_end_of_memory() {
    let mut chip = CHIP8::new();
    chip.memory.write(0xFFF, 0x12);
    chip.memory.write(0x000, 0x34);
    chip.program_counter = 0xFFF;
    let instruction = chip.fetch();
    assert_eq!(instruction, (0x12, 0x34));
    assert_eq!(chip.program_counter, 0x001);
}

#[test]
fn fetch_then_execute_set_immediate() {
    // A program at 0x200 holding 0x60 0x0A: after one full cycle,
    // V0 == 0x0A and the program counter sits at 0x202.
    let mut chip = CHIP8::new();
    chip.memory.write(0x200, 0x60);
    chip.memory.write(0x201, 0x0A);
    chip.program_counter = 0x200;
    let instruction = chip.fetch();
    assert!(chip.decode_execute(instruction).is_ok());
    assert_eq!(chip.variable[0], 0x0A);
    assert_eq!(chip.program_counter, 0x202);
}

#[test]
fn jump_sets_the_program_counter_exactly() {
    let mut chip = CHIP8::new();
    assert!(chip.decode_execute((0x1A, 0xBC)).is_ok());
    assert_eq!(chip.program_counter, 0xABC);
    // Nothing else moved.
    assert_eq!(chip.index, 0);
    assert!(chip.variable.iter().all(|v| *v == 0));
    assert!(chip.display.screen.iter().all(|p| !p));
}

#[test]
fn set_then_add_wraps_and_leaves_the_flag_register_alone() {
    let mut chip = CHIP8::new();
    chip.variable[0xF] = 0x77;
    // V1 = 0xFF, then V1 += 0x02: wraps to 0x01 with no flag effect.
    assert!(chip.decode_execute((0x61, 0xFF)).is_ok());
    assert!(chip.decode_execute((0x71, 0x02)).is_ok());
    assert_eq!(chip.variable[1], 0x01);
    assert_eq!(chip.variable[0xF], 0x77);
    // V2 = 0x0A, then V2 += 0x05: plain sum.
    assert!(chip.decode_execute((0x62, 0x0A)).is_ok());
    assert!(chip.decode_execute((0x72, 0x05)).is_ok());
    assert_eq!(chip.variable[2], 0x0F);
    assert_eq!(chip.variable[0xF], 0x77);
}

#[test]
fn set_index_register() {
    let mut chip = CHIP8::new();
    assert!(chip.decode_execute((0xA1, 0x23)).is_ok());
    assert_eq!(chip.index, 0x123);
}

#[test]
fn clear_screen_opcode_clears_the_display() {
    let mut chip = CHIP8::new();
    chip.display.screen[5 * 64 + 5] = true;
    chip.display.screen[20 * 64 + 40] = true;
    assert!(chip.decode_execute((0x00, 0xE0)).is_ok());
    assert_eq!(chip.display.screen.len(), 32 * 64);
    assert!(chip.display.screen.iter().all(|p| !p));
}

#[test]
fn draw_opcode_draws_and_sets_the_collision_flag() {
    let mut chip = CHIP8::new();
    // Sprite: one 0xFF row at 0x300.
    chip.memory.write(0x300, 0xFF);
    assert!(chip.decode_execute((0xA3, 0x00)).is_ok());
    // V0 = 0 (x), V1 = 0 (y) already; draw one row at (V0, V1).
    assert!(chip.decode_execute((0xD0, 0x11)).is_ok());
    for col in 0..8 {
        assert!(chip.display.screen[col]);
    }
    assert_eq!(chip.variable[0xF], 0);
    // Drawing the same sprite again erases it and raises the flag.
    assert!(chip.decode_execute((0xD0, 0x11)).is_ok());
    assert!(chip.display.screen.iter().all(|p| !p));
    assert_eq!(chip.variable[0xF], 1);
}

#[test]
fn unimplemented_opcode_is_reported_and_changes_nothing() {
    let mut chip = CHIP8::new();
    chip.variable[3] = 0x42;
    chip.index = 0x234;
    chip.program_counter = 0x202;
    chip.memory.write(0x300, 0x99);
    let before_regs = chip.variable.clone();
    let before_screen = chip.display.screen.clone();
    // 0x2NNN (call) has no handler in the implemented subset.
    let result = chip.decode_execute((0x2A, 0xBC));
    let error = result.expect_err("call opcode must be reported as unimplemented");
    assert_eq!(error.itype, 0x2);
    assert_eq!(error.nn, 0xBC);
    assert_eq!(chip.variable, before_regs);
    assert_eq!(chip.display.screen, before_screen);
    assert_eq!(chip.program_counter, 0x202);
    assert_eq!(chip.index, 0x234);
    assert_eq!(chip.memory.read(0x300), 0x99);
}

#[test]
fn unrecognized_sub_opcode_of_itype_zero_is_reported() {
    let mut chip = CHIP8::new();
    // 00EE (return) is outside the implemented subset.
    let error = chip
        .decode_execute((0x00, 0xEE))
        .expect_err("return opcode must be reported as unimplemented");
    assert_eq!(error.itype, 0x0);
    assert_eq!(error.nn, 0xEE);
    assert_eq!(chip.program_counter, 0);
}

#[test]
fn keypad_tracks_presses_and_finds_the_first() {
    let mut keyboard = Keyboard::new();
    assert_eq!(keyboard.first_pressed(), None);
    keyboard.set_key(0xB, true);
    keyboard.set_key(0x4, true);
    assert!(keyboard.is_pressed(0xB));
    assert!(keyboard.is_pressed(0x4));
    assert!(!keyboard.is_pressed(0x5));
    assert_eq!(keyboard.first_pressed(), Some(0x4));
    keyboard.set_key(0x4, false);
    assert_eq!(keyboard.first_pressed(), Some(0xB));
    keyboard.set_key(0xB, false);
    assert_eq!(keyboard.first_pressed(), None);
}
