use chip8::Display;

#[test]
fn new_display_is_all_off() {
    let display = Display::new();
    assert_eq!(display.screen.len(), 32 * 64);
    assert!(display.screen.iter().all(|p| !p));
}

#[test]
fn clear_resets_arbitrary_pixels() {
    let mut display = Display::new();
    // Turn on some scattered pixels: (row, col) at row * 64 + col.
    display.screen[5 * 64 + 5] = true;
    display.screen[12 * 64 + 36] = true;
    display.screen[27 * 64 + 61] = true;
    display.clear();
    assert_eq!(display.screen.len(), 32 * 64);
    assert!(display.screen.iter().all(|p| !p));
}

#[test]
fn draw_sets_pixels_and_redraw_erases_them() {
    let mut display = Display::new();
    let sprite = vec![0xFFu8];
    // First draw onto an empty buffer: row 0, columns 0-7 go on,
    // nothing collides.
    let collision = display.draw_sprite(0, 0, &sprite);
    assert!(!collision);
    for col in 0..8 {
        assert!(display.screen[col]);
    }
    for p in 8..32 * 64 {
        assert!(!display.screen[p]);
    }
    // Drawing the same sprite again XORs the pixels back off and
    // reports the collision.
    let collision = display.draw_sprite(0, 0, &sprite);
    assert!(collision);
    assert!(display.screen.iter().all(|p| !p));
}

#[test]
fn draw_wraps_modulo_grid_dimensions() {
    let mut display = Display::new();
    // An 8-wide sprite at column 60 wraps onto columns 0-3; a row at
    // y = 31 stays on row 31, the next sprite row would wrap to row 0.
    let sprite = vec![0xFFu8, 0xFFu8];
    let collision = display.draw_sprite(60, 31, &sprite);
    assert!(!collision);
    for c in 0..8usize {
        let col = (60 + c) % 64;
        assert!(display.screen[31 * 64 + col]);
        assert!(display.screen[col]);
    }
    let on = display.screen.iter().filter(|p| **p).count();
    assert_eq!(on, 16);
}

#[test]
fn draw_reports_partial_collision() {
    let mut display = Display::new();
    // 0xF0: bits 0-3 set. Overlap it with 0x0F: bits 4-7 set. They
    // share no pixel, so no collision; overlapping 0xF0 again collides
    // even though half the byte is clear.
    assert!(!display.draw_sprite(0, 0, &vec![0xF0u8]));
    assert!(!display.draw_sprite(0, 0, &vec![0x0Fu8]));
    assert!(display.draw_sprite(0, 0, &vec![0xF0u8]));
    // The first four pixels were erased, the next four survive.
    for col in 0..4 {
        assert!(!display.screen[col]);
    }
    for col in 4..8 {
        assert!(display.screen[col]);
    }
}
