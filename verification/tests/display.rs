use chip8::chip8::{Chip8, ROM_START};

/// A machine with `words` written as big-endian instruction words from the
/// ROM start.
fn machine_with(words: &[u16]) -> Chip8 {
    let mut c = Chip8::new();
    for (k, w) in words.iter().enumerate() {
        c.memory[ROM_START + 2 * k] = (w >> 8) as u8;
        c.memory[ROM_START + 2 * k + 1] = (w & 0xff) as u8;
    }
    c
}

#[test]
fn clear_then_draw_sets_one_pixel() {
    // clear, point the index at the sprite, draw a single-row sprite with
    // only its leftmost pixel set at (V0, V1) = (0, 0).
    let mut c = machine_with(&[0x00e0, 0xa400, 0xd011]);
    c.memory[0x400] = 0b1000_0000;
    for _ in 0..3 {
        assert_eq!(c.clock(), Ok(()));
    }
    assert_eq!(c.screen[0], 0b1000_0000);
    assert!(c.screen[1..].iter().all(|&b| b == 0));
    assert_eq!(c.registers[0xf], 0);
    assert!(c.has_drawn);
}

#[test]
fn drawing_twice_erases_and_collides() {
    let mut c = machine_with(&[0xa400, 0xd013, 0xd013]);
    c.memory[0x400] = 0x3c;
    c.memory[0x401] = 0x42;
    c.memory[0x402] = 0x81;
    c.registers[0] = 10;
    c.registers[1] = 5;
    assert_eq!(c.clock(), Ok(()));
    assert_eq!(c.clock(), Ok(()));
    assert!(c.screen.iter().any(|&b| b != 0));
    assert_eq!(c.registers[0xf], 0);
    assert_eq!(c.clock(), Ok(()));
    assert!(c.screen.iter().all(|&b| b == 0));
    assert_eq!(c.registers[0xf], 1);
}

#[test]
fn sprite_at_column_sixty_wraps_to_column_zero() {
    let mut c = machine_with(&[0xa400, 0xd011]);
    c.memory[0x400] = 0xff;
    c.registers[0] = 60;
    c.registers[1] = 0;
    assert_eq!(c.clock(), Ok(()));
    assert_eq!(c.clock(), Ok(()));
    // Columns 60..63 live in the top row's last byte, the rest wraps into
    // its first byte — same row, not off-screen.
    assert_eq!(c.screen[7], 0x0f);
    assert_eq!(c.screen[0], 0xf0);
    assert!(c.screen[8..].iter().all(|&b| b == 0));
}

#[test]
fn sprite_wraps_vertically() {
    let mut c = machine_with(&[0xa400, 0xd012]);
    c.memory[0x400] = 0x80;
    c.memory[0x401] = 0x01;
    c.registers[0] = 0;
    c.registers[1] = 31;
    assert_eq!(c.clock(), Ok(()));
    assert_eq!(c.clock(), Ok(()));
    // Row 31 holds the first sprite row, row 0 the second (wrapped).
    assert_eq!(c.screen[31 * 8], 0x80);
    assert_eq!(c.screen[0], 0x01);
}

#[test]
fn collision_flag_detects_single_overlap() {
    let mut c = machine_with(&[0xa400, 0xd011, 0xa401, 0xd011]);
    c.memory[0x400] = 0b1100_0000;
    c.memory[0x401] = 0b0100_0000;
    assert_eq!(c.clock(), Ok(()));
    assert_eq!(c.clock(), Ok(()));
    assert_eq!(c.registers[0xf], 0);
    assert_eq!(c.clock(), Ok(()));
    assert_eq!(c.clock(), Ok(()));
    assert_eq!(c.registers[0xf], 1);
    assert_eq!(c.screen[0], 0b1000_0000);
}

#[test]
fn clear_blanks_the_screen() {
    let mut c = machine_with(&[0xa400, 0xd011, 0x00e0]);
    c.memory[0x400] = 0xff;
    assert_eq!(c.clock(), Ok(()));
    assert_eq!(c.clock(), Ok(()));
    assert!(c.screen.iter().any(|&b| b != 0));
    assert_eq!(c.clock(), Ok(()));
    assert!(c.screen.iter().all(|&b| b == 0));
    assert!(c.has_drawn);
}

#[test]
fn timers_saturate_at_zero() {
    let mut c = Chip8::new();
    c.delay = 2;
    c.sound = 1;
    c.tick();
    assert_eq!((c.delay, c.sound), (1, 0));
    c.tick();
    assert_eq!((c.delay, c.sound), (0, 0));
    for _ in 0..5 {
        c.tick();
        assert_eq!((c.delay, c.sound), (0, 0));
    }
}

#[test]
fn tick_clears_key_pulses() {
    let mut c = Chip8::new();
    c.set_key(3, true);
    c.set_key(0xf, true);
    assert!(c.keys[3] && c.keys[0xf]);
    c.tick();
    assert!(c.keys.iter().all(|&k| !k));
}

#[test]
fn draw_handshake_holds_frame_until_acknowledged() {
    let mut c = machine_with(&[0x00e0]);
    assert_eq!(c.clock(), Ok(()));
    assert!(c.draw_ready());
    // The host has not acknowledged: the flag survives the tick.
    c.tick();
    assert!(c.draw_ready());
    // After acknowledgement the next tick lowers it.
    c.acknowledge_draw();
    assert!(c.draw_ready());
    c.tick();
    assert!(!c.draw_ready());
}

#[test]
fn framebuffer_exposes_the_screen() {
    let mut c = machine_with(&[0xa400, 0xd011]);
    c.memory[0x400] = 0xff;
    assert_eq!(c.clock(), Ok(()));
    assert_eq!(c.clock(), Ok(()));
    assert_eq!(c.framebuffer()[0], 0xff);
    assert_eq!(c.framebuffer().len(), 256);
}

#[test]
fn accessors_read_the_timers() {
    let mut c = Chip8::new();
    c.delay = 7;
    c.sound = 9;
    assert_eq!(c.delay(), 7);
    assert_eq!(c.sound(), 9);
}

#[test]
fn mnemonic_lookup_reads_relative_words() {
    let mut c = machine_with(&[0x00e0, 0x1234, 0x8126]);
    c.program_counter = 0x202;
    assert_eq!(c.get_relative_instruction(-1), "cls");
    assert_eq!(c.get_relative_instruction(0), "jp");
    assert_eq!(c.get_relative_instruction(1), "shry");
    c.other_mode = true;
    assert_eq!(c.get_relative_instruction(1), "shr");
}

#[test]
fn mnemonic_for_data_words_is_nai() {
    let c = machine_with(&[0x5abc]);
    assert_eq!(c.get_relative_instruction(0), "nai");
}
