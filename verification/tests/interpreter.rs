use chip8::chip8::{Chip8, Chip8Error, MEM_SIZE, ROM_START};

/// A machine with `words` written as big-endian instruction words from the
/// ROM start.
fn machine_with(words: &[u16]) -> Chip8 {
    let mut c = Chip8::new();
    for (k, w) in words.iter().enumerate() {
        c.memory[ROM_START + 2 * k] = (w >> 8) as u8;
        c.memory[ROM_START + 2 * k + 1] = (w & 0xff) as u8;
    }
    c
}

#[test]
fn fresh_machine_layout() {
    let c = Chip8::new();
    assert_eq!(c.program_counter, 0x200);
    assert_eq!(c.stack_pointer, 0);
    assert_eq!(c.index, 0);
    assert_eq!(c.screen.len(), 256);
    assert!(c.screen.iter().all(|&b| b == 0));
    assert!(c.registers.iter().all(|&r| r == 0));
    assert!(!c.other_mode);
    // Font glyph spot checks: the first row of "0", the first row of "1",
    // and the last row of "F".
    assert_eq!(c.memory[0], 0xf0);
    assert_eq!(c.memory[5], 0x20);
    assert_eq!(c.memory[79], 0x80);
    assert!(c.memory[80..].iter().all(|&b| b == 0));
}

#[test]
fn load_places_rom_at_start() {
    let mut c = Chip8::new();
    assert_eq!(c.load(vec![0xaa, 0xbb, 0xcc]), Ok(()));
    assert_eq!(c.memory[0x200], 0xaa);
    assert_eq!(c.memory[0x201], 0xbb);
    assert_eq!(c.memory[0x202], 0xcc);
    assert_eq!(c.memory[0x203], 0x00);
}

#[test]
fn load_accepts_largest_rom() {
    let mut c = Chip8::new();
    let rom = vec![0x42u8; MEM_SIZE - ROM_START];
    assert_eq!(c.load(rom), Ok(()));
    assert_eq!(c.memory[MEM_SIZE - 1], 0x42);
}

#[test]
fn load_rejects_oversized_rom_untouched() {
    let mut c = Chip8::new();
    let before = c.memory;
    let rom = vec![0x42u8; MEM_SIZE - ROM_START + 1];
    assert_eq!(c.load(rom), Err(Chip8Error::RomTooLarge));
    assert_eq!(c.memory[..], before[..]);
    assert_eq!(c.program_counter, 0x200);
}

#[test]
fn add_imm_wraps_without_flag() {
    let mut c = machine_with(&[0x7002]);
    c.registers[0] = 0xff;
    c.registers[0xf] = 0x55;
    assert_eq!(c.clock(), Ok(()));
    assert_eq!(c.registers[0], 0x01);
    assert_eq!(c.registers[0xf], 0x55);
    assert_eq!(c.program_counter, 0x202);
}

#[test]
fn add_carry_then_sub_borrow_round_trips() {
    let mut c = machine_with(&[0x8124, 0x8125]);
    c.registers[1] = 200;
    c.registers[2] = 100;
    assert_eq!(c.clock(), Ok(()));
    assert_eq!(c.registers[1], 44);
    assert_eq!(c.registers[0xf], 1);
    assert_eq!(c.clock(), Ok(()));
    assert_eq!(c.registers[1], 200);
    assert_eq!(c.registers[2], 100);
    // A borrow occurred, so under the "1 means no borrow" convention the
    // flag ends low.
    assert_eq!(c.registers[0xf], 0);
}

#[test]
fn add_carry_without_overflow_clears_flag() {
    let mut c = machine_with(&[0x8124]);
    c.registers[1] = 3;
    c.registers[2] = 4;
    c.registers[0xf] = 1;
    assert_eq!(c.clock(), Ok(()));
    assert_eq!(c.registers[1], 7);
    assert_eq!(c.registers[0xf], 0);
}

#[test]
fn sub_without_borrow_sets_flag() {
    let mut c = machine_with(&[0x8125]);
    c.registers[1] = 9;
    c.registers[2] = 4;
    assert_eq!(c.clock(), Ok(()));
    assert_eq!(c.registers[1], 5);
    assert_eq!(c.registers[0xf], 1);
}

#[test]
fn subn_reverses_operands() {
    let mut c = machine_with(&[0x8127]);
    c.registers[1] = 4;
    c.registers[2] = 9;
    assert_eq!(c.clock(), Ok(()));
    assert_eq!(c.registers[1], 5);
    assert_eq!(c.registers[0xf], 1);
}

#[test]
fn logic_ops_and_copy() {
    let mut c = machine_with(&[0x8120, 0x8341, 0x8562, 0x8783]);
    c.registers[2] = 0x0f;
    c.registers[3] = 0xf0;
    c.registers[4] = 0x0f;
    c.registers[5] = 0x3c;
    c.registers[6] = 0x0f;
    c.registers[7] = 0x5a;
    c.registers[8] = 0x0f;
    assert_eq!(c.clock(), Ok(()));
    assert_eq!(c.registers[1], 0x0f); // copy of V2
    assert_eq!(c.clock(), Ok(()));
    assert_eq!(c.registers[3], 0xff); // 0xf0 | 0x0f
    assert_eq!(c.clock(), Ok(()));
    assert_eq!(c.registers[5], 0x0c); // 0x3c & 0x0f
    assert_eq!(c.clock(), Ok(()));
    assert_eq!(c.registers[7], 0x55); // 0x5a ^ 0x0f
}

#[test]
fn skips_take_and_fall_through() {
    // se taken: V0 == 0x11 skips the next instruction.
    let mut c = machine_with(&[0x3011]);
    c.registers[0] = 0x11;
    assert_eq!(c.clock(), Ok(()));
    assert_eq!(c.program_counter, 0x204);
    // se not taken.
    let mut c = machine_with(&[0x3011]);
    c.registers[0] = 0x12;
    assert_eq!(c.clock(), Ok(()));
    assert_eq!(c.program_counter, 0x202);
    // sne taken on difference.
    let mut c = machine_with(&[0x4011]);
    c.registers[0] = 0x12;
    assert_eq!(c.clock(), Ok(()));
    assert_eq!(c.program_counter, 0x204);
    // sey takes on equal registers, sney on different ones.
    let mut c = machine_with(&[0x5120]);
    c.registers[1] = 7;
    c.registers[2] = 7;
    assert_eq!(c.clock(), Ok(()));
    assert_eq!(c.program_counter, 0x204);
    let mut c = machine_with(&[0x9120]);
    c.registers[1] = 7;
    c.registers[2] = 8;
    assert_eq!(c.clock(), Ok(()));
    assert_eq!(c.program_counter, 0x204);
}

#[test]
fn jumps_and_index() {
    let mut c = machine_with(&[0x1234]);
    assert_eq!(c.clock(), Ok(()));
    assert_eq!(c.program_counter, 0x234);

    let mut c = machine_with(&[0xb230]);
    c.registers[0] = 8;
    assert_eq!(c.clock(), Ok(()));
    assert_eq!(c.program_counter, 0x238);

    let mut c = machine_with(&[0xa345]);
    assert_eq!(c.clock(), Ok(()));
    assert_eq!(c.index, 0x345);
    assert_eq!(c.program_counter, 0x202);
}

#[test]
fn shifts_default_mode_use_vy() {
    // other_mode is false by default: 8xy6 shifts Vy into Vx.
    let mut c = machine_with(&[0x8126]);
    c.registers[1] = 0;
    c.registers[2] = 0b101;
    assert_eq!(c.clock(), Ok(()));
    assert_eq!(c.registers[1], 0b10);
    assert_eq!(c.registers[2], 0b101);
    assert_eq!(c.registers[0xf], 1);

    let mut c = machine_with(&[0x812e]);
    c.registers[2] = 0b1100_0001;
    assert_eq!(c.clock(), Ok(()));
    assert_eq!(c.registers[1], 0b1000_0010);
    assert_eq!(c.registers[2], 0b1100_0001);
    assert_eq!(c.registers[0xf], 1);
}

#[test]
fn shifts_other_mode_use_vx() {
    let mut c = machine_with(&[0x8126]);
    c.other_mode = true;
    c.registers[1] = 0b101;
    c.registers[2] = 0xee;
    assert_eq!(c.clock(), Ok(()));
    assert_eq!(c.registers[1], 0b10);
    assert_eq!(c.registers[0xf], 1);

    let mut c = machine_with(&[0x812e]);
    c.other_mode = true;
    c.registers[1] = 0b0100_0001;
    assert_eq!(c.clock(), Ok(()));
    assert_eq!(c.registers[1], 0b1000_0010);
    assert_eq!(c.registers[0xf], 0);
}

#[test]
fn call_and_return_restore_pc() {
    let mut c = machine_with(&[0x2300]);
    c.memory[0x300] = 0x00;
    c.memory[0x301] = 0xee;
    assert_eq!(c.clock(), Ok(()));
    assert_eq!(c.program_counter, 0x300);
    assert_eq!(c.stack_pointer, 1);
    assert_eq!(c.stack[0], 0x200);
    assert_eq!(c.clock(), Ok(()));
    assert_eq!(c.program_counter, 0x202);
    assert_eq!(c.stack_pointer, 0);
}

#[test]
fn seventeen_nested_calls_overflow() {
    let mut c = Chip8::new();
    // A chain of calls, each targeting the instruction right after itself.
    for k in 0..17 {
        let addr = 0x200 + 2 * k;
        let word = 0x2000u16 | (addr as u16 + 2);
        c.memory[addr] = (word >> 8) as u8;
        c.memory[addr + 1] = (word & 0xff) as u8;
    }
    for _ in 0..16 {
        assert_eq!(c.clock(), Ok(()));
    }
    assert_eq!(c.stack_pointer, 16);
    let pc_before = c.program_counter;
    assert_eq!(c.clock(), Err(Chip8Error::StackOverflow));
    assert_eq!(c.program_counter, pc_before);
    assert_eq!(c.stack_pointer, 16);
}

#[test]
fn return_on_empty_stack_underflows() {
    let mut c = machine_with(&[0x00ee]);
    assert_eq!(c.clock(), Err(Chip8Error::StackUnderflow));
    assert_eq!(c.program_counter, 0x200);
}

#[test]
fn fetch_outside_memory_is_invalid_address() {
    let mut c = Chip8::new();
    c.program_counter = MEM_SIZE - 1;
    assert_eq!(c.clock(), Err(Chip8Error::InvalidAddress));
    assert_eq!(c.program_counter, MEM_SIZE - 1);
}

#[test]
fn draw_past_end_of_memory_is_invalid_address() {
    let mut c = machine_with(&[0xd013]);
    c.index = 0xffd;
    assert_eq!(c.clock(), Err(Chip8Error::InvalidAddress));
    assert_eq!(c.program_counter, 0x200);
    assert!(!c.has_drawn);
}

#[test]
fn bcd_past_end_of_memory_is_invalid_address() {
    let mut c = machine_with(&[0xf033]);
    c.index = 0xffd;
    assert_eq!(c.clock(), Err(Chip8Error::InvalidAddress));
}

#[test]
fn index_add_is_bounds_checked() {
    let mut c = machine_with(&[0xf11e, 0xf11e]);
    c.index = 0xf00;
    c.registers[1] = 0xfe;
    assert_eq!(c.clock(), Ok(()));
    assert_eq!(c.index, 0xffe);
    assert_eq!(c.clock(), Err(Chip8Error::InvalidAddress));
    assert_eq!(c.index, 0xffe);
}

#[test]
fn strict_clock_reports_invalid_opcode() {
    // 0x5121 has the jump-if-equal top nibble but a nonzero trailing
    // nibble: not an instruction.
    let mut c = machine_with(&[0x5121]);
    assert_eq!(c.clock_strict(), Err(Chip8Error::InvalidOpcode));
    assert_eq!(c.program_counter, 0x200);
    // The plain clock executes it as a no-operation.
    assert_eq!(c.clock(), Ok(()));
    assert_eq!(c.program_counter, 0x202);
}

#[test]
fn strict_clock_runs_assigned_opcodes() {
    let mut c = machine_with(&[0x6042]);
    assert_eq!(c.clock_strict(), Ok(()));
    assert_eq!(c.registers[0], 0x42);
}

#[test]
fn random_masked_with_zero_is_zero() {
    let mut c = machine_with(&[0xc300]);
    c.registers[3] = 0xaa;
    assert_eq!(c.clock(), Ok(()));
    assert_eq!(c.registers[3], 0);
}

#[test]
fn random_respects_mask() {
    let mut c = machine_with(&[0xc30f]);
    assert_eq!(c.clock(), Ok(()));
    assert_eq!(c.registers[3] & 0xf0, 0);
}

#[test]
fn timer_moves() {
    let mut c = machine_with(&[0xf315, 0xf418, 0xf507]);
    c.registers[3] = 9;
    c.registers[4] = 7;
    assert_eq!(c.clock(), Ok(()));
    assert_eq!(c.delay, 9);
    assert_eq!(c.clock(), Ok(()));
    assert_eq!(c.sound, 7);
    assert_eq!(c.clock(), Ok(()));
    assert_eq!(c.registers[5], 9);
}

#[test]
fn font_address_is_five_per_digit() {
    let mut c = machine_with(&[0xf229]);
    c.registers[2] = 0xa;
    assert_eq!(c.clock(), Ok(()));
    assert_eq!(c.index, 50);
    // The glyph bytes for "A" sit there.
    assert_eq!(c.memory[50], 0xf0);
}

#[test]
fn bcd_writes_three_digits() {
    let mut c = machine_with(&[0xf233]);
    c.registers[2] = 234;
    c.index = 0x400;
    assert_eq!(c.clock(), Ok(()));
    assert_eq!(c.memory[0x400], 2);
    assert_eq!(c.memory[0x401], 3);
    assert_eq!(c.memory[0x402], 4);
    assert_eq!(c.index, 0x400);
}

#[test]
fn register_block_store_and_load() {
    let mut c = machine_with(&[0xf355, 0x6000, 0x6100, 0x6200, 0x6300, 0xf365]);
    c.registers[0] = 10;
    c.registers[1] = 11;
    c.registers[2] = 12;
    c.registers[3] = 13;
    c.registers[4] = 99;
    c.index = 0x500;
    assert_eq!(c.clock(), Ok(()));
    assert_eq!(&c.memory[0x500..0x504], &[10, 11, 12, 13]);
    assert_eq!(c.memory[0x504], 0);
    assert_eq!(c.index, 0x500);
    // Zero the registers, then load the block back.
    for _ in 0..4 {
        assert_eq!(c.clock(), Ok(()));
    }
    assert_eq!(c.registers[0..4], [0, 0, 0, 0]);
    assert_eq!(c.clock(), Ok(()));
    assert_eq!(c.registers[0..4], [10, 11, 12, 13]);
    assert_eq!(c.registers[4], 99);
}

#[test]
fn register_block_is_bounds_checked() {
    let mut c = machine_with(&[0xf355]);
    c.index = 0xffd;
    assert_eq!(c.clock(), Err(Chip8Error::InvalidAddress));
    let mut c = machine_with(&[0xf365]);
    c.index = 0xffd;
    assert_eq!(c.clock(), Err(Chip8Error::InvalidAddress));
}

#[test]
fn key_skips_read_the_pad() {
    let mut c = machine_with(&[0xe29e]);
    c.registers[2] = 4;
    c.set_key(4, true);
    assert_eq!(c.clock(), Ok(()));
    assert_eq!(c.program_counter, 0x204);

    let mut c = machine_with(&[0xe2a1]);
    c.registers[2] = 4;
    assert_eq!(c.clock(), Ok(()));
    assert_eq!(c.program_counter, 0x204);

    // A register value outside the 16-key pad is refused.
    let mut c = machine_with(&[0xe29e]);
    c.registers[2] = 16;
    assert_eq!(c.clock(), Err(Chip8Error::InvalidAddress));
}

#[test]
fn wait_key_blocks_until_a_key_pulse() {
    let mut c = machine_with(&[0xf30a]);
    for _ in 0..3 {
        assert_eq!(c.clock(), Ok(()));
        assert_eq!(c.program_counter, 0x200);
    }
    c.set_key(5, true);
    c.set_key(2, true);
    assert_eq!(c.clock(), Ok(()));
    assert_eq!(c.program_counter, 0x202);
    // The lowest pressed key wins.
    assert_eq!(c.registers[3], 2);
}

#[test]
fn load_accepts_empty_rom() {
    let mut c = Chip8::new();
    let before = c.memory;
    assert_eq!(c.load(Vec::new()), Ok(()));
    assert_eq!(c.memory[..], before[..]);
}

#[test]
fn zero_height_sprite_draws_nothing() {
    let mut c = machine_with(&[0xd010]);
    c.registers[0xf] = 1;
    assert_eq!(c.clock(), Ok(()));
    assert!(c.screen.iter().all(|&b| b == 0));
    assert_eq!(c.registers[0xf], 0);
    assert!(c.has_drawn);
    assert_eq!(c.program_counter, 0x202);
}
