//! A CHIP-8 virtual-machine interpreter.
//!
//! The machine owns memory, registers, a call stack, two timers, a packed
//! 1-bit framebuffer and a hex keypad. A host drives it by calling `clock`
//! once per instruction-clock tick and `tick` at 60 Hz, feeding key state in
//! and reading the framebuffer out through a two-flag draw handshake.

/// The opcode decoder: fixed bit-fields of a 16-bit instruction word.
pub mod opcode;
/// The instruction set: dispatch table and mnemonics.
pub mod instr;
/// The sprite-XOR-blit algorithm of the draw instruction, as mathematics.
pub mod draw;
/// The machine itself: state, single-step execution, timers and loading.
pub mod chip8;
/// Laws that relate several instructions to one another.
pub mod laws;
