use vstd::prelude::*;
use crate::opcode::{Opcode, decoded, spec_n, spec_nn, spec_nnn, spec_x, spec_y};
use crate::instr::{Instr, spec_instr_of, spec_mnemonic};
use crate::draw::{spec_draw_mask, spec_draw_coll};


verus! {

/// The number of addressable memory bytes.
pub const MEM_SIZE: usize = 0xfff;

/// The first address a ROM is loaded at; everything below it belongs to the
/// interpreter (the font table sits at the bottom).
pub const ROM_START: usize = 0x200;

/// The size of the packed framebuffer: 64 x 32 pixels, one bit each.
pub const SCREEN_BYTES: usize = 256;

/// Everything that can go wrong while loading or running a program.
///
/// Only `InvalidOpcode` is non-fatal in spirit: the plain single-step
/// operation executes an unassigned bit pattern as a no-operation, and the
/// strict one surfaces this variant instead. The others abort the step that
/// raised them and leave the machine exactly as it was.
#[derive(Clone, Copy, PartialEq, Eq, Structural, Debug)]
pub enum Chip8Error {
    /// The fetched word is not an assigned instruction (strict decoding only).
    InvalidOpcode,
    /// The program counter or a derived address fell outside memory, or a key
    /// index fell outside the 16-key pad.
    InvalidAddress,
    /// A `call` was executed with all 16 return slots in use.
    StackOverflow,
    /// A `return` was executed with the call stack empty.
    StackUnderflow,
    /// The ROM handed to `load` does not fit below the end of memory.
    RomTooLarge,
}

/// The machine as mathematics: every register file, buffer and flag as a
/// sequence or plain value. All contracts of [`Chip8`] speak of this view.
#[verifier::ext_equal]
pub ghost struct MachineV {
    /// The 16 general-purpose registers `V0`..`VF`.
    pub regs: Seq<u8>,
    /// The index register `I`.
    pub index: usize,
    /// The delay timer.
    pub delay: u8,
    /// The sound timer.
    pub sound: u8,
    /// The program counter.
    pub pc: usize,
    /// The stack pointer: the number of return slots in use.
    pub sp: usize,
    /// The 16 return-address slots.
    pub stack: Seq<usize>,
    /// The addressable memory.
    pub mem: Seq<u8>,
    /// The packed framebuffer, 8 bytes per row, 32 rows.
    pub screen: Seq<u8>,
    /// The screen size in pixels, `(width, height)`.
    pub screen_size: (u8, u8),
    /// Which of the two documented shift semantics is active.
    pub other_mode: bool,
    /// The 16 key states.
    pub keys: Seq<bool>,
    /// Set by `clear` and `draw`; the host renders when it sees this.
    pub drawn: bool,
    /// Set by the host once it has consumed the framebuffer.
    pub acked: bool,
}

impl MachineV {
    /// Well-formedness: the buffers have their fixed sizes, the stack
    /// pointer stays within its 16 slots, the index register stays within
    /// its 12-bit range, and every stored return address points at an
    /// instruction that fits in memory.
    pub open spec fn wf(self) -> bool {
        &&& self.regs.len() == 16
        &&& self.stack.len() == 16
        &&& self.mem.len() == MEM_SIZE
        &&& self.screen.len() == SCREEN_BYTES
        &&& self.keys.len() == 16
        &&& self.sp <= 16
        &&& self.index <= 0xfff
        &&& forall|i: int| 0 <= i < 16 ==> #[trigger] self.stack[i] <= 0xffd
    }
}

/// The interpreter: it owns all machine state and is driven from outside,
/// one instruction per [`clock`](Chip8::clock) call and one timer step per
/// [`tick`](Chip8::tick) call.
pub struct Chip8 {
    /// The 16 general-purpose registers; `VF` doubles as the flag output of
    /// arithmetic, shift and draw instructions.
    pub registers: [u8; 16],
    /// The index register `I`.
    pub index: usize,
    /// The delay timer, decremented by `tick`.
    pub delay: u8,
    /// The sound timer, decremented by `tick`.
    pub sound: u8,
    /// The program counter.
    pub program_counter: usize,
    /// The number of return slots in use.
    pub stack_pointer: usize,
    /// The return-address slots.
    pub stack: [usize; 16],
    /// The addressable memory; the font table fills its lowest 80 bytes.
    pub memory: [u8; 0xfff],
    /// The screen size in pixels, `(width, height)`.
    pub screen_size: (u8, u8),
    /// The packed framebuffer.
    pub screen: Vec<u8>,
    /// Selects which of the two documented shift-instruction semantics is
    /// executed for the opcode rows `8xy6` and `8xye`.
    pub other_mode: bool,
    /// The key states, written by the host, cleared by `tick`.
    pub keys: [bool; 16],
    /// True after a screen-mutating instruction ran.
    pub has_drawn: bool,
    /// Set by the host (through `acknowledge_draw`) once it has rendered.
    pub has_handled_draw: bool,
}

impl View for Chip8 {
    type V = MachineV;

    open spec fn view(&self) -> MachineV {
        MachineV {
            regs: self.registers@,
            index: self.index,
            delay: self.delay,
            sound: self.sound,
            pc: self.program_counter,
            sp: self.stack_pointer,
            stack: self.stack@,
            mem: self.memory@,
            screen: self.screen@,
            screen_size: self.screen_size,
            other_mode: self.other_mode,
            keys: self.keys@,
            drawn: self.has_drawn,
            acked: self.has_handled_draw,
        }
    }
}

/// The 5-byte bitmap of the font glyph for hex digit `d`.
pub open spec fn font_glyph(d: int) -> Seq<u8> {
    if d == 0x0 {
        seq![0xf0u8, 0x90, 0x90, 0x90, 0xf0]
    } else if d == 0x1 {
        seq![0x20u8, 0x60, 0x20, 0x20, 0x70]
    } else if d == 0x2 {
        seq![0xf0u8, 0x10, 0xf0, 0x80, 0xf0]
    } else if d == 0x3 {
        seq![0xf0u8, 0x10, 0xf0, 0x10, 0xf0]
    } else if d == 0x4 {
        seq![0x90u8, 0x90, 0xf0, 0x10, 0x10]
    } else if d == 0x5 {
        seq![0xf0u8, 0x80, 0xf0, 0x10, 0xf0]
    } else if d == 0x6 {
        seq![0xf0u8, 0x80, 0xf0, 0x90, 0xf0]
    } else if d == 0x7 {
        seq![0xf0u8, 0x10, 0x20, 0x40, 0x40]
    } else if d == 0x8 {
        seq![0xf0u8, 0x90, 0xf0, 0x90, 0xf0]
    } else if d == 0x9 {
        seq![0xf0u8, 0x90, 0xf0, 0x10, 0xf0]
    } else if d == 0xa {
        seq![0xf0u8, 0x90, 0xf0, 0x90, 0x90]
    } else if d == 0xb {
        seq![0xe0u8, 0x90, 0xe0, 0x90, 0xe0]
    } else if d == 0xc {
        seq![0xf0u8, 0x80, 0x80, 0x80, 0xf0]
    } else if d == 0xd {
        seq![0xe0u8, 0x90, 0x90, 0x90, 0xe0]
    } else if d == 0xe {
        seq![0xf0u8, 0x80, 0xf0, 0x80, 0xf0]
    } else {
        seq![0xf0u8, 0x80, 0xf0, 0x80, 0x80]
    }
}


/// The value `v` wrapped into one byte.
pub open spec fn wrap8(v: int) -> u8 {
    (v % 256) as u8
}

/// The 16-bit big-endian instruction word at address `a`.
pub open spec fn spec_word_at(mem: Seq<u8>, a: int) -> u16 {
    ((mem[a] as u16) << 8) | (mem[a + 1] as u16)
}

/// `add-imm`: `Vx` gains `nn` modulo 256; no other register moves, the flag
/// register included.
pub open spec fn spec_add_regs(r: Seq<u8>, x: int, nn: u8) -> Seq<u8> {
    r.update(x, wrap8(r[x] + nn))
}

/// `add-carry`: the flag is cleared, the wrapped sum is stored, and the flag
/// is raised exactly when the true sum does not fit in one byte.
pub open spec fn spec_addy_regs(r: Seq<u8>, x: int, y: int) -> Seq<u8> {
    let r0 = r.update(15, 0u8);
    let sum = r0[x] + r0[y];
    let r1 = r0.update(x, wrap8(sum));
    if sum >= 256 {
        r1.update(15, 1u8)
    } else {
        r1
    }
}

/// `sub-borrow`: `Vx - Vy` wrapped; the flag is raised exactly when no
/// borrow occurs, that is when `Vx >= Vy`.
pub open spec fn spec_sub_regs(r: Seq<u8>, x: int, y: int) -> Seq<u8> {
    let r0 = r.update(15, 0u8);
    let vx = r0[x];
    let vy = r0[y];
    let r1 = r0.update(x, if vx >= vy { (vx - vy) as u8 } else { (vx - vy + 256) as u8 });
    if vx >= vy {
        r1.update(15, 1u8)
    } else {
        r1
    }
}

/// `sub-borrow-rev`: `Vy - Vx` into `Vx`; the flag is raised exactly when no
/// borrow occurs, that is when `Vy >= Vx`.
pub open spec fn spec_subn_regs(r: Seq<u8>, x: int, y: int) -> Seq<u8> {
    let r0 = r.update(15, 0u8);
    let vx = r0[x];
    let vy = r0[y];
    let r1 = r0.update(x, if vy >= vx { (vy - vx) as u8 } else { (vy - vx + 256) as u8 });
    if vy >= vx {
        r1.update(15, 1u8)
    } else {
        r1
    }
}

/// `shift-right`: the bit shifted out of `Vx` goes to the flag, `Vx` itself
/// moves right one bit.
pub open spec fn spec_shr_regs(r: Seq<u8>, x: int) -> Seq<u8> {
    let r0 = r.update(15, 0u8);
    let r1 = if r0[x] & 1 == 1 {
        r0.update(15, 1u8)
    } else {
        r0
    };
    r1.update(x, r1[x] >> 1)
}

/// `shift-right` in legacy form: the bit shifted out of `Vy` goes to the
/// flag and `Vx` receives `Vy` moved right one bit; `Vy` stays.
pub open spec fn spec_shry_regs(r: Seq<u8>, x: int, y: int) -> Seq<u8> {
    let r0 = r.update(15, 0u8);
    let r1 = if r0[y] & 1 == 1 {
        r0.update(15, 1u8)
    } else {
        r0
    };
    r1.update(x, r1[y] >> 1)
}

/// `shift-left`: the bit shifted out of `Vx` goes to the flag, `Vx` itself
/// moves left one bit.
pub open spec fn spec_shl_regs(r: Seq<u8>, x: int) -> Seq<u8> {
    let r0 = r.update(15, 0u8);
    let r1 = if r0[x] & 0x80 != 0 {
        r0.update(15, 1u8)
    } else {
        r0
    };
    r1.update(x, r1[x] << 1)
}

/// `shift-left` in legacy form: the bit shifted out of `Vy` goes to the
/// flag and `Vx` receives `Vy` moved left one bit; `Vy` stays.
pub open spec fn spec_shly_regs(r: Seq<u8>, x: int, y: int) -> Seq<u8> {
    let r0 = r.update(15, 0u8);
    let r1 = if r0[y] & 0x80 != 0 {
        r0.update(15, 1u8)
    } else {
        r0
    };
    r1.update(x, r1[y] << 1)
}

/// The lowest pressed key at or after position `i`, or 16 when none is.
pub open spec fn spec_first_key(keys: Seq<bool>, i: int) -> int
    decreases 16 - i,
{
    if i < 0 || i >= 16 {
        16
    } else if keys[i] {
        i
    } else {
        spec_first_key(keys, i + 1)
    }
}

/// What `spec_first_key` finds, spelled out: either no key at or after `i`
/// is pressed, or it is the lowest pressed position at or after `i`.
pub proof fn lemma_first_key(keys: Seq<bool>, i: int)
    requires
        0 <= i <= 16,
    ensures
        i <= spec_first_key(keys, i) <= 16,
        spec_first_key(keys, i) == 16 ==> forall|j: int| i <= j < 16 ==> !keys[j],
        spec_first_key(keys, i) < 16 ==> {
            &&& i <= spec_first_key(keys, i) < 16
            &&& keys[spec_first_key(keys, i)]
            &&& forall|j: int| i <= j < spec_first_key(keys, i) ==> !keys[j]
        },
    decreases 16 - i,
{
    if i < 16 && !keys[i] {
        lemma_first_key(keys, i + 1);
    }
}


/// When the keys in `[s, i)` are all released and key `i` is pressed, the
/// search starting at `s` stops exactly at `i`.
pub proof fn lemma_first_key_finds(keys: Seq<bool>, s: int, i: int)
    requires
        0 <= s <= i < 16,
        keys[i],
        forall|j: int| s <= j < i ==> !keys[j],
    ensures
        spec_first_key(keys, s) == i,
    decreases i - s,
{
    if s < i {
        assert(!keys[s]);
        lemma_first_key_finds(keys, s + 1, i);
    }
}

/// When every key at or after `s` is released, the search finds none.
pub proof fn lemma_first_key_none(keys: Seq<bool>, s: int)
    requires
        0 <= s <= 16,
        forall|j: int| s <= j < 16 ==> !keys[j],
    ensures
        spec_first_key(keys, s) == 16,
    decreases 16 - s,
{
    if s < 16 {
        assert(!keys[s]);
        lemma_first_key_none(keys, s + 1);
    }
}


/// Relies on `rand::random::<u8>()`: one byte from the thread-local
/// generator. Nothing is promised of its value; every caller must hold for
/// every byte that could come back.
#[verifier::external_body]
fn random_byte() -> u8 {
    rand::random::<u8>()
}

/// One instruction step as a function of the machine and one random byte
/// `b` (consumed only by the `random` instruction): either the follow-on
/// machine or the error that stops the step, in which case the machine is
/// left as it was.
pub open spec fn spec_step(pre: MachineV, b: u8) -> Result<MachineV, Chip8Error> {
    if pre.pc + 1 >= MEM_SIZE {
        Err(Chip8Error::InvalidAddress)
    } else {
        let code: u16 = spec_word_at(pre.mem, pre.pc as int);
        let x: int = spec_x(code) as int;
        let y: int = spec_y(code) as int;
        let n: u8 = spec_n(code);
        let nn: u8 = spec_nn(code);
        let nnn: u16 = spec_nnn(code);
        let r = pre.regs;
        let pc2: usize = (pre.pc + 2) as usize;
        let pc4: usize = (pre.pc + 4) as usize;
        match spec_instr_of(code, pre.other_mode) {
            Instr::Cls => Ok(MachineV {
                screen: Seq::new(SCREEN_BYTES as nat, |j: int| 0u8),
                drawn: true,
                pc: pc2,
                ..pre
            }),
            Instr::Ret => if pre.sp == 0 {
                Err(Chip8Error::StackUnderflow)
            } else {
                Ok(MachineV {
                    sp: (pre.sp - 1) as usize,
                    pc: (pre.stack[pre.sp - 1] + 2) as usize,
                    ..pre
                })
            },
            Instr::Jp => Ok(MachineV { pc: nnn as usize, ..pre }),
            Instr::Call => if pre.sp >= 16 {
                Err(Chip8Error::StackOverflow)
            } else {
                Ok(MachineV {
                    stack: pre.stack.update(pre.sp as int, pre.pc),
                    sp: (pre.sp + 1) as usize,
                    pc: nnn as usize,
                    ..pre
                })
            },
            Instr::Se => Ok(MachineV { pc: if r[x] == nn { pc4 } else { pc2 }, ..pre }),
            Instr::Sne => Ok(MachineV { pc: if r[x] != nn { pc4 } else { pc2 }, ..pre }),
            Instr::Sey => Ok(MachineV { pc: if r[x] == r[y] { pc4 } else { pc2 }, ..pre }),
            Instr::Ld => Ok(MachineV { regs: r.update(x, nn), pc: pc2, ..pre }),
            Instr::Add => Ok(MachineV { regs: spec_add_regs(r, x, nn), pc: pc2, ..pre }),
            Instr::Ldy => Ok(MachineV { regs: r.update(x, r[y]), pc: pc2, ..pre }),
            Instr::Or => Ok(MachineV { regs: r.update(x, r[x] | r[y]), pc: pc2, ..pre }),
            Instr::And => Ok(MachineV { regs: r.update(x, r[x] & r[y]), pc: pc2, ..pre }),
            Instr::Xor => Ok(MachineV { regs: r.update(x, r[x] ^ r[y]), pc: pc2, ..pre }),
            Instr::Addy => Ok(MachineV { regs: spec_addy_regs(r, x, y), pc: pc2, ..pre }),
            Instr::Sub => Ok(MachineV { regs: spec_sub_regs(r, x, y), pc: pc2, ..pre }),
            Instr::Shr => Ok(MachineV { regs: spec_shr_regs(r, x), pc: pc2, ..pre }),
            Instr::Shry => Ok(MachineV { regs: spec_shry_regs(r, x, y), pc: pc2, ..pre }),
            Instr::Subn => Ok(MachineV { regs: spec_subn_regs(r, x, y), pc: pc2, ..pre }),
            Instr::Shl => Ok(MachineV { regs: spec_shl_regs(r, x), pc: pc2, ..pre }),
            Instr::Shly => Ok(MachineV { regs: spec_shly_regs(r, x, y), pc: pc2, ..pre }),
            Instr::Sney => Ok(MachineV { pc: if r[x] != r[y] { pc4 } else { pc2 }, ..pre }),
            Instr::Ldi => Ok(MachineV { index: nnn as usize, pc: pc2, ..pre }),
            Instr::Jp0 => Ok(MachineV { pc: (nnn + r[0]) as usize, ..pre }),
            Instr::Rnd => Ok(MachineV { regs: r.update(x, b & nn), pc: pc2, ..pre }),
            Instr::Drw => if pre.index + n > MEM_SIZE {
                Err(Chip8Error::InvalidAddress)
            } else {
                let r0 = r.update(15, 0u8);
                let vx: u8 = r0[x];
                let vy: u8 = r0[y];
                Ok(MachineV {
                    regs: r.update(
                        15,
                        if spec_draw_coll(pre.screen, pre.mem, pre.index as int, vx, vy, n as int) {
                            1u8
                        } else {
                            0u8
                        },
                    ),
                    screen: crate::draw::spec_draw_screen(
                        pre.screen,
                        pre.mem,
                        pre.index as int,
                        vx,
                        vy,
                        n as int,
                    ),
                    drawn: true,
                    pc: pc2,
                    ..pre
                })
            },
            Instr::Skp => if r[x] >= 16 {
                Err(Chip8Error::InvalidAddress)
            } else {
                Ok(MachineV { pc: if pre.keys[r[x] as int] { pc4 } else { pc2 }, ..pre })
            },
            Instr::Skpn => if r[x] >= 16 {
                Err(Chip8Error::InvalidAddress)
            } else {
                Ok(MachineV { pc: if !pre.keys[r[x] as int] { pc4 } else { pc2 }, ..pre })
            },
            Instr::Ldxdt => Ok(MachineV { regs: r.update(x, pre.delay), pc: pc2, ..pre }),
            Instr::Ldk => {
                let k: int = spec_first_key(pre.keys, 0);
                if k < 16 {
                    Ok(MachineV { regs: r.update(x, k as u8), pc: pc2, ..pre })
                } else {
                    Ok(pre)
                }
            },
            Instr::Lddt => Ok(MachineV { delay: r[x], pc: pc2, ..pre }),
            Instr::Ldst => Ok(MachineV { sound: r[x], pc: pc2, ..pre }),
            Instr::Addi => if pre.index + r[x] >= MEM_SIZE {
                Err(Chip8Error::InvalidAddress)
            } else {
                Ok(MachineV { index: (pre.index + r[x]) as usize, pc: pc2, ..pre })
            },
            Instr::Ldf => Ok(MachineV { index: (r[x] * 5) as usize, pc: pc2, ..pre }),
            Instr::Ldb => if pre.index + 2 >= MEM_SIZE {
                Err(Chip8Error::InvalidAddress)
            } else {
                Ok(MachineV {
                    mem: pre.mem.update(pre.index as int, (r[x] as int / 100) as u8).update(
                        pre.index + 1,
                        ((r[x] as int / 10) % 10) as u8,
                    ).update(pre.index + 2, (r[x] as int % 10) as u8),
                    pc: pc2,
                    ..pre
                })
            },
            Instr::Ldix => if pre.index + x >= MEM_SIZE {
                Err(Chip8Error::InvalidAddress)
            } else {
                Ok(MachineV {
                    mem: Seq::new(
                        pre.mem.len(),
                        |j: int|
                            if pre.index <= j <= pre.index + x {
                                r[j - pre.index]
                            } else {
                                pre.mem[j]
                            },
                    ),
                    pc: pc2,
                    ..pre
                })
            },
            Instr::Ldxi => if pre.index + x >= MEM_SIZE {
                Err(Chip8Error::InvalidAddress)
            } else {
                Ok(MachineV {
                    regs: Seq::new(
                        16,
                        |i: int| if 0 <= i <= x {
                            pre.mem[pre.index + i]
                        } else {
                            r[i]
                        },
                    ),
                    pc: pc2,
                    ..pre
                })
            },
            Instr::Nai => Ok(MachineV { pc: pc2, ..pre }),
        }
    }
}

/// The strict form of the step: an unassigned bit pattern is an error
/// instead of a no-operation.
pub open spec fn spec_step_strict(pre: MachineV, b: u8) -> Result<MachineV, Chip8Error> {
    if pre.pc + 1 < MEM_SIZE && spec_instr_of(spec_word_at(pre.mem, pre.pc as int), pre.other_mode)
        == Instr::Nai {
        Err(Chip8Error::InvalidOpcode)
    } else {
        spec_step(pre, b)
    }
}

/// A step that goes through keeps the machine well-formed.
pub proof fn lemma_step_wf(pre: MachineV, b: u8)
    requires
        pre.wf(),
        spec_step(pre, b) is Ok,
    ensures
        spec_step(pre, b)->Ok_0.wf(),
{
    let code: u16 = spec_word_at(pre.mem, pre.pc as int);
    crate::opcode::lemma_field_bounds(code);
}

impl Chip8 {
    /// A fresh machine: everything zeroed, the program counter at the ROM
    /// start, and the font table copied into the bottom of memory.
    pub fn new() -> (r: Chip8)
        ensures
            r@.wf(),
            r@.regs == Seq::new(16, |i: int| 0u8),
            r@.index == 0,
            r@.delay == 0,
            r@.sound == 0,
            r@.pc == ROM_START,
            r@.sp == 0,
            r@.stack == Seq::new(16, |i: int| 0usize),
            forall|d: int| 0 <= d < 16 ==> #[trigger] r@.mem.subrange(5 * d, 5 * d + 5) == font_glyph(d),
            forall|j: int| 80 <= j < MEM_SIZE ==> r@.mem[j] == 0,
            r@.screen == Seq::new(SCREEN_BYTES as nat, |i: int| 0u8),
            r@.screen_size == (64u8, 32u8),
            r@.other_mode == false,
            r@.keys == Seq::new(16, |i: int| false),
            !r@.drawn,
            !r@.acked,
    {
        let mut screen: Vec<u8> = Vec::new();
        let mut i: usize = 0;
        while i < SCREEN_BYTES
            invariant
                i <= SCREEN_BYTES,
                screen@.len() == i,
                forall|j: int| 0 <= j < i ==> screen@[j] == 0,
            decreases SCREEN_BYTES - i,
        {
            screen.push(0);
            i = i + 1;
        }
        let mut chip8 = Chip8 {
            registers: [0; 16],
            index: 0,
            delay: 0,
            sound: 0,
            program_counter: 0x200,
            stack_pointer: 0,
            stack: [0; 16],
            memory: [0; 0xfff],
            screen_size: (64, 32),
            screen: screen,
            other_mode: false,
            keys: [false; 16],
            has_drawn: false,
            has_handled_draw: false,
        };

        chip8.add_letter(0x0, &[0xf0, 0x90, 0x90, 0x90, 0xf0]);
        chip8.add_letter(0x1, &[0x20, 0x60, 0x20, 0x20, 0x70]);
        chip8.add_letter(0x2, &[0xf0, 0x10, 0xf0, 0x80, 0xf0]);
        chip8.add_letter(0x3, &[0xf0, 0x10, 0xf0, 0x10, 0xf0]);
        chip8.add_letter(0x4, &[0x90, 0x90, 0xf0, 0x10, 0x10]);
        chip8.add_letter(0x5, &[0xf0, 0x80, 0xf0, 0x10, 0xf0]);
        chip8.add_letter(0x6, &[0xf0, 0x80, 0xf0, 0x90, 0xf0]);
        chip8.add_letter(0x7, &[0xf0, 0x10, 0x20, 0x40, 0x40]);
        chip8.add_letter(0x8, &[0xf0, 0x90, 0xf0, 0x90, 0xf0]);
        chip8.add_letter(0x9, &[0xf0, 0x90, 0xf0, 0x10, 0xf0]);
        chip8.add_letter(0xa, &[0xf0, 0x90, 0xf0, 0x90, 0x90]);
        chip8.add_letter(0xb, &[0xe0, 0x90, 0xe0, 0x90, 0xe0]);
        chip8.add_letter(0xc, &[0xf0, 0x80, 0x80, 0x80, 0xf0]);
        chip8.add_letter(0xd, &[0xe0, 0x90, 0x90, 0x90, 0xe0]);
        chip8.add_letter(0xe, &[0xf0, 0x80, 0xf0, 0x80, 0xf0]);
        chip8.add_letter(0xf, &[0xf0, 0x80, 0xf0, 0x80, 0x80]);

        proof {
            assert forall|d: int| 0 <= d < 16 implies #[trigger] chip8.memory@.subrange(
                5 * d,
                5 * d + 5,
            ) == font_glyph(d) by {
                assert(chip8.memory@.subrange(5 * d, 5 * d + 5) =~= font_glyph(d));
            }
            assert(chip8.registers@ =~= Seq::new(16, |i: int| 0u8));
            assert(chip8.stack@ =~= Seq::new(16, |i: int| 0usize));
            assert(chip8.screen@ =~= Seq::new(SCREEN_BYTES as nat, |i: int| 0u8));
            assert(chip8.keys@ =~= Seq::new(16, |i: int| false));
        }
        chip8
    }

    /// Copies one 5-byte font glyph into memory at `letter * 5`.
    fn add_letter(&mut self, letter: usize, sprite: &[u8; 5])
        requires
            letter < 16,
        ensures
            final(self).memory@.len() == old(self).memory@.len(),
            forall|j: int|
                0 <= j < MEM_SIZE && !(5 * letter <= j < 5 * letter + 5)
                    ==> final(self).memory@[j] == old(self).memory@[j],
            forall|k: int| 0 <= k < 5 ==> final(self).memory@[5 * letter + k] == sprite@[k],
            final(self).registers == old(self).registers,
            final(self).index == old(self).index,
            final(self).delay == old(self).delay,
            final(self).sound == old(self).sound,
            final(self).program_counter == old(self).program_counter,
            final(self).stack_pointer == old(self).stack_pointer,
            final(self).stack == old(self).stack,
            final(self).screen_size == old(self).screen_size,
            final(self).screen == old(self).screen,
            final(self).other_mode == old(self).other_mode,
            final(self).keys == old(self).keys,
            final(self).has_drawn == old(self).has_drawn,
            final(self).has_handled_draw == old(self).has_handled_draw,
    {
        let offset: usize = letter * 5;
        let mut i: usize = 0;
        while i < 5
            invariant
                i <= 5,
                offset == letter * 5,
                letter < 16,
                forall|j: int|
                    0 <= j < MEM_SIZE && !(offset <= j < offset + i)
                        ==> self.memory@[j] == old(self).memory@[j],
                forall|k: int| 0 <= k < i ==> self.memory@[offset + k] == sprite@[k],
                self.registers == old(self).registers,
                self.index == old(self).index,
                self.delay == old(self).delay,
                self.sound == old(self).sound,
                self.program_counter == old(self).program_counter,
                self.stack_pointer == old(self).stack_pointer,
                self.stack == old(self).stack,
                self.screen_size == old(self).screen_size,
                self.screen == old(self).screen,
                self.other_mode == old(self).other_mode,
                self.keys == old(self).keys,
                self.has_drawn == old(self).has_drawn,
                self.has_handled_draw == old(self).has_handled_draw,
            decreases 5 - i,
        {
            self.memory[offset + i] = sprite[i];
            i = i + 1;
        }
    }

    /// Copies a ROM into memory starting at `ROM_START`. Rejected with
    /// `RomTooLarge`, memory untouched, exactly when the ROM does not fit
    /// below the end of memory.
    pub fn load(&mut self, rom: Vec<u8>) -> (r: Result<(), Chip8Error>)
        ensures
            final(self)@.wf() == old(self)@.wf(),
            match r {
                Ok(()) => {
                    &&& rom@.len() <= MEM_SIZE - ROM_START
                    &&& final(self)@ == (MachineV {
                        mem: old(self)@.mem.subrange(0, ROM_START as int) + rom@
                            + old(self)@.mem.subrange(
                            ROM_START + rom@.len(),
                            old(self)@.mem.len() as int,
                        ),
                        ..old(self)@
                    })
                },
                Err(e) => {
                    &&& e == Chip8Error::RomTooLarge
                    &&& rom@.len() > MEM_SIZE - ROM_START
                    &&& final(self)@ == old(self)@
                },
            },
    {
        if rom.len() > MEM_SIZE - ROM_START {
            return Err(Chip8Error::RomTooLarge);
        }
        let mut i: usize = 0;
        while i < rom.len()
            invariant
                i <= rom@.len(),
                rom@.len() <= MEM_SIZE - ROM_START,
                forall|j: int|
                    0 <= j < MEM_SIZE && !(ROM_START <= j < ROM_START + i)
                        ==> self.memory@[j] == old(self).memory@[j],
                forall|k: int| 0 <= k < i ==> self.memory@[ROM_START + k] == rom@[k],
                self.registers == old(self).registers,
                self.index == old(self).index,
                self.delay == old(self).delay,
                self.sound == old(self).sound,
                self.program_counter == old(self).program_counter,
                self.stack_pointer == old(self).stack_pointer,
                self.stack == old(self).stack,
                self.screen_size == old(self).screen_size,
                self.screen == old(self).screen,
                self.other_mode == old(self).other_mode,
                self.keys == old(self).keys,
                self.has_drawn == old(self).has_drawn,
                self.has_handled_draw == old(self).has_handled_draw,
            decreases rom@.len() - i,
        {
            self.memory[ROM_START + i] = rom[i];
            i = i + 1;
        }
        proof {
            assert(self@ =~= (MachineV {
                mem: old(self)@.mem.subrange(0, ROM_START as int) + rom@ + old(self)@.mem.subrange(
                    ROM_START + rom@.len(),
                    old(self)@.mem.len() as int,
                ),
                ..old(self)@
            }));
        }
        Ok(())
    }

    /// One 60 Hz step: both timers count down by one, saturating at zero;
    /// the key pulses are cleared; and if the host has acknowledged the last
    /// draw, the draw flag is cleared along with the acknowledgement, so the
    /// host sees every distinct draw at least once.
    pub fn tick(&mut self)
        ensures
            final(self)@ == (MachineV {
                delay: if old(self)@.delay > 0 { (old(self)@.delay - 1) as u8 } else { 0u8 },
                sound: if old(self)@.sound > 0 { (old(self)@.sound - 1) as u8 } else { 0u8 },
                keys: Seq::new(16, |i: int| false),
                drawn: old(self)@.drawn && !old(self)@.acked,
                acked: false,
                ..old(self)@
            }),
            final(self)@.delay <= old(self)@.delay,
            final(self)@.sound <= old(self)@.sound,
    {
        self.delay = self.delay.saturating_sub(1);
        self.sound = self.sound.saturating_sub(1);
        let mut i: usize = 0;
        while i < 16
            invariant
                i <= 16,
                forall|j: int| 0 <= j < i ==> !self.keys@[j],
                forall|j: int| i <= j < 16 ==> self.keys@[j] == old(self).keys@[j],
                self.registers == old(self).registers,
                self.index == old(self).index,
                self.delay == old(self).delay.saturating_sub(1),
                self.sound == old(self).sound.saturating_sub(1),
                self.program_counter == old(self).program_counter,
                self.stack_pointer == old(self).stack_pointer,
                self.stack == old(self).stack,
                self.memory == old(self).memory,
                self.screen_size == old(self).screen_size,
                self.screen == old(self).screen,
                self.other_mode == old(self).other_mode,
                self.has_drawn == old(self).has_drawn,
                self.has_handled_draw == old(self).has_handled_draw,
            decreases 16 - i,
        {
            self.keys[i] = false;
            i = i + 1;
        }
        if self.has_handled_draw {
            self.has_drawn = false;
            self.has_handled_draw = false;
        }
        proof {
            assert(self.keys@ =~= Seq::new(16, |i: int| false));
            assert(self@ =~= (MachineV {
                delay: if old(self)@.delay > 0 { (old(self)@.delay - 1) as u8 } else { 0u8 },
                sound: if old(self)@.sound > 0 { (old(self)@.sound - 1) as u8 } else { 0u8 },
                keys: Seq::new(16, |i: int| false),
                drawn: old(self)@.drawn && !old(self)@.acked,
                acked: false,
                ..old(self)@
            }));
        }
    }

    /// Writes one key state; the host calls this for every key it sees down,
    /// once per frame, before stepping the machine.
    pub fn set_key(&mut self, key: usize, pressed: bool)
        requires
            key < 16,
        ensures
            final(self)@ == (MachineV { keys: old(self)@.keys.update(key as int, pressed), ..old(self)@ }),
    {
        self.keys[key] = pressed;
    }

    /// The packed framebuffer: 8 bytes per row, highest bit leftmost.
    pub fn framebuffer(&self) -> (r: &Vec<u8>)
        ensures
            r@ == self@.screen,
    {
        &self.screen
    }

    /// True when a screen-mutating instruction has run and the draw has not
    /// yet been cleared by the handshake.
    pub fn draw_ready(&self) -> (r: bool)
        ensures
            r == self@.drawn,
    {
        self.has_drawn
    }

    /// The host acknowledges that it has consumed the framebuffer; the next
    /// `tick` then lowers the draw flag.
    pub fn acknowledge_draw(&mut self)
        ensures
            final(self)@ == (MachineV { acked: true, ..old(self)@ }),
    {
        self.has_handled_draw = true;
    }

    /// The delay timer's current value.
    pub fn delay(&self) -> (r: u8)
        ensures
            r == self@.delay,
    {
        self.delay
    }

    /// The sound timer's current value.
    pub fn sound(&self) -> (r: u8)
        ensures
            r == self@.sound,
    {
        self.sound
    }


    /// Executes exactly one instruction: fetch the word at the program
    /// counter, decode it, run its handler, and advance. The contract is the
    /// step relation [`spec_step`]: on success the new machine is a step of
    /// the old one under some random byte; on failure the error is exactly
    /// what the step relation assigns and the machine is left as it was.
    pub fn clock(&mut self) -> (r: Result<(), Chip8Error>)
        requires
            old(self)@.wf(),
        ensures
            final(self)@.wf(),
            match r {
                Ok(()) => exists|b: u8|
                    #[trigger] spec_step(old(self)@, b) == Ok::<MachineV, Chip8Error>(final(self)@),
                Err(e) => {
                    &&& forall|b: u8|
                        #[trigger] spec_step(old(self)@, b) == Err::<MachineV, Chip8Error>(e)
                    &&& final(self)@ == old(self)@
                },
            },
    {
        if self.program_counter >= MEM_SIZE - 1 {
            return Err(Chip8Error::InvalidAddress);
        }
        let opcode = self.get_current_opcode();
        let instr = self.get_instruction(&opcode);
        let ghost pre = self@;
        let result: Result<(), Chip8Error> = match instr {
            Instr::Cls => {
                self.cls(&opcode);
                Ok(())
            },
            Instr::Ret => self.ret(&opcode),
            Instr::Jp => {
                self.jp(&opcode);
                Ok(())
            },
            Instr::Call => self.call(&opcode),
            Instr::Se => {
                self.se(&opcode);
                Ok(())
            },
            Instr::Sne => {
                self.sne(&opcode);
                Ok(())
            },
            Instr::Sey => {
                self.sey(&opcode);
                Ok(())
            },
            Instr::Ld => {
                self.ld(&opcode);
                Ok(())
            },
            Instr::Add => {
                self.add(&opcode);
                Ok(())
            },
            Instr::Ldy => {
                self.ldy(&opcode);
                Ok(())
            },
            Instr::Or => {
                self.or(&opcode);
                Ok(())
            },
            Instr::And => {
                self.and(&opcode);
                Ok(())
            },
            Instr::Xor => {
                self.xor(&opcode);
                Ok(())
            },
            Instr::Addy => {
                self.addy(&opcode);
                Ok(())
            },
            Instr::Sub => {
                self.sub(&opcode);
                Ok(())
            },
            Instr::Shr => {
                self.shr(&opcode);
                Ok(())
            },
            Instr::Shry => {
                self.shry(&opcode);
                Ok(())
            },
            Instr::Subn => {
                self.subn(&opcode);
                Ok(())
            },
            Instr::Shl => {
                self.shl(&opcode);
                Ok(())
            },
            Instr::Shly => {
                self.shly(&opcode);
                Ok(())
            },
            Instr::Sney => {
                self.sney(&opcode);
                Ok(())
            },
            Instr::Ldi => {
                self.ldi(&opcode);
                Ok(())
            },
            Instr::Jp0 => {
                self.jp0(&opcode);
                Ok(())
            },
            Instr::Rnd => {
                self.rnd(&opcode);
                Ok(())
            },
            Instr::Drw => self.drw(&opcode),
            Instr::Skp => self.skp(&opcode),
            Instr::Skpn => self.skpn(&opcode),
            Instr::Ldxdt => {
                self.ldxdt(&opcode);
                Ok(())
            },
            Instr::Ldk => {
                self.ldk(&opcode);
                Ok(())
            },
            Instr::Lddt => {
                self.lddt(&opcode);
                Ok(())
            },
            Instr::Ldst => {
                self.ldst(&opcode);
                Ok(())
            },
            Instr::Addi => self.addi(&opcode),
            Instr::Ldf => {
                self.ldf(&opcode);
                Ok(())
            },
            Instr::Ldb => self.ldb(&opcode),
            Instr::Ldix => self.ldix(&opcode),
            Instr::Ldxi => self.ldxi(&opcode),
            Instr::Nai => {
                self.nai(&opcode);
                self.program_counter = self.program_counter + 2;
                Ok(())
            },
        };
        proof {
            if result is Ok {
                if instr is Rnd {
                    let b = choose|b: u8|
                        self@ == (MachineV {
                            regs: pre.regs.update(opcode.x as int, #[trigger] (b & opcode.nn)),
                            pc: (pre.pc + 2) as usize,
                            ..pre
                        });
                    assert(spec_step(pre, b)->Ok_0 =~= self@);
                    assert(spec_step(pre, b) == Ok::<MachineV, Chip8Error>(self@));
                } else {
                    assert(spec_step(pre, 0u8)->Ok_0 =~= self@);
                    assert(spec_step(pre, 0u8) == Ok::<MachineV, Chip8Error>(self@));
                }
                let bw = choose|b: u8|
                    #[trigger] spec_step(pre, b) == Ok::<MachineV, Chip8Error>(self@);
                lemma_step_wf(pre, bw);
            } else {
                assert forall|b: u8|
                    #[trigger] spec_step(pre, b) == Err::<MachineV, Chip8Error>(
                        result->Err_0,
                    ) by {}
            }
        }
        result
    }

    /// Like [`clock`](Chip8::clock), but an unassigned bit pattern is not
    /// executed as a no-operation: it fails with `InvalidOpcode`, machine
    /// untouched, so a host can run a ROM under strict decoding.
    pub fn clock_strict(&mut self) -> (r: Result<(), Chip8Error>)
        requires
            old(self)@.wf(),
        ensures
            final(self)@.wf(),
            match r {
                Ok(()) => exists|b: u8|
                    #[trigger] spec_step_strict(old(self)@, b) == Ok::<MachineV, Chip8Error>(
                        final(self)@,
                    ),
                Err(e) => {
                    &&& forall|b: u8|
                        #[trigger] spec_step_strict(old(self)@, b) == Err::<MachineV, Chip8Error>(e)
                    &&& final(self)@ == old(self)@
                },
            },
    {
        if self.program_counter >= MEM_SIZE - 1 {
            return Err(Chip8Error::InvalidAddress);
        }
        let opcode = self.get_current_opcode();
        let instr = self.get_instruction(&opcode);
        if let Instr::Nai = instr {
            return Err(Chip8Error::InvalidOpcode);
        }
        let ghost pre = self@;
        let r = self.clock();
        proof {
            if r is Ok {
                let b = choose|b: u8|
                    #[trigger] spec_step(pre, b) == Ok::<MachineV, Chip8Error>(self@);
                assert(spec_step_strict(pre, b) == spec_step(pre, b));
            } else {
                assert forall|b: u8|
                    #[trigger] spec_step_strict(pre, b) == Err::<MachineV, Chip8Error>(
                        r->Err_0,
                    ) by {
                    assert(spec_step(pre, b) == Err::<MachineV, Chip8Error>(r->Err_0));
                }
            }
        }
        r
    }

    /// The parsed instruction word at the program counter.
    fn get_current_opcode(&self) -> (r: Opcode)
        requires
            self@.pc + 1 < MEM_SIZE,
        ensures
            r.code == spec_word_at(self@.mem, self@.pc as int),
            decoded(r),
            r.n < 16,
            r.nnn <= 0xfff,
            r.x < 16,
            r.y < 16,
    {
        let hi: u16 = self.memory[self.program_counter] as u16;
        let lo: u16 = self.memory[self.program_counter + 1] as u16;
        Opcode::new((hi << 8) | lo)
    }

    /// The handler selector for an opcode, under the machine's mode flag.
    fn get_instruction(&self, opcode: &Opcode) -> (r: Instr)
        ensures
            r == spec_instr_of(opcode.code, self@.other_mode),
    {
        self.parse_opcode(opcode).1
    }

    /// The diagnostic mnemonic of the instruction at a signed instruction
    /// offset from the program counter; reads only.
    pub fn get_relative_instruction(&self, relative: i32) -> (r: &'static str)
        requires
            0 <= self@.pc + 2 * relative,
            self@.pc + 2 * relative + 1 < MEM_SIZE,
        ensures
            r@ == spec_mnemonic(
                spec_instr_of(
                    spec_word_at(self@.mem, self@.pc + 2 * relative),
                    self@.other_mode,
                ),
            ),
    {
        let relative_address: usize = if relative < 0 {
            let magnitude: usize = (-(relative as i64)) as usize;
            self.program_counter - magnitude * 2
        } else {
            self.program_counter + (relative as usize) * 2
        };
        let hi: u16 = self.memory[relative_address] as u16;
        let lo: u16 = self.memory[relative_address + 1] as u16;
        let opcode = Opcode::new((hi << 8) | lo);
        self.parse_opcode(&opcode).0
    }

    /// The mnemonic and handler selector an instruction word maps to, the
    /// two shift rows resolved by the machine's mode flag.
    pub fn parse_opcode(&self, opcode: &Opcode) -> (r: (&'static str, Instr))
        ensures
            r.1 == spec_instr_of(opcode.code, self@.other_mode),
            r.0@ == spec_mnemonic(r.1),
    {
        proof {
            crate::opcode::lemma_field_bounds(opcode.code);
        }
        match opcode.code {
            0x00e0 => ("cls", Instr::Cls),
            0x00ee => ("ret", Instr::Ret),
            _ => match opcode.code >> 12 {
                0x1 => ("jp", Instr::Jp),
                0x2 => ("call", Instr::Call),
                0x3 => ("se", Instr::Se),
                0x4 => ("sne", Instr::Sne),
                0x5 => match opcode.code & 0xf {
                    0x0 => ("sey", Instr::Sey),
                    _ => ("nai", Instr::Nai),
                },
                0x6 => ("ld", Instr::Ld),
                0x7 => ("add", Instr::Add),
                0x8 => match opcode.code & 0xf {
                    0x0 => ("ldy", Instr::Ldy),
                    0x1 => ("or", Instr::Or),
                    0x2 => ("and", Instr::And),
                    0x3 => ("xor", Instr::Xor),
                    0x4 => ("addy", Instr::Addy),
                    0x5 => ("sub", Instr::Sub),
                    0x6 => if self.other_mode {
                        ("shr", Instr::Shr)
                    } else {
                        ("shry", Instr::Shry)
                    },
                    0x7 => ("subn", Instr::Subn),
                    0xe => if self.other_mode {
                        ("shl", Instr::Shl)
                    } else {
                        ("shly", Instr::Shly)
                    },
                    _ => ("nai", Instr::Nai),
                },
                0x9 => match opcode.code & 0xf {
                    0x0 => ("sney", Instr::Sney),
                    _ => ("nai", Instr::Nai),
                },
                0xa => ("ldi", Instr::Ldi),
                0xb => ("jp0", Instr::Jp0),
                0xc => ("rnd", Instr::Rnd),
                0xd => ("drw", Instr::Drw),
                0xe => match opcode.code & 0xff {
                    0x9e => ("skp", Instr::Skp),
                    0xa1 => ("skpn", Instr::Skpn),
                    _ => ("nai", Instr::Nai),
                },
                0xf => match opcode.code & 0xff {
                    0x07 => ("ldxdt", Instr::Ldxdt),
                    0x0a => ("ldk", Instr::Ldk),
                    0x15 => ("lddt", Instr::Lddt),
                    0x18 => ("ldst", Instr::Ldst),
                    0x1e => ("addi", Instr::Addi),
                    0x29 => ("ldf", Instr::Ldf),
                    0x33 => ("ldb", Instr::Ldb),
                    0x55 => ("ldix", Instr::Ldix),
                    0x65 => ("ldxi", Instr::Ldxi),
                    _ => ("nai", Instr::Nai),
                },
                _ => ("nai", Instr::Nai),
            },
        }
    }

    /// Not an instruction: the designated no-operation handler for
    /// unassigned bit patterns; it changes nothing.
    pub fn nai(&mut self, _opcode: &Opcode)
        ensures
            final(self)@ == old(self)@,
    {
    }

    /// The screen-clear instruction: every framebuffer byte to zero, the
    /// draw flag raised.
    fn cls(&mut self, _opcode: &Opcode)
        requires
            old(self)@.wf(),
            old(self)@.pc <= 0xffd,
        ensures
            final(self)@ == (MachineV {
                screen: Seq::new(SCREEN_BYTES as nat, |j: int| 0u8),
                drawn: true,
                pc: (old(self)@.pc + 2) as usize,
                ..old(self)@
            }),
    {
        self.has_drawn = true;
        let mut i: usize = 0;
        while i < SCREEN_BYTES
            invariant
                i <= SCREEN_BYTES,
                self.screen@.len() == SCREEN_BYTES,
                forall|j: int| 0 <= j < i ==> self.screen@[j] == 0,
                self.registers == old(self).registers,
                self.index == old(self).index,
                self.delay == old(self).delay,
                self.sound == old(self).sound,
                self.program_counter == old(self).program_counter,
                self.stack_pointer == old(self).stack_pointer,
                self.stack == old(self).stack,
                self.memory == old(self).memory,
                self.screen_size == old(self).screen_size,
                self.other_mode == old(self).other_mode,
                self.keys == old(self).keys,
                self.has_drawn,
                self.has_handled_draw == old(self).has_handled_draw,
            decreases SCREEN_BYTES - i,
        {
            self.screen.set(i, 0);
            i = i + 1;
        }
        self.program_counter = self.program_counter + 2;
        proof {
            assert(self.screen@ =~= Seq::new(SCREEN_BYTES as nat, |j: int| 0u8));
        }
    }

    /// The subroutine return: pop a return address, or fail on an empty
    /// stack with the machine untouched.
    fn ret(&mut self, _opcode: &Opcode) -> (r: Result<(), Chip8Error>)
        requires
            old(self)@.wf(),
            old(self)@.pc <= 0xffd,
        ensures
            match r {
                Ok(()) => old(self)@.sp > 0 && final(self)@ == (MachineV {
                    sp: (old(self)@.sp - 1) as usize,
                    pc: (old(self)@.stack[old(self)@.sp - 1] + 2) as usize,
                    ..old(self)@
                }),
                Err(e) => {
                    &&& e == Chip8Error::StackUnderflow
                    &&& old(self)@.sp == 0
                    &&& final(self)@ == old(self)@
                },
            },
    {
        if self.stack_pointer == 0 {
            return Err(Chip8Error::StackUnderflow);
        }
        self.stack_pointer = self.stack_pointer - 1;
        self.program_counter = self.stack[self.stack_pointer] + 2;
        Ok(())
    }

    /// The plain jump.
    fn jp(&mut self, opcode: &Opcode)
        ensures
            final(self)@ == (MachineV { pc: opcode.nnn as usize, ..old(self)@ }),
    {
        self.program_counter = opcode.nnn as usize;
    }

    /// The subroutine call: push the address of the call itself, or fail
    /// with every return slot in use and the machine untouched.
    fn call(&mut self, opcode: &Opcode) -> (r: Result<(), Chip8Error>)
        requires
            old(self)@.wf(),
            old(self)@.pc <= 0xffd,
        ensures
            match r {
                Ok(()) => old(self)@.sp < 16 && final(self)@ == (MachineV {
                    stack: old(self)@.stack.update(old(self)@.sp as int, old(self)@.pc),
                    sp: (old(self)@.sp + 1) as usize,
                    pc: opcode.nnn as usize,
                    ..old(self)@
                }),
                Err(e) => {
                    &&& e == Chip8Error::StackOverflow
                    &&& old(self)@.sp >= 16
                    &&& final(self)@ == old(self)@
                },
            },
    {
        if self.stack_pointer >= 16 {
            return Err(Chip8Error::StackOverflow);
        }
        self.stack[self.stack_pointer] = self.program_counter;
        self.stack_pointer = self.stack_pointer + 1;
        self.program_counter = opcode.nnn as usize;
        Ok(())
    }

    /// Skip the next instruction when `Vx` equals the immediate.
    fn se(&mut self, opcode: &Opcode)
        requires
            old(self)@.wf(),
            opcode.x < 16,
            old(self)@.pc <= 0xffd,
        ensures
            final(self)@ == (MachineV {
                pc: if old(self)@.regs[opcode.x as int] == opcode.nn {
                    (old(self)@.pc + 4) as usize
                } else {
                    (old(self)@.pc + 2) as usize
                },
                ..old(self)@
            }),
    {
        if self.registers[opcode.x as usize] == opcode.nn {
            self.program_counter = self.program_counter + 4;
        } else {
            self.program_counter = self.program_counter + 2;
        }
    }

    /// Skip the next instruction when `Vx` differs from the immediate.
    fn sne(&mut self, opcode: &Opcode)
        requires
            old(self)@.wf(),
            opcode.x < 16,
            old(self)@.pc <= 0xffd,
        ensures
            final(self)@ == (MachineV {
                pc: if old(self)@.regs[opcode.x as int] != opcode.nn {
                    (old(self)@.pc + 4) as usize
                } else {
                    (old(self)@.pc + 2) as usize
                },
                ..old(self)@
            }),
    {
        if self.registers[opcode.x as usize] != opcode.nn {
            self.program_counter = self.program_counter + 4;
        } else {
            self.program_counter = self.program_counter + 2;
        }
    }

    /// Skip the next instruction when `Vx` equals `Vy`.
    fn sey(&mut self, opcode: &Opcode)
        requires
            old(self)@.wf(),
            opcode.x < 16,
            opcode.y < 16,
            old(self)@.pc <= 0xffd,
        ensures
            final(self)@ == (MachineV {
                pc: if old(self)@.regs[opcode.x as int] == old(self)@.regs[opcode.y as int] {
                    (old(self)@.pc + 4) as usize
                } else {
                    (old(self)@.pc + 2) as usize
                },
                ..old(self)@
            }),
    {
        if self.registers[opcode.x as usize] == self.registers[opcode.y as usize] {
            self.program_counter = self.program_counter + 4;
        } else {
            self.program_counter = self.program_counter + 2;
        }
    }

    /// Skip the next instruction when `Vx` differs from `Vy`.
    fn sney(&mut self, opcode: &Opcode)
        requires
            old(self)@.wf(),
            opcode.x < 16,
            opcode.y < 16,
            old(self)@.pc <= 0xffd,
        ensures
            final(self)@ == (MachineV {
                pc: if old(self)@.regs[opcode.x as int] != old(self)@.regs[opcode.y as int] {
                    (old(self)@.pc + 4) as usize
                } else {
                    (old(self)@.pc + 2) as usize
                },
                ..old(self)@
            }),
    {
        if self.registers[opcode.x as usize] != self.registers[opcode.y as usize] {
            self.program_counter = self.program_counter + 4;
        } else {
            self.program_counter = self.program_counter + 2;
        }
    }

    /// Load the immediate into `Vx`.
    fn ld(&mut self, opcode: &Opcode)
        requires
            old(self)@.wf(),
            opcode.x < 16,
            old(self)@.pc <= 0xffd,
        ensures
            final(self)@ == (MachineV {
                regs: old(self)@.regs.update(opcode.x as int, opcode.nn),
                pc: (old(self)@.pc + 2) as usize,
                ..old(self)@
            }),
    {
        self.registers[opcode.x as usize] = opcode.nn;
        self.program_counter = self.program_counter + 2;
    }

    /// Add the immediate into `Vx`, wrapping, without touching the flag.
    fn add(&mut self, opcode: &Opcode)
        requires
            old(self)@.wf(),
            opcode.x < 16,
            old(self)@.pc <= 0xffd,
        ensures
            final(self)@ == (MachineV {
                regs: spec_add_regs(old(self)@.regs, opcode.x as int, opcode.nn),
                pc: (old(self)@.pc + 2) as usize,
                ..old(self)@
            }),
    {
        let vx: u8 = self.registers[opcode.x as usize];
        self.registers[opcode.x as usize] = vx.wrapping_add(opcode.nn);
        self.program_counter = self.program_counter + 2;
        proof {
            assert(vx.wrapping_add(opcode.nn) == wrap8(vx + opcode.nn));
        }
    }

    /// Copy `Vy` into `Vx`.
    fn ldy(&mut self, opcode: &Opcode)
        requires
            old(self)@.wf(),
            opcode.x < 16,
            opcode.y < 16,
            old(self)@.pc <= 0xffd,
        ensures
            final(self)@ == (MachineV {
                regs: old(self)@.regs.update(opcode.x as int, old(self)@.regs[opcode.y as int]),
                pc: (old(self)@.pc + 2) as usize,
                ..old(self)@
            }),
    {
        self.registers[opcode.x as usize] = self.registers[opcode.y as usize];
        self.program_counter = self.program_counter + 2;
    }

    /// Bitwise OR of `Vx` and `Vy` into `Vx`.
    fn or(&mut self, opcode: &Opcode)
        requires
            old(self)@.wf(),
            opcode.x < 16,
            opcode.y < 16,
            old(self)@.pc <= 0xffd,
        ensures
            final(self)@ == (MachineV {
                regs: old(self)@.regs.update(
                    opcode.x as int,
                    old(self)@.regs[opcode.x as int] | old(self)@.regs[opcode.y as int],
                ),
                pc: (old(self)@.pc + 2) as usize,
                ..old(self)@
            }),
    {
        let vx: u8 = self.registers[opcode.x as usize];
        self.registers[opcode.x as usize] = vx | self.registers[opcode.y as usize];
        self.program_counter = self.program_counter + 2;
    }

    /// Bitwise AND of `Vx` and `Vy` into `Vx`.
    fn and(&mut self, opcode: &Opcode)
        requires
            old(self)@.wf(),
            opcode.x < 16,
            opcode.y < 16,
            old(self)@.pc <= 0xffd,
        ensures
            final(self)@ == (MachineV {
                regs: old(self)@.regs.update(
                    opcode.x as int,
                    old(self)@.regs[opcode.x as int] & old(self)@.regs[opcode.y as int],
                ),
                pc: (old(self)@.pc + 2) as usize,
                ..old(self)@
            }),
    {
        let vx: u8 = self.registers[opcode.x as usize];
        self.registers[opcode.x as usize] = vx & self.registers[opcode.y as usize];
        self.program_counter = self.program_counter + 2;
    }

    /// Bitwise XOR of `Vx` and `Vy` into `Vx`.
    fn xor(&mut self, opcode: &Opcode)
        requires
            old(self)@.wf(),
            opcode.x < 16,
            opcode.y < 16,
            old(self)@.pc <= 0xffd,
        ensures
            final(self)@ == (MachineV {
                regs: old(self)@.regs.update(
                    opcode.x as int,
                    old(self)@.regs[opcode.x as int] ^ old(self)@.regs[opcode.y as int],
                ),
                pc: (old(self)@.pc + 2) as usize,
                ..old(self)@
            }),
    {
        let vx: u8 = self.registers[opcode.x as usize];
        self.registers[opcode.x as usize] = vx ^ self.registers[opcode.y as usize];
        self.program_counter = self.program_counter + 2;
    }

    /// Add `Vy` into `Vx` with the carry in the flag.
    fn addy(&mut self, opcode: &Opcode)
        requires
            old(self)@.wf(),
            opcode.x < 16,
            opcode.y < 16,
            old(self)@.pc <= 0xffd,
        ensures
            final(self)@ == (MachineV {
                regs: spec_addy_regs(old(self)@.regs, opcode.x as int, opcode.y as int),
                pc: (old(self)@.pc + 2) as usize,
                ..old(self)@
            }),
    {
        self.registers[0xf] = 0;
        let vx: u8 = self.registers[opcode.x as usize];
        let vy: u8 = self.registers[opcode.y as usize];
        let sum: u16 = vx as u16 + vy as u16;
        self.registers[opcode.x as usize] = (sum % 256) as u8;
        if sum >= 256 {
            self.registers[0xf] = 1;
        }
        self.program_counter = self.program_counter + 2;
    }

    /// Subtract `Vy` from `Vx`; the flag is raised when no borrow occurs.
    fn sub(&mut self, opcode: &Opcode)
        requires
            old(self)@.wf(),
            opcode.x < 16,
            opcode.y < 16,
            old(self)@.pc <= 0xffd,
        ensures
            final(self)@ == (MachineV {
                regs: spec_sub_regs(old(self)@.regs, opcode.x as int, opcode.y as int),
                pc: (old(self)@.pc + 2) as usize,
                ..old(self)@
            }),
    {
        self.registers[0xf] = 0;
        let vx: u8 = self.registers[opcode.x as usize];
        let vy: u8 = self.registers[opcode.y as usize];
        if vx >= vy {
            self.registers[opcode.x as usize] = vx - vy;
            self.registers[0xf] = 1;
        } else {
            self.registers[opcode.x as usize] = ((vx as u16 + 256) - vy as u16) as u8;
        }
        self.program_counter = self.program_counter + 2;
    }

    /// Subtract `Vx` from `Vy` into `Vx`; the flag is raised when no borrow
    /// occurs.
    fn subn(&mut self, opcode: &Opcode)
        requires
            old(self)@.wf(),
            opcode.x < 16,
            opcode.y < 16,
            old(self)@.pc <= 0xffd,
        ensures
            final(self)@ == (MachineV {
                regs: spec_subn_regs(old(self)@.regs, opcode.x as int, opcode.y as int),
                pc: (old(self)@.pc + 2) as usize,
                ..old(self)@
            }),
    {
        self.registers[0xf] = 0;
        let vx: u8 = self.registers[opcode.x as usize];
        let vy: u8 = self.registers[opcode.y as usize];
        if vy >= vx {
            self.registers[opcode.x as usize] = vy - vx;
            self.registers[0xf] = 1;
        } else {
            self.registers[opcode.x as usize] = ((vy as u16 + 256) - vx as u16) as u8;
        }
        self.program_counter = self.program_counter + 2;
    }

    /// Shift `Vx` right by one; the bit shifted out goes to the flag.
    fn shr(&mut self, opcode: &Opcode)
        requires
            old(self)@.wf(),
            opcode.x < 16,
            old(self)@.pc <= 0xffd,
        ensures
            final(self)@ == (MachineV {
                regs: spec_shr_regs(old(self)@.regs, opcode.x as int),
                pc: (old(self)@.pc + 2) as usize,
                ..old(self)@
            }),
    {
        self.registers[0xf] = 0;
        if self.registers[opcode.x as usize] & 0b1 == 1 {
            self.registers[0xf] = 1;
        }
        let vx: u8 = self.registers[opcode.x as usize];
        self.registers[opcode.x as usize] = vx >> 1;
        self.program_counter = self.program_counter + 2;
    }

    /// Legacy shift right: the bit shifted out of `Vy` goes to the flag and
    /// `Vx` receives the shifted `Vy`.
    fn shry(&mut self, opcode: &Opcode)
        requires
            old(self)@.wf(),
            opcode.x < 16,
            opcode.y < 16,
            old(self)@.pc <= 0xffd,
        ensures
            final(self)@ == (MachineV {
                regs: spec_shry_regs(old(self)@.regs, opcode.x as int, opcode.y as int),
                pc: (old(self)@.pc + 2) as usize,
                ..old(self)@
            }),
    {
        self.registers[0xf] = 0;
        if self.registers[opcode.y as usize] & 0b1 == 1 {
            self.registers[0xf] = 1;
        }
        let vy: u8 = self.registers[opcode.y as usize];
        self.registers[opcode.x as usize] = vy >> 1;
        self.program_counter = self.program_counter + 2;
    }

    /// Shift `Vx` left by one; the bit shifted out goes to the flag.
    fn shl(&mut self, opcode: &Opcode)
        requires
            old(self)@.wf(),
            opcode.x < 16,
            old(self)@.pc <= 0xffd,
        ensures
            final(self)@ == (MachineV {
                regs: spec_shl_regs(old(self)@.regs, opcode.x as int),
                pc: (old(self)@.pc + 2) as usize,
                ..old(self)@
            }),
    {
        self.registers[0xf] = 0;
        if self.registers[opcode.x as usize] & 0b10000000 != 0 {
            self.registers[0xf] = 1;
        }
        let vx: u8 = self.registers[opcode.x as usize];
        self.registers[opcode.x as usize] = vx << 1;
        self.program_counter = self.program_counter + 2;
    }

    /// Legacy shift left: the bit shifted out of `Vy` goes to the flag and
    /// `Vx` receives the shifted `Vy`.
    fn shly(&mut self, opcode: &Opcode)
        requires
            old(self)@.wf(),
            opcode.x < 16,
            opcode.y < 16,
            old(self)@.pc <= 0xffd,
        ensures
            final(self)@ == (MachineV {
                regs: spec_shly_regs(old(self)@.regs, opcode.x as int, opcode.y as int),
                pc: (old(self)@.pc + 2) as usize,
                ..old(self)@
            }),
    {
        self.registers[0xf] = 0;
        if self.registers[opcode.y as usize] & 0b10000000 != 0 {
            self.registers[0xf] = 1;
        }
        let vy: u8 = self.registers[opcode.y as usize];
        self.registers[opcode.x as usize] = vy << 1;
        self.program_counter = self.program_counter + 2;
    }

    /// Load the 12-bit immediate into the index register.
    fn ldi(&mut self, opcode: &Opcode)
        requires
            old(self)@.wf(),
            old(self)@.pc <= 0xffd,
        ensures
            final(self)@ == (MachineV {
                index: opcode.nnn as usize,
                pc: (old(self)@.pc + 2) as usize,
                ..old(self)@
            }),
    {
        self.index = opcode.nnn as usize;
        self.program_counter = self.program_counter + 2;
    }

    /// Jump to the immediate plus `V0`.
    fn jp0(&mut self, opcode: &Opcode)
        requires
            old(self)@.wf(),
            opcode.nnn <= 0xfff,
        ensures
            final(self)@ == (MachineV {
                pc: (opcode.nnn + old(self)@.regs[0]) as usize,
                ..old(self)@
            }),
    {
        self.program_counter = opcode.nnn as usize + self.registers[0] as usize;
    }

    /// Skip the next instruction when the key named by `Vx` is pressed, or
    /// fail when `Vx` does not name one of the 16 keys.
    fn skp(&mut self, opcode: &Opcode) -> (r: Result<(), Chip8Error>)
        requires
            old(self)@.wf(),
            opcode.x < 16,
            old(self)@.pc <= 0xffd,
        ensures
            match r {
                Ok(()) => old(self)@.regs[opcode.x as int] < 16 && final(self)@ == (MachineV {
                    pc: if old(self)@.keys[old(self)@.regs[opcode.x as int] as int] {
                        (old(self)@.pc + 4) as usize
                    } else {
                        (old(self)@.pc + 2) as usize
                    },
                    ..old(self)@
                }),
                Err(e) => {
                    &&& e == Chip8Error::InvalidAddress
                    &&& old(self)@.regs[opcode.x as int] >= 16
                    &&& final(self)@ == old(self)@
                },
            },
    {
        let vx: u8 = self.registers[opcode.x as usize];
        if vx >= 16 {
            return Err(Chip8Error::InvalidAddress);
        }
        if self.keys[vx as usize] {
            self.program_counter = self.program_counter + 4;
        } else {
            self.program_counter = self.program_counter + 2;
        }
        Ok(())
    }

    /// Skip the next instruction when the key named by `Vx` is not pressed,
    /// or fail when `Vx` does not name one of the 16 keys.
    fn skpn(&mut self, opcode: &Opcode) -> (r: Result<(), Chip8Error>)
        requires
            old(self)@.wf(),
            opcode.x < 16,
            old(self)@.pc <= 0xffd,
        ensures
            match r {
                Ok(()) => old(self)@.regs[opcode.x as int] < 16 && final(self)@ == (MachineV {
                    pc: if !old(self)@.keys[old(self)@.regs[opcode.x as int] as int] {
                        (old(self)@.pc + 4) as usize
                    } else {
                        (old(self)@.pc + 2) as usize
                    },
                    ..old(self)@
                }),
                Err(e) => {
                    &&& e == Chip8Error::InvalidAddress
                    &&& old(self)@.regs[opcode.x as int] >= 16
                    &&& final(self)@ == old(self)@
                },
            },
    {
        let vx: u8 = self.registers[opcode.x as usize];
        if vx >= 16 {
            return Err(Chip8Error::InvalidAddress);
        }
        if !self.keys[vx as usize] {
            self.program_counter = self.program_counter + 4;
        } else {
            self.program_counter = self.program_counter + 2;
        }
        Ok(())
    }

    /// Read the delay timer into `Vx`.
    fn ldxdt(&mut self, opcode: &Opcode)
        requires
            old(self)@.wf(),
            opcode.x < 16,
            old(self)@.pc <= 0xffd,
        ensures
            final(self)@ == (MachineV {
                regs: old(self)@.regs.update(opcode.x as int, old(self)@.delay),
                pc: (old(self)@.pc + 2) as usize,
                ..old(self)@
            }),
    {
        self.registers[opcode.x as usize] = self.delay;
        self.program_counter = self.program_counter + 2;
    }

    /// Wait for a key: when some key is pressed, the lowest one goes into
    /// `Vx` and execution proceeds; otherwise the whole machine is left
    /// untouched, so the same instruction runs again on the next step.
    fn ldk(&mut self, opcode: &Opcode)
        requires
            old(self)@.wf(),
            opcode.x < 16,
            old(self)@.pc <= 0xffd,
        ensures
            final(self)@ == (if spec_first_key(old(self)@.keys, 0) < 16 {
                MachineV {
                    regs: old(self)@.regs.update(
                        opcode.x as int,
                        spec_first_key(old(self)@.keys, 0) as u8,
                    ),
                    pc: (old(self)@.pc + 2) as usize,
                    ..old(self)@
                }
            } else {
                old(self)@
            }),
    {
        let mut wait = true;
        let mut i: usize = 0;
        while i < 16
            invariant
                old(self)@.wf(),
                opcode.x < 16,
                i <= 16,
                wait ==> self@ == old(self)@,
                wait ==> forall|j: int| 0 <= j < i ==> !old(self)@.keys[j],
                !wait ==> {
                    &&& spec_first_key(old(self)@.keys, 0) < 16
                    &&& self@ == (MachineV {
                        regs: old(self)@.regs.update(
                            opcode.x as int,
                            spec_first_key(old(self)@.keys, 0) as u8,
                        ),
                        ..old(self)@
                    })
                },
            decreases 16 - i,
        {
            if wait && self.keys[i] {
                proof {
                    lemma_first_key_finds(old(self)@.keys, 0, i as int);
                }
                wait = false;
                self.registers[opcode.x as usize] = i as u8;
            }
            i = i + 1;
        }
        if !wait {
            self.program_counter = self.program_counter + 2;
        } else {
            proof {
                lemma_first_key_none(old(self)@.keys, 0);
            }
        }
    }


    /// Set `Vx` to a random byte masked by the immediate.
    fn rnd(&mut self, opcode: &Opcode)
        requires
            old(self)@.wf(),
            opcode.x < 16,
            old(self)@.pc <= 0xffd,
        ensures
            exists|b: u8|
                final(self)@ == (MachineV {
                    regs: old(self)@.regs.update(opcode.x as int, #[trigger] (b & opcode.nn)),
                    pc: (old(self)@.pc + 2) as usize,
                    ..old(self)@
                }),
    {
        let byte: u8 = random_byte();
        self.registers[opcode.x as usize] = byte & opcode.nn;
        self.program_counter = self.program_counter + 2;
        proof {
            assert(self@ == (MachineV {
                regs: old(self)@.regs.update(opcode.x as int, byte & opcode.nn),
                pc: (old(self)@.pc + 2) as usize,
                ..old(self)@
            }));
        }
    }

    /// Draw the `n`-byte sprite at the index register at `(Vx, Vy)`:
    /// each sprite row is XOR-blitted into at most two screen bytes with
    /// horizontal and vertical wrap-around, the flag reports whether any lit
    /// pixel was hit, and the draw flag is raised. Fails, machine untouched,
    /// when the sprite bytes would be read past the end of memory.
    fn drw(&mut self, opcode: &Opcode) -> (r: Result<(), Chip8Error>)
        requires
            old(self)@.wf(),
            opcode.x < 16,
            opcode.y < 16,
            opcode.n < 16,
            old(self)@.pc <= 0xffd,
        ensures
            match r {
                Ok(()) => old(self)@.index + opcode.n <= MEM_SIZE && final(self)@ == (MachineV {
                    regs: old(self)@.regs.update(
                        15,
                        if spec_draw_coll(
                            old(self)@.screen,
                            old(self)@.mem,
                            old(self)@.index as int,
                            old(self)@.regs.update(15, 0u8)[opcode.x as int],
                            old(self)@.regs.update(15, 0u8)[opcode.y as int],
                            opcode.n as int,
                        ) {
                            1u8
                        } else {
                            0u8
                        },
                    ),
                    screen: crate::draw::spec_draw_screen(
                        old(self)@.screen,
                        old(self)@.mem,
                        old(self)@.index as int,
                        old(self)@.regs.update(15, 0u8)[opcode.x as int],
                        old(self)@.regs.update(15, 0u8)[opcode.y as int],
                        opcode.n as int,
                    ),
                    drawn: true,
                    pc: (old(self)@.pc + 2) as usize,
                    ..old(self)@
                }),
                Err(e) => {
                    &&& e == Chip8Error::InvalidAddress
                    &&& old(self)@.index + opcode.n > MEM_SIZE
                    &&& final(self)@ == old(self)@
                },
            },
    {
        if self.index > MEM_SIZE - opcode.n as usize {
            return Err(Chip8Error::InvalidAddress);
        }
        self.has_drawn = true;
        self.registers[0xf] = 0;
        let vx: u8 = self.registers[opcode.x as usize];
        let vy: u8 = self.registers[opcode.y as usize];
        let ghost pre = old(self)@;
        let ghost pindex = old(self)@.index as int;
        let mut collided = false;
        let mut i: usize = 0;
        proof {
            crate::draw::lemma_xor_basics();
        }
        while i < opcode.n as usize
            invariant
                pre.wf(),
                pre == old(self)@,
                pindex == pre.index as int,
                opcode.x < 16,
                opcode.y < 16,
                opcode.n < 16,
                i <= opcode.n,
                pre.index + opcode.n <= MEM_SIZE,
                vx == pre.regs.update(15, 0u8)[opcode.x as int],
                vy == pre.regs.update(15, 0u8)[opcode.y as int],
                self.screen@.len() == SCREEN_BYTES,
                forall|j: int|
                    0 <= j < SCREEN_BYTES ==> self.screen@[j] == pre.screen[j] ^ spec_draw_mask(
                        pre.mem,
                        pindex,
                        vx,
                        vy,
                        i as int,
                        j,
                    ),
                collided == spec_draw_coll(pre.screen, pre.mem, pindex, vx, vy, i as int),
                self.registers@ == pre.regs.update(15, 0u8),
                self.index == old(self).index,
                self.delay == old(self).delay,
                self.sound == old(self).sound,
                self.program_counter == old(self).program_counter,
                self.stack_pointer == old(self).stack_pointer,
                self.stack == old(self).stack,
                self.memory == old(self).memory,
                self.screen_size == old(self).screen_size,
                self.other_mode == old(self).other_mode,
                self.keys == old(self).keys,
                self.has_drawn,
                self.has_handled_draw == old(self).has_handled_draw,
            decreases opcode.n as int - i,
        {
            let sprite: u8 = self.memory[self.index + i];
            let row: usize = ((vy as usize) + i) % 32;
            let col: usize = ((vx / 8) % 8) as usize;
            let shift: u8 = vx % 8;
            let p1: usize = row * 8 + col;
            let m1: u8 = sprite >> shift;
            proof {
                crate::draw::lemma_xor_basics();
                crate::draw::lemma_positions(vx, vy, i as int);
                assert forall|i2: int| 0 <= i2 < i implies #[trigger] crate::draw::spec_row(vy, i2)
                    != crate::draw::spec_p1(vx, vy, i as int) / 8 by {
                    crate::draw::lemma_rows_distinct(vy, i2, i as int);
                }
                crate::draw::lemma_mask_off_rows(
                    pre.mem,
                    pindex,
                    vx,
                    vy,
                    i as int,
                    crate::draw::spec_p1(vx, vy, i as int),
                );
                assert forall|i2: int| 0 <= i2 < i implies #[trigger] crate::draw::spec_row(vy, i2)
                    != crate::draw::spec_p2(vx, vy, i as int) / 8 by {
                    crate::draw::lemma_rows_distinct(vy, i2, i as int);
                }
                crate::draw::lemma_mask_off_rows(
                    pre.mem,
                    pindex,
                    vx,
                    vy,
                    i as int,
                    crate::draw::spec_p2(vx, vy, i as int),
                );
                assert(row * 8 + col == crate::draw::spec_p1(vx, vy, i as int));
            }
            if self.screen[p1] & m1 != 0 {
                collided = true;
            }
            let s1: u8 = self.screen[p1] ^ m1;
            self.screen.set(p1, s1);
            if shift != 0 {
                let p2: usize = row * 8 + ((col + 1) % 8);
                let m2: u8 = sprite << ((8 - shift) as u8);
                proof {
                    assert(row * 8 + ((col + 1) % 8) == crate::draw::spec_p2(vx, vy, i as int));
                }
                if self.screen[p2] & m2 != 0 {
                    collided = true;
                }
                let s2: u8 = self.screen[p2] ^ m2;
                self.screen.set(p2, s2);
            }
            i = i + 1;
            proof {
                assert forall|j: int|
                    0 <= j < SCREEN_BYTES implies self.screen@[j] == pre.screen[j]
                    ^ spec_draw_mask(pre.mem, pindex, vx, vy, i as int, j) by {
                    crate::draw::lemma_xor_basics();
                }
                assert(collided == spec_draw_coll(pre.screen, pre.mem, pindex, vx, vy, i as int));
            }
        }
        if collided {
            self.registers[0xf] = 1;
        } else {
            self.registers[0xf] = 0;
        }
        self.program_counter = self.program_counter + 2;
        proof {
            assert(self.registers@ =~= pre.regs.update(
                15,
                if spec_draw_coll(pre.screen, pre.mem, pindex, vx, vy, opcode.n as int) {
                    1u8
                } else {
                    0u8
                },
            ));
            assert(self.screen@ =~= crate::draw::spec_draw_screen(
                pre.screen,
                pre.mem,
                pindex,
                vx,
                vy,
                opcode.n as int,
            ));
        }
        Ok(())
    }

    /// Load the delay timer from `Vx`.
    fn lddt(&mut self, opcode: &Opcode)
        requires
            old(self)@.wf(),
            opcode.x < 16,
            old(self)@.pc <= 0xffd,
        ensures
            final(self)@ == (MachineV {
                delay: old(self)@.regs[opcode.x as int],
                pc: (old(self)@.pc + 2) as usize,
                ..old(self)@
            }),
    {
        self.delay = self.registers[opcode.x as usize];
        self.program_counter = self.program_counter + 2;
    }

    /// Load the sound timer from `Vx`.
    fn ldst(&mut self, opcode: &Opcode)
        requires
            old(self)@.wf(),
            opcode.x < 16,
            old(self)@.pc <= 0xffd,
        ensures
            final(self)@ == (MachineV {
                sound: old(self)@.regs[opcode.x as int],
                pc: (old(self)@.pc + 2) as usize,
                ..old(self)@
            }),
    {
        self.sound = self.registers[opcode.x as usize];
        self.program_counter = self.program_counter + 2;
    }

    /// Add `Vx` to the index register, or fail when the result would point
    /// past the end of memory, leaving the machine untouched.
    fn addi(&mut self, opcode: &Opcode) -> (r: Result<(), Chip8Error>)
        requires
            old(self)@.wf(),
            opcode.x < 16,
            old(self)@.pc <= 0xffd,
        ensures
            match r {
                Ok(()) => old(self)@.index + old(self)@.regs[opcode.x as int] < MEM_SIZE
                    && final(self)@ == (MachineV {
                    index: (old(self)@.index + old(self)@.regs[opcode.x as int]) as usize,
                    pc: (old(self)@.pc + 2) as usize,
                    ..old(self)@
                }),
                Err(e) => {
                    &&& e == Chip8Error::InvalidAddress
                    &&& old(self)@.index + old(self)@.regs[opcode.x as int] >= MEM_SIZE
                    &&& final(self)@ == old(self)@
                },
            },
    {
        let vx: usize = self.registers[opcode.x as usize] as usize;
        if self.index >= MEM_SIZE - vx {
            return Err(Chip8Error::InvalidAddress);
        }
        self.index = self.index + vx;
        self.program_counter = self.program_counter + 2;
        Ok(())
    }

    /// Point the index register at the font glyph of digit `Vx`.
    fn ldf(&mut self, opcode: &Opcode)
        requires
            old(self)@.wf(),
            opcode.x < 16,
            old(self)@.pc <= 0xffd,
        ensures
            final(self)@ == (MachineV {
                index: (old(self)@.regs[opcode.x as int] * 5) as usize,
                pc: (old(self)@.pc + 2) as usize,
                ..old(self)@
            }),
    {
        self.index = self.registers[opcode.x as usize] as usize * 5;
        self.program_counter = self.program_counter + 2;
    }

    /// Write the three decimal digits of `Vx` at the index register, or
    /// fail when they would not fit below the end of memory.
    fn ldb(&mut self, opcode: &Opcode) -> (r: Result<(), Chip8Error>)
        requires
            old(self)@.wf(),
            opcode.x < 16,
            old(self)@.pc <= 0xffd,
        ensures
            match r {
                Ok(()) => old(self)@.index + 2 < MEM_SIZE && final(self)@ == (MachineV {
                    mem: old(self)@.mem.update(
                        old(self)@.index as int,
                        (old(self)@.regs[opcode.x as int] as int / 100) as u8,
                    ).update(
                        old(self)@.index + 1,
                        ((old(self)@.regs[opcode.x as int] as int / 10) % 10) as u8,
                    ).update(
                        old(self)@.index + 2,
                        (old(self)@.regs[opcode.x as int] as int % 10) as u8,
                    ),
                    pc: (old(self)@.pc + 2) as usize,
                    ..old(self)@
                }),
                Err(e) => {
                    &&& e == Chip8Error::InvalidAddress
                    &&& old(self)@.index + 2 >= MEM_SIZE
                    &&& final(self)@ == old(self)@
                },
            },
    {
        if self.index >= MEM_SIZE - 2 {
            return Err(Chip8Error::InvalidAddress);
        }
        let vx: u8 = self.registers[opcode.x as usize];
        self.memory[self.index] = vx / 100;
        self.memory[self.index + 1] = (vx / 10) % 10;
        self.memory[self.index + 2] = vx % 10;
        self.program_counter = self.program_counter + 2;
        Ok(())
    }

    /// Copy `V0..=Vx` into memory at the index register, which stays as it
    /// is; fails when the block would not fit below the end of memory.
    fn ldix(&mut self, opcode: &Opcode) -> (r: Result<(), Chip8Error>)
        requires
            old(self)@.wf(),
            opcode.x < 16,
            old(self)@.pc <= 0xffd,
        ensures
            match r {
                Ok(()) => old(self)@.index + opcode.x < MEM_SIZE && final(self)@ == (MachineV {
                    mem: Seq::new(
                        old(self)@.mem.len(),
                        |j: int|
                            if old(self)@.index <= j <= old(self)@.index + opcode.x {
                                old(self)@.regs[j - old(self)@.index]
                            } else {
                                old(self)@.mem[j]
                            },
                    ),
                    pc: (old(self)@.pc + 2) as usize,
                    ..old(self)@
                }),
                Err(e) => {
                    &&& e == Chip8Error::InvalidAddress
                    &&& old(self)@.index + opcode.x >= MEM_SIZE
                    &&& final(self)@ == old(self)@
                },
            },
    {
        if self.index >= MEM_SIZE - opcode.x as usize {
            return Err(Chip8Error::InvalidAddress);
        }
        let mut i: usize = 0;
        while i <= opcode.x as usize
            invariant
                old(self)@.wf(),
                opcode.x < 16,
                i <= opcode.x + 1,
                old(self)@.index + opcode.x < MEM_SIZE,
                forall|j: int|
                    0 <= j < MEM_SIZE && !(old(self)@.index <= j < old(self)@.index + i)
                        ==> self.memory@[j] == old(self)@.mem[j],
                forall|k: int|
                    0 <= k < i ==> self.memory@[old(self)@.index + k] == old(self)@.regs[k],
                self.registers == old(self).registers,
                self.index == old(self).index,
                self.delay == old(self).delay,
                self.sound == old(self).sound,
                self.program_counter == old(self).program_counter,
                self.stack_pointer == old(self).stack_pointer,
                self.stack == old(self).stack,
                self.screen_size == old(self).screen_size,
                self.screen == old(self).screen,
                self.other_mode == old(self).other_mode,
                self.keys == old(self).keys,
                self.has_drawn == old(self).has_drawn,
                self.has_handled_draw == old(self).has_handled_draw,
            decreases opcode.x as int + 1 - i,
        {
            self.memory[self.index + i] = self.registers[i];
            i = i + 1;
        }
        self.program_counter = self.program_counter + 2;
        proof {
            assert(self.memory@ =~= Seq::new(
                old(self)@.mem.len(),
                |j: int|
                    if old(self)@.index <= j <= old(self)@.index + opcode.x {
                        old(self)@.regs[j - old(self)@.index]
                    } else {
                        old(self)@.mem[j]
                    },
            ));
        }
        Ok(())
    }

    /// Load `V0..=Vx` from memory at the index register, which stays as it
    /// is; fails when the block would not fit below the end of memory.
    fn ldxi(&mut self, opcode: &Opcode) -> (r: Result<(), Chip8Error>)
        requires
            old(self)@.wf(),
            opcode.x < 16,
            old(self)@.pc <= 0xffd,
        ensures
            match r {
                Ok(()) => old(self)@.index + opcode.x < MEM_SIZE && final(self)@ == (MachineV {
                    regs: Seq::new(
                        16,
                        |i: int|
                            if 0 <= i <= opcode.x {
                                old(self)@.mem[old(self)@.index + i]
                            } else {
                                old(self)@.regs[i]
                            },
                    ),
                    pc: (old(self)@.pc + 2) as usize,
                    ..old(self)@
                }),
                Err(e) => {
                    &&& e == Chip8Error::InvalidAddress
                    &&& old(self)@.index + opcode.x >= MEM_SIZE
                    &&& final(self)@ == old(self)@
                },
            },
    {
        if self.index >= MEM_SIZE - opcode.x as usize {
            return Err(Chip8Error::InvalidAddress);
        }
        let mut i: usize = 0;
        while i <= opcode.x as usize
            invariant
                old(self)@.wf(),
                opcode.x < 16,
                i <= opcode.x + 1,
                old(self)@.index + opcode.x < MEM_SIZE,
                forall|k: int| 0 <= k < i ==> self.registers@[k] == old(self)@.mem[old(self)@.index + k],
                forall|k: int| i <= k < 16 ==> self.registers@[k] == old(self)@.regs[k],
                self.index == old(self).index,
                self.delay == old(self).delay,
                self.sound == old(self).sound,
                self.program_counter == old(self).program_counter,
                self.stack_pointer == old(self).stack_pointer,
                self.stack == old(self).stack,
                self.memory == old(self).memory,
                self.screen_size == old(self).screen_size,
                self.screen == old(self).screen,
                self.other_mode == old(self).other_mode,
                self.keys == old(self).keys,
                self.has_drawn == old(self).has_drawn,
                self.has_handled_draw == old(self).has_handled_draw,
            decreases opcode.x as int + 1 - i,
        {
            self.registers[i] = self.memory[self.index + i];
            i = i + 1;
        }
        self.program_counter = self.program_counter + 2;
        proof {
            assert(self.registers@ =~= Seq::new(
                16,
                |i: int|
                    if 0 <= i <= opcode.x {
                        old(self)@.mem[old(self)@.index + i]
                    } else {
                        old(self)@.regs[i]
                    },
            ));
        }
        Ok(())
    }
}

} // verus!

