use vstd::prelude::*;
use crate::opcode::{spec_n, spec_nn};

verus! {

/// One instruction of the set, or `Nai` ("not an instruction") for a bit
/// pattern that the published opcode table leaves unassigned; such a pattern
/// is executed as a no-operation so that data words inside a ROM never abort
/// a run, and a caller that wants strict decoding can ask for it instead.
#[derive(Clone, Copy, PartialEq, Eq, Structural, Debug)]
pub enum Instr {
    /// `00e0`: clear the screen.
    Cls,
    /// `00ee`: return from a subroutine.
    Ret,
    /// `1nnn`: jump to `nnn`.
    Jp,
    /// `2nnn`: call the subroutine at `nnn`.
    Call,
    /// `3xnn`: skip the next instruction if `Vx == nn`.
    Se,
    /// `4xnn`: skip the next instruction if `Vx != nn`.
    Sne,
    /// `5xy0`: skip the next instruction if `Vx == Vy`.
    Sey,
    /// `6xnn`: `Vx <- nn`.
    Ld,
    /// `7xnn`: `Vx <- Vx + nn`, wrapping, flag untouched.
    Add,
    /// `8xy0`: `Vx <- Vy`.
    Ldy,
    /// `8xy1`: `Vx <- Vx | Vy`.
    Or,
    /// `8xy2`: `Vx <- Vx & Vy`.
    And,
    /// `8xy3`: `Vx <- Vx ^ Vy`.
    Xor,
    /// `8xy4`: `Vx <- Vx + Vy`, `VF` set to the carry.
    Addy,
    /// `8xy5`: `Vx <- Vx - Vy`, `VF` set to 1 when no borrow occurs.
    Sub,
    /// `8xy6` with `other_mode`: shift `Vx` right by one, `VF` the bit out.
    Shr,
    /// `8xy6` without `other_mode`: `Vx <- Vy >> 1`, `VF` the bit out of `Vy`.
    Shry,
    /// `8xy7`: `Vx <- Vy - Vx`, `VF` set to 1 when no borrow occurs.
    Subn,
    /// `8xye` with `other_mode`: shift `Vx` left by one, `VF` the bit out.
    Shl,
    /// `8xye` without `other_mode`: `Vx <- Vy << 1`, `VF` the bit out of `Vy`.
    Shly,
    /// `9xy0`: skip the next instruction if `Vx != Vy`.
    Sney,
    /// `annn`: `I <- nnn`.
    Ldi,
    /// `bnnn`: jump to `nnn + V0`.
    Jp0,
    /// `cxnn`: `Vx <- random byte & nn`.
    Rnd,
    /// `dxyn`: draw the `n`-byte sprite at `I` at position `(Vx, Vy)`.
    Drw,
    /// `ex9e`: skip the next instruction if key `Vx` is pressed.
    Skp,
    /// `exa1`: skip the next instruction if key `Vx` is not pressed.
    Skpn,
    /// `fx07`: `Vx <- delay`.
    Ldxdt,
    /// `fx0a`: wait for a key press, then `Vx <- key index`.
    Ldk,
    /// `fx15`: `delay <- Vx`.
    Lddt,
    /// `fx18`: `sound <- Vx`.
    Ldst,
    /// `fx1e`: `I <- I + Vx`, bounds-checked.
    Addi,
    /// `fx29`: `I <- Vx * 5`, the font glyph of digit `Vx`.
    Ldf,
    /// `fx33`: write the decimal digits of `Vx` to `I`, `I+1`, `I+2`.
    Ldb,
    /// `fx55`: copy `V0..=Vx` to memory at `I`.
    Ldix,
    /// `fx65`: load `V0..=Vx` from memory at `I`.
    Ldxi,
    /// Any unassigned bit pattern: a no-operation.
    Nai,
}

/// The instruction that an instruction word selects. The dispatch key is the
/// top nibble, refined by the trailing nibble or byte for the groups
/// `0`, `5`, `8`, `9`, `e` and `f`; the two shift rows `8xy6` and `8xye` are
/// resolved by the `other_mode` flag, not by the bit pattern.
pub open spec fn spec_instr_of(code: u16, other_mode: bool) -> Instr {
    if code == 0x00e0 {
        Instr::Cls
    } else if code == 0x00ee {
        Instr::Ret
    } else {
        let top = code >> 12;
        if top == 0x1 {
            Instr::Jp
        } else if top == 0x2 {
            Instr::Call
        } else if top == 0x3 {
            Instr::Se
        } else if top == 0x4 {
            Instr::Sne
        } else if top == 0x5 {
            if spec_n(code) == 0 {
                Instr::Sey
            } else {
                Instr::Nai
            }
        } else if top == 0x6 {
            Instr::Ld
        } else if top == 0x7 {
            Instr::Add
        } else if top == 0x8 {
            let low = spec_n(code);
            if low == 0x0 {
                Instr::Ldy
            } else if low == 0x1 {
                Instr::Or
            } else if low == 0x2 {
                Instr::And
            } else if low == 0x3 {
                Instr::Xor
            } else if low == 0x4 {
                Instr::Addy
            } else if low == 0x5 {
                Instr::Sub
            } else if low == 0x6 {
                if other_mode {
                    Instr::Shr
                } else {
                    Instr::Shry
                }
            } else if low == 0x7 {
                Instr::Subn
            } else if low == 0xe {
                if other_mode {
                    Instr::Shl
                } else {
                    Instr::Shly
                }
            } else {
                Instr::Nai
            }
        } else if top == 0x9 {
            if spec_n(code) == 0 {
                Instr::Sney
            } else {
                Instr::Nai
            }
        } else if top == 0xa {
            Instr::Ldi
        } else if top == 0xb {
            Instr::Jp0
        } else if top == 0xc {
            Instr::Rnd
        } else if top == 0xd {
            Instr::Drw
        } else if top == 0xe {
            let low = spec_nn(code);
            if low == 0x9e {
                Instr::Skp
            } else if low == 0xa1 {
                Instr::Skpn
            } else {
                Instr::Nai
            }
        } else if top == 0xf {
            let low = spec_nn(code);
            if low == 0x07 {
                Instr::Ldxdt
            } else if low == 0x0a {
                Instr::Ldk
            } else if low == 0x15 {
                Instr::Lddt
            } else if low == 0x18 {
                Instr::Ldst
            } else if low == 0x1e {
                Instr::Addi
            } else if low == 0x29 {
                Instr::Ldf
            } else if low == 0x33 {
                Instr::Ldb
            } else if low == 0x55 {
                Instr::Ldix
            } else if low == 0x65 {
                Instr::Ldxi
            } else {
                Instr::Nai
            }
        } else {
            Instr::Nai
        }
    }
}

/// The diagnostic mnemonic of an instruction. It has no effect on execution;
/// `nai` marks a word that is not an instruction.
pub open spec fn spec_mnemonic(i: Instr) -> Seq<char> {
    match i {
        Instr::Cls => "cls"@,
        Instr::Ret => "ret"@,
        Instr::Jp => "jp"@,
        Instr::Call => "call"@,
        Instr::Se => "se"@,
        Instr::Sne => "sne"@,
        Instr::Sey => "sey"@,
        Instr::Ld => "ld"@,
        Instr::Add => "add"@,
        Instr::Ldy => "ldy"@,
        Instr::Or => "or"@,
        Instr::And => "and"@,
        Instr::Xor => "xor"@,
        Instr::Addy => "addy"@,
        Instr::Sub => "sub"@,
        Instr::Shr => "shr"@,
        Instr::Shry => "shry"@,
        Instr::Subn => "subn"@,
        Instr::Shl => "shl"@,
        Instr::Shly => "shly"@,
        Instr::Sney => "sney"@,
        Instr::Ldi => "ldi"@,
        Instr::Jp0 => "jp0"@,
        Instr::Rnd => "rnd"@,
        Instr::Drw => "drw"@,
        Instr::Skp => "skp"@,
        Instr::Skpn => "skpn"@,
        Instr::Ldxdt => "ldxdt"@,
        Instr::Ldk => "ldk"@,
        Instr::Lddt => "lddt"@,
        Instr::Ldst => "ldst"@,
        Instr::Addi => "addi"@,
        Instr::Ldf => "ldf"@,
        Instr::Ldb => "ldb"@,
        Instr::Ldix => "ldix"@,
        Instr::Ldxi => "ldxi"@,
        Instr::Nai => "nai"@,
    }
}

} // verus!
