use vstd::prelude::*;

verus! {

/// A decoded 16-bit instruction word, split into the fixed sub-fields that
/// the instruction set addresses: the low nibble `n`, the low byte `nn`, the
/// low 12 bits `nnn`, and the two register selectors `x` (bits 8..12) and
/// `y` (bits 4..8).
pub struct Opcode {
    /// The raw instruction word.
    pub code: u16,
    /// The low nibble.
    pub n: u8,
    /// The low byte.
    pub nn: u8,
    /// The low 12 bits, an address.
    pub nnn: u16,
    /// Bits 8..12, the first register selector.
    pub x: u8,
    /// Bits 4..8, the second register selector.
    pub y: u8,
}

/// The low nibble of an instruction word.
pub open spec fn spec_n(code: u16) -> u8 {
    (code & 0xf) as u8
}

/// The low byte of an instruction word.
pub open spec fn spec_nn(code: u16) -> u8 {
    (code & 0xff) as u8
}

/// The low 12 bits of an instruction word.
pub open spec fn spec_nnn(code: u16) -> u16 {
    code & 0xfff
}

/// Bits 8..12 of an instruction word.
pub open spec fn spec_x(code: u16) -> u8 {
    ((code >> 8) & 0xf) as u8
}

/// Bits 4..8 of an instruction word.
pub open spec fn spec_y(code: u16) -> u8 {
    ((code >> 4) & 0xf) as u8
}

/// A decoded opcode carries exactly the sub-fields of its raw word.
pub open spec fn decoded(op: Opcode) -> bool {
    &&& op.n == spec_n(op.code)
    &&& op.nn == spec_nn(op.code)
    &&& op.nnn == spec_nnn(op.code)
    &&& op.x == spec_x(op.code)
    &&& op.y == spec_y(op.code)
}

/// The register selectors are nibbles, the address is 12 bits wide.
pub proof fn lemma_field_bounds(code: u16)
    by (bit_vector)
    ensures
        spec_n(code) < 16,
        spec_nn(code) < 256,
        spec_nnn(code) <= 0xfff,
        spec_x(code) < 16,
        spec_y(code) < 16,
        (code & 0xf) <= 0xf,
        (code & 0xff) <= 0xff,
        spec_n(code) == code & 0xf,
        spec_nn(code) == code & 0xff,
{
}

impl Opcode {
    /// Splits an instruction word into its fixed bit-fields. Pure and total.
    pub fn new(code: u16) -> (r: Opcode)
        ensures
            r.code == code,
            decoded(r),
            r.n < 16,
            r.nnn <= 0xfff,
            r.x < 16,
            r.y < 16,
    {
        proof {
            lemma_field_bounds(code);
        }
        Opcode {
            code: code,
            n: (code & 0xf) as u8,
            nn: (code & 0xff) as u8,
            nnn: code & 0xfff,
            x: ((code >> 8) & 0xf) as u8,
            y: ((code >> 4) & 0xf) as u8,
        }
    }
}

} // verus!
