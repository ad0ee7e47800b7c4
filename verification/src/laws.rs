use vstd::prelude::*;
use crate::chip8::{
    MachineV, Chip8Error, spec_step, spec_add_regs, spec_addy_regs, spec_sub_regs, spec_first_key,
    lemma_first_key, spec_word_at,
};
use crate::instr::{Instr, spec_instr_of};
use crate::opcode::spec_x;
use crate::draw::{
    spec_draw_screen, spec_draw_coll, spec_row_coll, spec_mask1, spec_mask2, spec_shift, spec_p1,
    spec_p2, lemma_xor_basics, lemma_split_nonzero, lemma_positions, lemma_mask_single_row,
    lemma_coll_from_row,
};

verus! {

/// `add-imm` wraps modulo 256 and touches nothing but its target: the
/// target register becomes the sum reduced modulo 256, and every other
/// register — the flag register `VF` in particular, as long as it is not
/// itself the target — keeps its value.
pub proof fn lemma_add_imm_wraps(r: Seq<u8>, x: int, nn: u8)
    requires
        r.len() == 16,
        0 <= x < 16,
    ensures
        spec_add_regs(r, x, nn)[x] == (r[x] + nn) % 256,
        forall|i: int| 0 <= i < 16 && i != x ==> spec_add_regs(r, x, nn)[i] == r[i],
        x != 15 ==> spec_add_regs(r, x, nn)[15] == r[15],
{
}

/// `add-carry` raises the flag exactly when the true sum of the two
/// operands does not fit in one byte, and stores the wrapped sum.
pub proof fn lemma_add_carry_flag(r: Seq<u8>, x: int, y: int)
    requires
        r.len() == 16,
        0 <= x < 16,
        0 <= y < 16,
        x != 15,
        y != 15,
    ensures
        spec_addy_regs(r, x, y)[15] == (if r[x] + r[y] >= 256 { 1u8 } else { 0u8 }),
        x != y ==> spec_addy_regs(r, x, y)[x] == (r[x] + r[y]) % 256,
{
}

/// `add-carry` followed by `sub-borrow` with the same two registers puts
/// the first operand back bit for bit, whether or not the addition carried.
pub proof fn lemma_add_sub_round_trip(r: Seq<u8>, x: int, y: int)
    requires
        r.len() == 16,
        0 <= x < 16,
        0 <= y < 16,
        x != y,
        x != 15,
        y != 15,
    ensures
        spec_sub_regs(spec_addy_regs(r, x, y), x, y)[x] == r[x],
        spec_sub_regs(spec_addy_regs(r, x, y), x, y)[y] == r[y],
{
    let r1 = spec_addy_regs(r, x, y);
    assert(r1[y] == r[y]);
    assert(r1[x] == ((r[x] + r[y]) % 256) as u8);
    if r[x] + r[y] >= 256 {
        assert((r[x] + r[y]) % 256 == r[x] + r[y] - 256);
    } else {
        assert((r[x] + r[y]) % 256 == r[x] + r[y]);
    }
}

/// Drawing the same sprite at the same position twice XORs the screen back
/// to exactly what it was before the first draw.
pub proof fn lemma_draw_twice_restores(
    screen: Seq<u8>,
    mem: Seq<u8>,
    index: int,
    vx: u8,
    vy: u8,
    n: int,
)
    ensures
        spec_draw_screen(
            spec_draw_screen(screen, mem, index, vx, vy, n),
            mem,
            index,
            vx,
            vy,
            n,
        ) == screen,
{
    lemma_xor_basics();
    assert(spec_draw_screen(spec_draw_screen(screen, mem, index, vx, vy, n), mem, index, vx, vy, n)
        =~= screen);
}

/// On a blank screen, a second draw of a sprite with at least one set bit
/// (`i0` names a nonzero sprite row) collides with the first draw's own
/// pixels.
pub proof fn lemma_draw_twice_collides(
    screen: Seq<u8>,
    mem: Seq<u8>,
    index: int,
    vx: u8,
    vy: u8,
    n: int,
    i0: int,
)
    requires
        screen.len() == 256,
        forall|j: int| 0 <= j < 256 ==> screen[j] == 0,
        0 <= i0 < n <= 15,
        mem[index + i0] != 0,
    ensures
        spec_draw_coll(
            spec_draw_screen(screen, mem, index, vx, vy, n),
            mem,
            index,
            vx,
            vy,
            n,
        ),
{
    let s1 = spec_draw_screen(screen, mem, index, vx, vy, n);
    let sprite = mem[index + i0];
    let sh = spec_shift(vx);
    let p1 = spec_p1(vx, vy, i0);
    let p2 = spec_p2(vx, vy, i0);
    lemma_xor_basics();
    lemma_positions(vx, vy, i0);
    lemma_mask_single_row(mem, index, vx, vy, n, i0, p1);
    lemma_mask_single_row(mem, index, vx, vy, n, i0, p2);
    assert(s1[p1] == spec_mask1(sprite, vx));
    lemma_split_nonzero(sprite, sh);
    if spec_mask1(sprite, vx) != 0 {
        assert(spec_row_coll(s1, sprite, vx, vy, i0));
    } else {
        assert(sh != 0 && spec_mask2(sprite, vx) != 0);
        assert(s1[p2] == spec_mask2(sprite, vx));
        assert(spec_row_coll(s1, sprite, vx, vy, i0));
    }
    lemma_coll_from_row(s1, mem, index, vx, vy, n, i0);
}

/// A `call` immediately followed by a `return` lands on the instruction
/// after the call: the program counter ends two bytes past where the call
/// was fetched, the stack pointer is back where it was, and registers,
/// memory and screen are untouched by the pair.
pub proof fn lemma_call_return_round_trip(
    pre: MachineV,
    mid: MachineV,
    post: MachineV,
    b1: u8,
    b2: u8,
)
    requires
        pre.wf(),
        spec_step(pre, b1) == Ok::<MachineV, Chip8Error>(mid),
        spec_instr_of(spec_word_at(pre.mem, pre.pc as int), pre.other_mode) == Instr::Call,
        spec_step(mid, b2) == Ok::<MachineV, Chip8Error>(post),
        spec_instr_of(spec_word_at(mid.mem, mid.pc as int), mid.other_mode) == Instr::Ret,
    ensures
        post.pc == pre.pc + 2,
        post.sp == pre.sp,
        post.regs == pre.regs,
        post.mem == pre.mem,
        post.screen == pre.screen,
{
}

/// The blocking wait-for-key: on a step where no key is pressed the machine
/// comes out exactly as it went in — the program counter in particular, so
/// the same instruction runs again on the next step. On the first step
/// after any key is pressed, the lowest pressed key's index is stored in
/// the instruction's target register and the program counter advances
/// normally.
pub proof fn lemma_wait_key(pre: MachineV, post: MachineV, b: u8)
    requires
        pre.wf(),
        spec_step(pre, b) == Ok::<MachineV, Chip8Error>(post),
        spec_instr_of(spec_word_at(pre.mem, pre.pc as int), pre.other_mode) == Instr::Ldk,
    ensures
        (forall|k: int| 0 <= k < 16 ==> !pre.keys[k]) ==> post == pre,
        (exists|k: int| 0 <= k < 16 && pre.keys[k]) ==> {
            &&& post.pc == pre.pc + 2
            &&& 0 <= spec_first_key(pre.keys, 0) < 16
            &&& pre.keys[spec_first_key(pre.keys, 0)]
            &&& (forall|k: int| 0 <= k < spec_first_key(pre.keys, 0) ==> !pre.keys[k])
            &&& post.regs == pre.regs.update(
                spec_x(spec_word_at(pre.mem, pre.pc as int)) as int,
                spec_first_key(pre.keys, 0) as u8,
            )
        },
{
    lemma_first_key(pre.keys, 0);
    let fk = spec_first_key(pre.keys, 0);
    if exists|k: int| 0 <= k < 16 && pre.keys[k] {
        let kw = choose|k: int| 0 <= k < 16 && pre.keys[k];
        assert(fk < 16) by {
            if fk == 16 {
                assert(!pre.keys[kw]);
            }
        }
    }
    if forall|k: int| 0 <= k < 16 ==> !pre.keys[k] {
        assert(fk == 16) by {
            if fk < 16 {
                assert(pre.keys[fk]);
                assert(!pre.keys[fk]);
            }
        }
    }
}

} // verus!
