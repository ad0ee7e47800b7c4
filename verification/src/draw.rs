use vstd::prelude::*;

verus! {

/// The screen row that sprite row `i` lands on: vertical wrap-around
/// modulo the 32 screen rows.
pub open spec fn spec_row(vy: u8, i: int) -> int {
    (vy + i) % 32
}

/// The screen byte column the sprite's left part lands in: horizontal
/// wrap-around modulo the 8 byte columns of a row.
pub open spec fn spec_col(vx: u8) -> int {
    (vx as int / 8) % 8
}

/// How far the sprite byte is shifted right into its first screen byte.
pub open spec fn spec_shift(vx: u8) -> u8 {
    (vx as int % 8) as u8
}

/// The sprite byte as it lands in its first screen byte.
pub open spec fn spec_mask1(sprite: u8, vx: u8) -> u8 {
    sprite >> spec_shift(vx)
}

/// The sprite byte's remainder as it lands in the next byte column of the
/// same row; meaningful only when the shift is nonzero.
pub open spec fn spec_mask2(sprite: u8, vx: u8) -> u8 {
    sprite << ((8 - spec_shift(vx)) as u8)
}

/// The index of the first screen byte that sprite row `i` is blitted into.
pub open spec fn spec_p1(vx: u8, vy: u8, i: int) -> int {
    spec_row(vy, i) * 8 + spec_col(vx)
}

/// The index of the second screen byte, one byte column to the right with
/// wrap-around to column 0 of the same row.
pub open spec fn spec_p2(vx: u8, vy: u8, i: int) -> int {
    spec_row(vy, i) * 8 + ((spec_col(vx) + 1) % 8)
}

/// The XOR contribution of sprite row `i` to screen byte `j`: the shifted
/// sprite byte at its two target bytes, zero everywhere else.
pub open spec fn spec_row_mask(sprite: u8, vx: u8, vy: u8, i: int, j: int) -> u8 {
    if j == spec_p1(vx, vy, i) {
        spec_mask1(sprite, vx)
    } else if spec_shift(vx) != 0 && j == spec_p2(vx, vy, i) {
        spec_mask2(sprite, vx)
    } else {
        0u8
    }
}

/// The XOR mask that the first `k` rows of the sprite at `mem[index..]`
/// contribute to screen byte `j`. A draw XORs every screen byte `j` with
/// this mask taken at `k = n`.
pub open spec fn spec_draw_mask(mem: Seq<u8>, index: int, vx: u8, vy: u8, k: int, j: int) -> u8
    decreases k,
{
    if k <= 0 {
        0u8
    } else {
        spec_draw_mask(mem, index, vx, vy, k - 1, j) ^ spec_row_mask(
            mem[index + k - 1],
            vx,
            vy,
            k - 1,
            j,
        )
    }
}

/// Whether sprite row `i` lands on an already-lit pixel of `screen`.
pub open spec fn spec_row_coll(screen: Seq<u8>, sprite: u8, vx: u8, vy: u8, i: int) -> bool {
    ||| screen[spec_p1(vx, vy, i)] & spec_mask1(sprite, vx) != 0
    ||| (spec_shift(vx) != 0 && screen[spec_p2(vx, vy, i)] & spec_mask2(sprite, vx) != 0)
}

/// Whether any of the first `k` sprite rows collides with `screen`, the
/// framebuffer as it was when the draw began. Because each row of one draw
/// writes to a distinct screen row, testing against the starting screen is
/// the same as testing against the evolving one.
pub open spec fn spec_draw_coll(
    screen: Seq<u8>,
    mem: Seq<u8>,
    index: int,
    vx: u8,
    vy: u8,
    k: int,
) -> bool
    decreases k,
{
    if k <= 0 {
        false
    } else {
        spec_draw_coll(screen, mem, index, vx, vy, k - 1) || spec_row_coll(
            screen,
            mem[index + k - 1],
            vx,
            vy,
            k - 1,
        )
    }
}


/// The framebuffer after a draw: every byte XORed with the sprite's mask
/// for its position.
pub open spec fn spec_draw_screen(
    screen: Seq<u8>,
    mem: Seq<u8>,
    index: int,
    vx: u8,
    vy: u8,
    n: int,
) -> Seq<u8> {
    Seq::new(screen.len(), |j: int| screen[j] ^ spec_draw_mask(mem, index, vx, vy, n, j))
}

/// A collision in any single row is a collision of the whole draw.
pub proof fn lemma_coll_from_row(
    screen: Seq<u8>,
    mem: Seq<u8>,
    index: int,
    vx: u8,
    vy: u8,
    k: int,
    i: int,
)
    requires
        0 <= i < k,
        spec_row_coll(screen, mem[index + i], vx, vy, i),
    ensures
        spec_draw_coll(screen, mem, index, vx, vy, k),
    decreases k,
{
    if i < k - 1 {
        lemma_coll_from_row(screen, mem, index, vx, vy, k - 1, i);
    }
}

/// The handful of XOR and AND identities the draw proofs lean on.
pub proof fn lemma_xor_basics()
    by (bit_vector)
    ensures
        forall|a: u8| #[trigger] (a ^ 0u8) == a,
        forall|a: u8| #[trigger] (0u8 ^ a) == a,
        forall|a: u8, b: u8, c: u8| #[trigger] ((a ^ b) ^ c) == a ^ (b ^ c),
        forall|a: u8, b: u8| #[trigger] ((a ^ b) ^ b) == a,
        forall|a: u8| #[trigger] (a & a) == a,
{
}

/// A nonzero sprite byte leaves at least one set bit in one of its two
/// shifted halves.
pub proof fn lemma_split_nonzero(sprite: u8, sh: u8)
    by (bit_vector)
    requires
        sprite != 0,
        sh < 8,
    ensures
        (sprite >> sh) != 0 || (sh != 0 && (sprite << ((8 - sh) as u8)) != 0),
{
}

/// Where the two target bytes of a sprite row sit: inside the 256-byte
/// screen, in the row the sprite row wraps to, and never on top of each
/// other.
pub proof fn lemma_positions(vx: u8, vy: u8, i: int)
    requires
        0 <= i,
    ensures
        0 <= spec_row(vy, i) < 32,
        0 <= spec_col(vx) < 8,
        spec_shift(vx) < 8,
        0 <= spec_p1(vx, vy, i) < 256,
        0 <= spec_p2(vx, vy, i) < 256,
        spec_p1(vx, vy, i) != spec_p2(vx, vy, i),
        spec_p1(vx, vy, i) / 8 == spec_row(vy, i),
        spec_p2(vx, vy, i) / 8 == spec_row(vy, i),
{
    let r = spec_row(vy, i);
    let c = spec_col(vx);
    let c2 = (spec_col(vx) + 1) % 8;
    assert(0 <= r < 32 && 0 <= c < 8 && 0 <= c2 < 8 && c != c2);
    assert(r * 8 + c < 256 && (r * 8 + c) / 8 == r) by (nonlinear_arith)
        requires
            0 <= r < 32 && 0 <= c < 8,
    ;
    assert(r * 8 + c2 < 256 && (r * 8 + c2) / 8 == r) by (nonlinear_arith)
        requires
            0 <= r < 32 && 0 <= c2 < 8,
    ;
}

/// Two sprite rows less than 32 apart land on distinct screen rows.
pub proof fn lemma_rows_distinct(vy: u8, i1: int, i2: int)
    requires
        0 <= i1 < i2,
        i2 - i1 < 32,
    ensures
        spec_row(vy, i1) != spec_row(vy, i2),
{
    let a = vy + i1;
    let d = i2 - i1;
    assert((a + d) % 32 != a % 32) by (nonlinear_arith)
        requires
            0 <= a && 0 < d < 32,
    ;
}

/// Rows that a screen byte does not belong to contribute nothing to it.
pub proof fn lemma_mask_off_rows(mem: Seq<u8>, index: int, vx: u8, vy: u8, k: int, j: int)
    requires
        0 <= k,
        forall|i: int| 0 <= i < k ==> #[trigger] spec_row(vy, i) != j / 8,
    ensures
        spec_draw_mask(mem, index, vx, vy, k, j) == 0,
    decreases k,
{
    lemma_xor_basics();
    if k > 0 {
        lemma_mask_off_rows(mem, index, vx, vy, k - 1, j);
        lemma_positions(vx, vy, k - 1);
        assert(spec_row_mask(mem[index + k - 1], vx, vy, k - 1, j) == 0);
    }
}

/// At a screen byte of row `i`'s own screen row, the whole draw mask of any
/// window of at most 32 rows containing `i` is row `i`'s contribution alone.
pub proof fn lemma_mask_single_row(
    mem: Seq<u8>,
    index: int,
    vx: u8,
    vy: u8,
    k: int,
    i: int,
    j: int,
)
    requires
        0 <= i < k <= 32,
        j / 8 == spec_row(vy, i),
    ensures
        spec_draw_mask(mem, index, vx, vy, k, j) == spec_row_mask(mem[index + i], vx, vy, i, j),
    decreases k,
{
    lemma_xor_basics();
    if k - 1 == i {
        assert forall|i2: int| 0 <= i2 < i implies #[trigger] spec_row(vy, i2) != j / 8 by {
            lemma_rows_distinct(vy, i2, i);
        }
        lemma_mask_off_rows(mem, index, vx, vy, i, j);
    } else {
        lemma_rows_distinct(vy, i, k - 1);
        lemma_positions(vx, vy, k - 1);
        assert(spec_row_mask(mem[index + k - 1], vx, vy, k - 1, j) == 0);
        lemma_mask_single_row(mem, index, vx, vy, k - 1, i, j);
    }
}

} // verus!
