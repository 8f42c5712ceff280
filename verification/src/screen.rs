//! The specification of sprite drawing (`DXYN`).
//!
//! A sprite is 8 pixels wide and `n` rows tall, one byte per row, most
//! significant bit leftmost. It is XOR-composited onto the framebuffer.
//! Coordinates that leave the screen wrap: the pixel at sprite row `r`,
//! column `c` lands on screen column `(px0 + c) % 64` and screen row
//! `(py0 + r) % 32`. Wrapping is this interpreter's edge policy; the
//! contracts state it and the tests exercise both edge and non-edge
//! placements.

use vstd::prelude::*;

use crate::state::SCREEN_SIZE;

verus! {

/// Divisor that isolates sprite column `c` (most significant bit first):
/// bit `c` of a row byte `b` is `(b / col_divisor(c)) % 2`.
pub open spec fn spec_col_divisor(c: u8) -> u8 {
    if c == 0 {
        128
    } else if c == 1 {
        64
    } else if c == 2 {
        32
    } else if c == 3 {
        16
    } else if c == 4 {
        8
    } else if c == 5 {
        4
    } else if c == 6 {
        2
    } else {
        1
    }
}

/// Whether column `c` (0 = leftmost) of the sprite row byte `byte` is set.
pub open spec fn sprite_pixel(byte: u8, c: u8) -> bool {
    (byte / spec_col_divisor(c)) % 2 == 1
}

/// Whether the sprite pixel at row `r`, column `c` is set, for a sprite
/// stored at `[i, i+n)` in `mem`.
pub open spec fn sprite_on(mem: Seq<u8>, i: u16, r: u8, c: u8) -> bool {
    sprite_pixel(mem[i + r], c)
}

/// The framebuffer cell that sprite row `r`, column `c` lands on, for a
/// sprite drawn at `(px0, py0)`, with wrapping.
pub open spec fn sprite_target(px0: u8, py0: u8, r: u8, c: u8) -> int {
    (px0 + c) % 64 + 64 * ((py0 + r) % 32)
}

/// Whether drawing the sprite flips framebuffer cell `t`: some set sprite
/// pixel lands on it.
pub open spec fn flips(mem: Seq<u8>, i: u16, px0: u8, py0: u8, n: u8, t: int) -> bool {
    exists|r: u8, c: u8|
        r < n && c < 8 && sprite_target(px0, py0, r, c) == t && sprite_on(mem, i, r, c)
}

/// A framebuffer cell after an XOR flip.
pub open spec fn flip_cell(b: u8) -> u8 {
    if b == 1 {
        0
    } else {
        1
    }
}

/// The framebuffer after the sprite at `[i, i+n)` is drawn at
/// `(px0, py0)`: every cell that a set sprite pixel lands on is flipped,
/// every other cell is unchanged.
pub open spec fn draw_fb(fb: Seq<u8>, mem: Seq<u8>, i: u16, px0: u8, py0: u8, n: u8) -> Seq<u8> {
    Seq::new(
        SCREEN_SIZE as nat,
        |t: int| if flips(mem, i, px0, py0, n, t) { flip_cell(fb[t]) } else { fb[t] },
    )
}

/// Whether the draw collides: some set sprite pixel lands on a cell that
/// is already on.
pub open spec fn draw_collision(fb: Seq<u8>, mem: Seq<u8>, i: u16, px0: u8, py0: u8, n: u8) -> bool {
    exists|r: u8, c: u8|
        r < n && c < 8 && sprite_on(mem, i, r, c) && fb[sprite_target(px0, py0, r, c)] == 1
}

/// Whether sprite pixel `(r, c)` comes before position `(row, col)` in
/// the row-major order in which a sprite is drawn.
pub open spec fn before(r: u8, c: u8, row: u8, col: u8) -> bool {
    r < row || (r == row && c < col)
}

/// `flips` restricted to the sprite pixels drawn before `(row, col)`.
pub open spec fn flips_before(
    mem: Seq<u8>,
    i: u16,
    px0: u8,
    py0: u8,
    t: int,
    row: u8,
    col: u8,
) -> bool {
    exists|r: u8, c: u8|
        before(r, c, row, col) && c < 8 && sprite_target(px0, py0, r, c) == t && sprite_on(
            mem,
            i,
            r,
            c,
        )
}

/// `draw_collision` restricted to the sprite pixels drawn before
/// `(row, col)`.
pub open spec fn collision_before(
    fb: Seq<u8>,
    mem: Seq<u8>,
    i: u16,
    px0: u8,
    py0: u8,
    row: u8,
    col: u8,
) -> bool {
    exists|r: u8, c: u8|
        before(r, c, row, col) && c < 8 && sprite_on(mem, i, r, c) && fb[sprite_target(
            px0,
            py0,
            r,
            c,
        )] == 1
}

/// Finishing a sprite row is the same as starting the next one: the
/// pixels before `(row, 8)` are the pixels before `(row + 1, 0)`.
pub proof fn lemma_row_rollover(
    fb: Seq<u8>,
    mem: Seq<u8>,
    i: u16,
    px0: u8,
    py0: u8,
    row: u8,
)
    requires
        row < 255,
    ensures
        forall|t: int|
            flips_before(mem, i, px0, py0, t, row, 8) == flips_before(
                mem,
                i,
                px0,
                py0,
                t,
                (row + 1) as u8,
                0,
            ),
        collision_before(fb, mem, i, px0, py0, row, 8) == collision_before(
            fb,
            mem,
            i,
            px0,
            py0,
            (row + 1) as u8,
            0,
        ),
{
    assert forall|r: u8, c: u8| before(r, c, row, 8) && c < 8 <==> before(r, c, (row + 1) as u8, 0)
        && c < 8 by {}
}

/// The pixels before `(n, 0)` are exactly the pixels of an `n`-row
/// sprite, so the partial notions close to `flips` and
/// `draw_collision`.
pub proof fn lemma_draw_complete(
    fb: Seq<u8>,
    mem: Seq<u8>,
    i: u16,
    px0: u8,
    py0: u8,
    n: u8,
)
    ensures
        forall|t: int|
            flips_before(mem, i, px0, py0, t, n, 0) == flips(mem, i, px0, py0, n, t),
        collision_before(fb, mem, i, px0, py0, n, 0) == draw_collision(fb, mem, i, px0, py0, n),
{
    assert forall|r: u8, c: u8| before(r, c, n, 0) <==> r < n by {}
}

/// Every sprite pixel lands on a cell inside the framebuffer.
pub proof fn lemma_sprite_target_in_range(px0: u8, py0: u8, r: u8, c: u8)
    ensures
        0 <= sprite_target(px0, py0, r, c) < SCREEN_SIZE,
{
}

/// Distinct sprite pixels land on distinct cells, for sprites of at most
/// 32 rows: the 8 columns are distinct modulo 64 and the rows distinct
/// modulo 32.
pub proof fn lemma_sprite_target_injective(px0: u8, py0: u8, r1: u8, c1: u8, r2: u8, c2: u8)
    requires
        r1 < 32,
        r2 < 32,
        c1 < 8,
        c2 < 8,
        sprite_target(px0, py0, r1, c1) == sprite_target(px0, py0, r2, c2),
    ensures
        r1 == r2,
        c1 == c2,
{
    assert(((px0 + c1) % 64 + 64 * ((py0 + r1) % 32) == (px0 + c2) % 64 + 64 * ((py0 + r2) % 32)
        && r1 < 32 && r2 < 32 && c1 < 8 && c2 < 8) ==> (r1 == r2 && c1 == c2)) by (bit_vector);
}

} // verus!
