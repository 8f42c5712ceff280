//! Machine-checked laws of the interpreter: properties that relate
//! several transitions, stated over the semantics in `semantics` and
//! `screen` and proved for all inputs.

use vstd::arithmetic::div_mod::{lemma_fundamental_div_mod, lemma_fundamental_div_mod_converse};
use vstd::prelude::*;

use crate::decode::{op_n, op_nn, op_nnn, op_x, op_y};
use crate::screen::{
    draw_collision, draw_fb, flip_cell, flips, lemma_sprite_target_in_range, sprite_on,
    sprite_target,
};
use crate::semantics::{
    spec_combine_bytes, spec_draw, spec_fetch, spec_handle_input, spec_step, KeyEvent,
};
use crate::state::{Chip8Error, Chip8State, MEM_SIZE, SCREEN_SIZE, STACK_SIZE};

verus! {

/// How the decode fields fall out of an instruction word built from a
/// high nibble `h`, a register selector `x` and a low byte `nn`.
pub proof fn lemma_build_word(h: u8, x: u8, nn: u8)
    requires
        h < 16,
        x < 16,
    ensures
        ({
            let w = spec_combine_bytes(nn, (h * 16 + x) as u8);
            &&& w == h * 4096 + x * 256 + nn
            &&& w / 4096 == h
            &&& op_x(w) == x
            &&& op_nn(w) == nn
            &&& op_nnn(w) == x * 256 + nn
            &&& op_y(w) == nn / 16
            &&& op_n(w) == nn % 16
        }),
{
    let w = spec_combine_bytes(nn, (h * 16 + x) as u8);
    assert(w == h * 4096 + x * 256 + nn);
    lemma_fundamental_div_mod_converse(w as int, 4096, h as int, (x * 256 + nn) as int);
    lemma_fundamental_div_mod_converse(w as int, 256, (h * 16 + x) as int, nn as int);
    lemma_fundamental_div_mod_converse((h * 16 + x) as int, 16, h as int, x as int);
    lemma_fundamental_div_mod(nn as int, 16);
    let q = h * 256 + x * 16 + nn / 16;
    lemma_fundamental_div_mod_converse(w as int, 16, q as int, (nn % 16) as int);
    lemma_fundamental_div_mod_converse(q as int, 16, (h * 16 + x) as int, (nn / 16) as int);
}

/// Setting a register from an immediate: for every `NN`, stepping a
/// machine whose next instruction word is `6XNN` loads `NN` into `VX`
/// and advances the program counter by exactly 2.
pub proof fn lemma_set_immediate_step(s: Chip8State, r: u8, x: u8, nn: u8)
    requires
        s.wf(),
        !s.stopped,
        x < 16,
        s.pc + 1 < MEM_SIZE,
        s.memory[s.pc as int] == (0x60 + x) as u8,
        s.memory[s.pc as int + 1] == nn,
    ensures
        spec_step(s, r) is Ok,
        spec_step(s, r)->Ok_0.v[x as int] == nn,
        spec_step(s, r)->Ok_0.pc == s.pc + 2,
{
    lemma_build_word(6, x, nn);
    let w = spec_fetch(s);
    assert(w == spec_combine_bytes(nn, (6 * 16 + x) as u8));
}

/// XOR idempotence of sprite drawing: drawing the same sprite twice at
/// the same position restores the framebuffer, and the second draw
/// collides exactly on the set sprite pixels that were off before the
/// first draw.
pub proof fn lemma_draw_twice_restores(
    fb: Seq<u8>,
    mem: Seq<u8>,
    i: u16,
    px0: u8,
    py0: u8,
    n: u8,
)
    requires
        fb.len() == SCREEN_SIZE,
        forall|t: int| 0 <= t < SCREEN_SIZE ==> fb[t] == 0 || fb[t] == 1,
    ensures
        draw_fb(draw_fb(fb, mem, i, px0, py0, n), mem, i, px0, py0, n) == fb,
        draw_collision(draw_fb(fb, mem, i, px0, py0, n), mem, i, px0, py0, n) <==> (exists|
            r: u8,
            c: u8,
        |
            r < n && c < 8 && sprite_on(mem, i, r, c) && fb[sprite_target(px0, py0, r, c)] == 0),
{
    let fb1 = draw_fb(fb, mem, i, px0, py0, n);
    assert forall|t: int| 0 <= t < SCREEN_SIZE implies draw_fb(fb1, mem, i, px0, py0, n)[t]
        == fb[t] by {
        if flips(mem, i, px0, py0, n, t) {
            assert(fb1[t] == flip_cell(fb[t]));
            assert(flip_cell(flip_cell(fb[t])) == fb[t]);
        }
    }
    assert(draw_fb(fb1, mem, i, px0, py0, n) =~= fb);
    if draw_collision(fb1, mem, i, px0, py0, n) {
        let (r, c) = choose|r: u8, c: u8|
            r < n && c < 8 && sprite_on(mem, i, r, c) && fb1[sprite_target(px0, py0, r, c)] == 1;
        let t = sprite_target(px0, py0, r, c);
        lemma_sprite_target_in_range(px0, py0, r, c);
        assert(flips(mem, i, px0, py0, n, t));
        assert(fb1[t] == flip_cell(fb[t]));
        assert(fb[t] == 0);
    }
    if exists|r: u8, c: u8|
        r < n && c < 8 && sprite_on(mem, i, r, c) && fb[sprite_target(px0, py0, r, c)] == 0 {
        let (r, c) = choose|r: u8, c: u8|
            r < n && c < 8 && sprite_on(mem, i, r, c) && fb[sprite_target(px0, py0, r, c)] == 0;
        let t = sprite_target(px0, py0, r, c);
        lemma_sprite_target_in_range(px0, py0, r, c);
        assert(flips(mem, i, px0, py0, n, t));
        assert(fb1[t] == flip_cell(fb[t]));
        assert(fb1[t] == 1);
        assert(draw_collision(fb1, mem, i, px0, py0, n));
    }
}

/// The same law at the opcode level: executing `DXYN` twice with
/// identical `I`, `VX`, `VY` and `N` restores the framebuffer to its
/// state before the first draw, and the second draw reports a collision
/// exactly where the first draw turned pixels on. `X` and `Y` must not
/// select `VF`, since the first draw's flag write would otherwise change
/// the coordinates between the two draws.
pub proof fn lemma_draw_opcode_twice(s: Chip8State, w: u16, x: u8, y: u8, n: u8)
    requires
        s.wf(),
        x < 16,
        y < 16,
        x != 15,
        y != 15,
        n < 16,
        spec_draw(s, w, x, y, n) is Ok,
    ensures
        ({
            let s1 = spec_draw(s, w, x, y, n)->Ok_0;
            &&& spec_draw(s1, w, x, y, n) is Ok
            &&& spec_draw(s1, w, x, y, n)->Ok_0.vram == s.vram
            &&& (spec_draw(s1, w, x, y, n)->Ok_0.v[15] == 1 <==> exists|r: u8, c: u8|
                r < n && c < 8 && sprite_on(s.memory, s.i, r, c) && s.vram[sprite_target(
                    s.v[x as int],
                    s.v[y as int],
                    r,
                    c,
                )] == 0)
        }),
{
    let px0 = s.v[x as int];
    let py0 = s.v[y as int];
    let s1 = spec_draw(s, w, x, y, n)->Ok_0;
    assert(s1.v[x as int] == px0);
    assert(s1.v[y as int] == py0);
    lemma_draw_twice_restores(s.vram, s.memory, s.i, px0, py0, n);
}

/// A call immediately followed by a return: stepping `2NNN` at the call
/// site and then `00EE` at `NNN` brings the program counter to the call
/// site plus 2 and restores the call depth, at any depth below the
/// 16-frame capacity — so calls nest up to depth 16.
pub proof fn lemma_call_then_return(s: Chip8State, r1: u8, r2: u8, nnn: u16)
    requires
        s.wf(),
        !s.stopped,
        s.sp < STACK_SIZE,
        nnn < 4096,
        s.pc + 1 < MEM_SIZE,
        nnn + 1 < MEM_SIZE,
        s.memory[s.pc as int] == (0x20 + nnn / 256) as u8,
        s.memory[s.pc as int + 1] == (nnn % 256) as u8,
        s.memory[nnn as int] == 0x00u8,
        s.memory[nnn as int + 1] == 0xEEu8,
    ensures
        spec_step(s, r1) is Ok,
        ({
            let s1 = spec_step(s, r1)->Ok_0;
            &&& s1.pc == nnn
            &&& s1.sp == s.sp + 1
            &&& spec_step(s1, r2) is Ok
            &&& spec_step(s1, r2)->Ok_0.pc == s.pc + 2
            &&& spec_step(s1, r2)->Ok_0.sp == s.sp
        }),
{
    lemma_build_word(2, (nnn / 256) as u8, (nnn % 256) as u8);
    lemma_fundamental_div_mod(nnn as int, 256);
    let w = spec_fetch(s);
    assert(w == spec_combine_bytes((nnn % 256) as u8, (2 * 16 + nnn / 256) as u8));
    assert(op_nnn(w) == nnn);
    let s1 = spec_step(s, r1)->Ok_0;
    assert(s1.stack[s.sp as int] == s.pc);
    assert(spec_fetch(s1) == spec_combine_bytes(0xEE, 0x00));
    assert(spec_fetch(s1) == 0x00EE);
}

/// A 17th nested call is a stack overflow, reported with the offending
/// instruction word and program counter, and the machine is unchanged
/// by the failed step.
pub proof fn lemma_call_overflow(s: Chip8State, r: u8, nnn: u16)
    requires
        s.wf(),
        !s.stopped,
        s.sp == STACK_SIZE,
        nnn < 4096,
        s.pc + 1 < MEM_SIZE,
        s.memory[s.pc as int] == (0x20 + nnn / 256) as u8,
        s.memory[s.pc as int + 1] == (nnn % 256) as u8,
    ensures
        spec_step(s, r) == Err::<Chip8State, Chip8Error>(
            Chip8Error::StackOverflow { opcode: spec_fetch(s), pc: s.pc },
        ),
{
    lemma_build_word(2, (nnn / 256) as u8, (nnn % 256) as u8);
    let w = spec_fetch(s);
    assert(w == spec_combine_bytes((nnn % 256) as u8, (2 * 16 + nnn / 256) as u8));
}

/// The random-draw mask at zero: whatever byte the generator returns,
/// `CXNN` with `NN == 0` leaves zero in `VX`.
pub proof fn lemma_rand_mask_zero(s: Chip8State, x: u8, r: u8)
    requires
        s.wf(),
        x < 16,
    ensures
        crate::semantics::spec_rand_to_vx(s, x, 0, r).v[x as int] == 0,
{
    assert(r & 0 == 0) by (bit_vector);
}

/// While the machine awaits a key, a step mutates nothing: it returns
/// the state unchanged, timers included.
pub proof fn lemma_blocked_step_is_noop(s: Chip8State, r: u8)
    requires
        s.stopped,
    ensures
        spec_step(s, r) == Ok::<Chip8State, Chip8Error>(s),
{
}

/// The key-wait protocol: stepping `FX0A` leaves the machine awaiting a
/// key; every further step returns the state unchanged; and the first
/// key-down event resumes the machine, storing the key index in `VX`.
pub proof fn lemma_wait_for_key_step(s: Chip8State, r: u8, x: u8, k: usize)
    requires
        s.wf(),
        !s.stopped,
        x < 16,
        k < 16,
        s.pc + 1 < MEM_SIZE,
        s.memory[s.pc as int] == (0xF0 + x) as u8,
        s.memory[s.pc as int + 1] == 0x0Au8,
    ensures
        spec_step(s, r) is Ok,
        ({
            let s1 = spec_step(s, r)->Ok_0;
            &&& s1.stopped
            &&& forall|r2: u8| spec_step(s1, r2) == Ok::<Chip8State, Chip8Error>(s1)
            &&& spec_handle_input(s1, KeyEvent::Down(k)) is Ok
            &&& !spec_handle_input(s1, KeyEvent::Down(k))->Ok_0.stopped
            &&& spec_handle_input(s1, KeyEvent::Down(k))->Ok_0.v[x as int] == k
        }),
{
    lemma_build_word(0xF, x, 0x0A);
    let w = spec_fetch(s);
    assert(w == spec_combine_bytes(0x0A, (0xF * 16 + x) as u8));
}

} // verus!
