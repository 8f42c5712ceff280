//! The state-transition semantics of the machine: what each opcode does
//! to a `Chip8State`, and the full fetch-decode-execute-tick meaning of
//! one `step`.
//!
//! All 8-bit register arithmetic is modular; `VF` flag decisions use the
//! pre-wrap operands, and every opcode that defines a flag writes `VF` as
//! its last step.

use vstd::prelude::*;

use crate::decode::{op_nn, op_nnn, op_n, op_x, op_y, spec_decode, Opcode};
use crate::screen::{draw_collision, draw_fb};
use crate::state::{
    wadd16, wadd8, wsub8, Chip8Error, Chip8State, MEM_SIZE, NUM_KEYS, PROGRAM_START, STACK_SIZE,
};

verus! {

/// Advance the program counter by `k` (2 for straight-line instructions,
/// 4 for a skip that fired), wrapping at 16 bits.
pub open spec fn advance_pc(s: Chip8State, k: u16) -> Chip8State {
    Chip8State { pc: wadd16(s.pc, k), ..s }
}

/// Write register `x`.
pub open spec fn set_v(s: Chip8State, x: u8, val: u8) -> Chip8State {
    Chip8State { v: s.v.update(x as int, val), ..s }
}

/// `00E0`: clear the framebuffer and raise the redraw flag.
pub open spec fn spec_clear_screen(s: Chip8State) -> Chip8State {
    advance_pc(
        Chip8State {
            vram: Seq::new(s.vram.len(), |j: int| 0u8),
            draw_flag: true,
            ..s
        },
        2,
    )
}

/// `00EE`: pop a return address and resume right after the call site.
/// Underflow of the call stack is a fatal machine-invariant violation.
pub open spec fn spec_return_from_sub(s: Chip8State, w: u16) -> Result<Chip8State, Chip8Error> {
    if s.sp == 0 {
        Err(Chip8Error::StackUnderflow { opcode: w, pc: s.pc })
    } else {
        Ok(
            Chip8State {
                sp: (s.sp - 1) as u16,
                pc: wadd16(s.stack[s.sp - 1], 2),
                ..s
            },
        )
    }
}

/// `1NNN`: jump.
pub open spec fn spec_jump_addr(s: Chip8State, nnn: u16) -> Chip8State {
    Chip8State { pc: nnn, ..s }
}

/// `2NNN`: push the call-site program counter and jump. A 17th nested
/// call is a fatal stack overflow.
pub open spec fn spec_call_sub_at_nnn(s: Chip8State, w: u16, nnn: u16) -> Result<
    Chip8State,
    Chip8Error,
> {
    if s.sp >= STACK_SIZE {
        Err(Chip8Error::StackOverflow { opcode: w, pc: s.pc })
    } else {
        Ok(
            Chip8State {
                stack: s.stack.update(s.sp as int, s.pc),
                sp: (s.sp + 1) as u16,
                pc: nnn,
                ..s
            },
        )
    }
}

/// A conditional skip: the program counter advances by 4 when the
/// condition holds, else by 2.
pub open spec fn spec_skip_if(s: Chip8State, cond: bool) -> Chip8State {
    advance_pc(s, if cond { 4 } else { 2 })
}

/// `3XNN`.
pub open spec fn spec_skip_if_vx_equal_to_nn(s: Chip8State, x: u8, nn: u8) -> Chip8State {
    spec_skip_if(s, s.v[x as int] == nn)
}

/// `4XNN`.
pub open spec fn spec_skip_if_vx_not_equal_to_nn(s: Chip8State, x: u8, nn: u8) -> Chip8State {
    spec_skip_if(s, s.v[x as int] != nn)
}

/// `5XY0`.
pub open spec fn spec_skip_if_vx_equal_to_vy(s: Chip8State, x: u8, y: u8) -> Chip8State {
    spec_skip_if(s, s.v[x as int] == s.v[y as int])
}

/// `9XY0`.
pub open spec fn spec_skip_if_vx_not_equal_to_vy(s: Chip8State, x: u8, y: u8) -> Chip8State {
    spec_skip_if(s, s.v[x as int] != s.v[y as int])
}

/// `6XNN`: `VX := NN`.
pub open spec fn spec_set_vx_to_immediate(s: Chip8State, x: u8, nn: u8) -> Chip8State {
    advance_pc(set_v(s, x, nn), 2)
}

/// `7XNN`: `VX := VX + NN`, wrapping, no flag.
pub open spec fn spec_add_nn_to_vx(s: Chip8State, x: u8, nn: u8) -> Chip8State {
    advance_pc(set_v(s, x, wadd8(s.v[x as int], nn)), 2)
}

/// `8XY0`: `VX := VY`.
pub open spec fn spec_assign_vy_to_vx(s: Chip8State, x: u8, y: u8) -> Chip8State {
    advance_pc(set_v(s, x, s.v[y as int]), 2)
}

/// `8XY1`: `VX := VX | VY`.
pub open spec fn spec_vx_or_vy(s: Chip8State, x: u8, y: u8) -> Chip8State {
    advance_pc(set_v(s, x, s.v[x as int] | s.v[y as int]), 2)
}

/// `8XY2`: `VX := VX & VY`.
pub open spec fn spec_vx_and_vy(s: Chip8State, x: u8, y: u8) -> Chip8State {
    advance_pc(set_v(s, x, s.v[x as int] & s.v[y as int]), 2)
}

/// `8XY3`: `VX := VX ^ VY`.
pub open spec fn spec_vx_xor_vy(s: Chip8State, x: u8, y: u8) -> Chip8State {
    advance_pc(set_v(s, x, s.v[x as int] ^ s.v[y as int]), 2)
}

/// `8XY4`: `VX := VX + VY` wrapping; `VF := 1` iff the unwrapped sum
/// exceeds 255, written last.
pub open spec fn spec_add_vy_to_vx(s: Chip8State, x: u8, y: u8) -> Chip8State {
    let a = s.v[x as int];
    let b = s.v[y as int];
    let flag: u8 = if a + b > 255 { 1 } else { 0 };
    advance_pc(set_v(set_v(s, x, wadd8(a, b)), 0xF, flag), 2)
}

/// `8XY5`: `VX := VX - VY` wrapping; `VF := 1` iff `VX >= VY` before the
/// subtraction (no borrow), written last.
pub open spec fn spec_sub_vy_to_vx(s: Chip8State, x: u8, y: u8) -> Chip8State {
    let a = s.v[x as int];
    let b = s.v[y as int];
    let flag: u8 = if a >= b { 1 } else { 0 };
    advance_pc(set_v(set_v(s, x, wsub8(a, b)), 0xF, flag), 2)
}

/// `8XY7`: `VX := VY - VX` wrapping; `VF := 1` iff `VY >= VX` before the
/// subtraction, written last.
pub open spec fn spec_sub_vx_to_vy(s: Chip8State, x: u8, y: u8) -> Chip8State {
    let a = s.v[x as int];
    let b = s.v[y as int];
    let flag: u8 = if b >= a { 1 } else { 0 };
    advance_pc(set_v(set_v(s, x, wsub8(b, a)), 0xF, flag), 2)
}

/// `8XY6`: `VX := VX >> 1`; `VF :=` the pre-shift least significant bit,
/// written last.
pub open spec fn spec_shift_vx_right(s: Chip8State, x: u8) -> Chip8State {
    let a = s.v[x as int];
    advance_pc(set_v(set_v(s, x, (a / 2) as u8), 0xF, (a % 2) as u8), 2)
}

/// `8XYE`: `VX := VX << 1` wrapping; `VF :=` the pre-shift most
/// significant bit, written last.
pub open spec fn spec_shift_vx_left(s: Chip8State, x: u8) -> Chip8State {
    let a = s.v[x as int];
    let flag: u8 = if a >= 128 { 1 } else { 0 };
    advance_pc(set_v(set_v(s, x, wadd8(a, a)), 0xF, flag), 2)
}

/// `ANNN`: `I := NNN`.
pub open spec fn spec_set_memory_nnn(s: Chip8State, nnn: u16) -> Chip8State {
    advance_pc(Chip8State { i: nnn, ..s }, 2)
}

/// `BNNN`: jump to `NNN + V0`, wrapping at 16 bits.
pub open spec fn spec_jump_addr_sum(s: Chip8State, nnn: u16) -> Chip8State {
    Chip8State { pc: wadd16(nnn, s.v[0] as u16), ..s }
}

/// `CXNN` given the drawn byte `r`: `VX := r & NN`.
pub open spec fn spec_rand_to_vx(s: Chip8State, x: u8, nn: u8, r: u8) -> Chip8State {
    advance_pc(set_v(s, x, r & nn), 2)
}

/// `DXYN`: draw the sprite at `[I, I+N)` at `(VX, VY)` with wrapping
/// coordinates; `VF := 1` iff a set sprite pixel landed on a cell that
/// was already on, written last; raise the redraw flag. Reading sprite
/// bytes past the end of memory is fatal.
pub open spec fn spec_draw(s: Chip8State, w: u16, x: u8, y: u8, n: u8) -> Result<
    Chip8State,
    Chip8Error,
> {
    if n > 0 && s.i + n > MEM_SIZE {
        Err(Chip8Error::MemoryOutOfBounds { opcode: w, pc: s.pc })
    } else {
        let px0 = s.v[x as int];
        let py0 = s.v[y as int];
        let flag: u8 = if draw_collision(s.vram, s.memory, s.i, px0, py0, n) { 1 } else { 0 };
        Ok(
            advance_pc(
                set_v(
                    Chip8State {
                        vram: draw_fb(s.vram, s.memory, s.i, px0, py0, n),
                        draw_flag: true,
                        ..s
                    },
                    0xF,
                    flag,
                ),
                2,
            ),
        )
    }
}

/// `EX9E` / `EXA1`: skip on the keypad state of key `VX`. A register
/// value outside 0-15 is a fatal keypad indexing violation.
pub open spec fn spec_skip_on_key(s: Chip8State, w: u16, x: u8, want_pressed: bool) -> Result<
    Chip8State,
    Chip8Error,
> {
    if s.v[x as int] >= NUM_KEYS {
        Err(Chip8Error::KeypadOutOfRange { opcode: w, pc: s.pc })
    } else {
        let pressed = s.keypad[s.v[x as int] as int] != 0;
        Ok(spec_skip_if(s, pressed == want_pressed))
    }
}

/// `FX07`: `VX :=` delay timer.
pub open spec fn spec_set_vx_to_delay(s: Chip8State, x: u8) -> Chip8State {
    advance_pc(set_v(s, x, s.delay_t), 2)
}

/// `FX0A`: enter the key-wait state, remembering which register is to
/// receive the key index; the next key-down event writes its key there
/// and resumes the machine (see `spec_handle_input`).
pub open spec fn spec_wait_for_key_press(s: Chip8State, x: u8) -> Chip8State {
    advance_pc(Chip8State { stopped: true, wait_reg: x, ..s }, 2)
}

/// `FX15`: delay timer `:= VX`.
pub open spec fn spec_set_delay_to_vx(s: Chip8State, x: u8) -> Chip8State {
    advance_pc(Chip8State { delay_t: s.v[x as int], ..s }, 2)
}

/// `FX18`: sound timer `:= VX`.
pub open spec fn spec_set_sound_to_vx(s: Chip8State, x: u8) -> Chip8State {
    advance_pc(Chip8State { sound_t: s.v[x as int], ..s }, 2)
}

/// `FX1E`: `I := I + VX`, wrapping at 16 bits; `VF := 1` iff the
/// unwrapped sum exceeds the 12-bit addressable range, written last.
pub open spec fn spec_add_vx_to_i(s: Chip8State, x: u8) -> Chip8State {
    let flag: u8 = if s.i + s.v[x as int] > 0xFFF { 1 } else { 0 };
    advance_pc(
        set_v(Chip8State { i: wadd16(s.i, s.v[x as int] as u16), ..s }, 0xF, flag),
        2,
    )
}

/// `FX29`: `I :=` the font glyph base address of `VX`, `5 * VX`.
pub open spec fn spec_set_i_to_sprite_addr(s: Chip8State, x: u8) -> Chip8State {
    advance_pc(Chip8State { i: (s.v[x as int] * 5) as u16, ..s }, 2)
}

/// `FX33`: write the hundreds, tens and ones digits of `VX` at
/// `[I, I+2]`. Writing past the end of memory is fatal.
pub open spec fn spec_set_bcd(s: Chip8State, w: u16, x: u8) -> Result<Chip8State, Chip8Error> {
    if s.i + 2 >= MEM_SIZE {
        Err(Chip8Error::MemoryOutOfBounds { opcode: w, pc: s.pc })
    } else {
        let val = s.v[x as int];
        let mem = s.memory
            .update(s.i as int, (val / 100) as u8)
            .update(s.i + 1, ((val / 10) % 10) as u8)
            .update(s.i + 2, (val % 10) as u8);
        Ok(advance_pc(Chip8State { memory: mem, ..s }, 2))
    }
}

/// `FX55`: write `V0..VX` inclusive to memory starting at `I`. Writing
/// past the end of memory is fatal.
pub open spec fn spec_dump_registers(s: Chip8State, w: u16, x: u8) -> Result<
    Chip8State,
    Chip8Error,
> {
    if s.i + x >= MEM_SIZE {
        Err(Chip8Error::MemoryOutOfBounds { opcode: w, pc: s.pc })
    } else {
        let mem = Seq::new(
            s.memory.len(),
            |j: int| if s.i <= j <= s.i + x { s.v[j - s.i] } else { s.memory[j] },
        );
        Ok(advance_pc(Chip8State { memory: mem, ..s }, 2))
    }
}

/// `FX65`: read `V0..VX` inclusive from memory starting at `I`. Reading
/// past the end of memory is fatal.
pub open spec fn spec_load_registers(s: Chip8State, w: u16, x: u8) -> Result<
    Chip8State,
    Chip8Error,
> {
    if s.i + x >= MEM_SIZE {
        Err(Chip8Error::MemoryOutOfBounds { opcode: w, pc: s.pc })
    } else {
        let regs = Seq::new(
            s.v.len(),
            |j: int| if j <= x { s.memory[s.i + j] } else { s.v[j] },
        );
        Ok(advance_pc(Chip8State { v: regs, ..s }, 2))
    }
}

/// The effect of executing one decoded opcode `op` (with instruction
/// word `w` for diagnostics) on state `s`; `r` is the byte drawn from
/// the random source, read only by `CXNN`.
pub open spec fn spec_exec(s: Chip8State, w: u16, op: Opcode, r: u8) -> Result<
    Chip8State,
    Chip8Error,
> {
    match op {
        Opcode::ClearScreen => Ok(spec_clear_screen(s)),
        Opcode::ReturnFromSub => spec_return_from_sub(s, w),
        Opcode::Jump { nnn } => Ok(spec_jump_addr(s, nnn)),
        Opcode::Call { nnn } => spec_call_sub_at_nnn(s, w, nnn),
        Opcode::SkipEqImm { x, nn } => Ok(spec_skip_if_vx_equal_to_nn(s, x, nn)),
        Opcode::SkipNeImm { x, nn } => Ok(spec_skip_if_vx_not_equal_to_nn(s, x, nn)),
        Opcode::SkipEqReg { x, y } => Ok(spec_skip_if_vx_equal_to_vy(s, x, y)),
        Opcode::SetImm { x, nn } => Ok(spec_set_vx_to_immediate(s, x, nn)),
        Opcode::AddImm { x, nn } => Ok(spec_add_nn_to_vx(s, x, nn)),
        Opcode::Assign { x, y } => Ok(spec_assign_vy_to_vx(s, x, y)),
        Opcode::Or { x, y } => Ok(spec_vx_or_vy(s, x, y)),
        Opcode::And { x, y } => Ok(spec_vx_and_vy(s, x, y)),
        Opcode::Xor { x, y } => Ok(spec_vx_xor_vy(s, x, y)),
        Opcode::AddReg { x, y } => Ok(spec_add_vy_to_vx(s, x, y)),
        Opcode::SubReg { x, y } => Ok(spec_sub_vy_to_vx(s, x, y)),
        Opcode::ShiftRight { x } => Ok(spec_shift_vx_right(s, x)),
        Opcode::SubFrom { x, y } => Ok(spec_sub_vx_to_vy(s, x, y)),
        Opcode::ShiftLeft { x } => Ok(spec_shift_vx_left(s, x)),
        Opcode::SkipNeReg { x, y } => Ok(spec_skip_if_vx_not_equal_to_vy(s, x, y)),
        Opcode::SetIndex { nnn } => Ok(spec_set_memory_nnn(s, nnn)),
        Opcode::JumpPlusV0 { nnn } => Ok(spec_jump_addr_sum(s, nnn)),
        Opcode::Random { x, nn } => Ok(spec_rand_to_vx(s, x, nn, r)),
        Opcode::Draw { x, y, n } => spec_draw(s, w, x, y, n),
        Opcode::SkipKeyPressed { x } => spec_skip_on_key(s, w, x, true),
        Opcode::SkipKeyNotPressed { x } => spec_skip_on_key(s, w, x, false),
        Opcode::ReadDelay { x } => Ok(spec_set_vx_to_delay(s, x)),
        Opcode::WaitKey { x } => Ok(spec_wait_for_key_press(s, x)),
        Opcode::SetDelay { x } => Ok(spec_set_delay_to_vx(s, x)),
        Opcode::SetSound { x } => Ok(spec_set_sound_to_vx(s, x)),
        Opcode::AddIndex { x } => Ok(spec_add_vx_to_i(s, x)),
        Opcode::IndexFont { x } => Ok(spec_set_i_to_sprite_addr(s, x)),
        Opcode::StoreBcd { x } => spec_set_bcd(s, w, x),
        Opcode::DumpRegs { x } => spec_dump_registers(s, w, x),
        Opcode::LoadRegs { x } => spec_load_registers(s, w, x),
    }
}

/// The timer tick at the end of every executed instruction: each timer
/// decrements by exactly 1 when non-zero.
pub open spec fn spec_tick_timers(s: Chip8State) -> Chip8State {
    Chip8State {
        delay_t: if s.delay_t > 0 { (s.delay_t - 1) as u8 } else { 0 },
        sound_t: if s.sound_t > 0 { (s.sound_t - 1) as u8 } else { 0 },
        ..s
    }
}

/// The instruction word fetched big-endian at the program counter.
pub open spec fn spec_fetch(s: Chip8State) -> u16 {
    spec_combine_bytes(s.memory[s.pc + 1], s.memory[s.pc as int])
}

/// A 16-bit word from a low and a high byte.
pub open spec fn spec_combine_bytes(low: u8, high: u8) -> u16 {
    (high * 256 + low) as u16
}

/// One full `step` on state `s` with random draw `r`: a no-op while the
/// machine awaits a key; otherwise fetch, decode, execute, then tick the
/// timers. Every error leaves the state unchanged and halts that run.
pub open spec fn spec_step(s: Chip8State, r: u8) -> Result<Chip8State, Chip8Error> {
    if s.stopped {
        Ok(s)
    } else if s.pc + 1 >= MEM_SIZE {
        Err(Chip8Error::FetchOutOfBounds { pc: s.pc })
    } else {
        let w = spec_fetch(s);
        match spec_decode(w) {
            None => Err(Chip8Error::UnknownOpcode { opcode: w, pc: s.pc }),
            Some(op) => match spec_exec(s, w, op, r) {
                Ok(s1) => Ok(spec_tick_timers(s1)),
                Err(e) => Err(e),
            },
        }
    }
}

/// Pair an executable call's `Result<(), _>` with the state it left
/// behind, for comparison against a transition's `Result<Chip8State, _>`.
pub open spec fn result_state(res: Result<(), Chip8Error>, s: Chip8State) -> Result<
    Chip8State,
    Chip8Error,
> {
    match res {
        Ok(_) => Ok(s),
        Err(e) => Err(e),
    }
}

/// A key event: a logical key index 0-15 going down or up.
pub enum KeyEvent {
    Up(usize),
    Down(usize),
}

/// The effect of a key event. A key-down event presses the key, and if
/// the machine was awaiting a key it resumes, storing the key index in
/// the register chosen by `FX0A`. A key-up event releases the key. An
/// index outside 0-15 is caller misuse, rejected without a state change.
pub open spec fn spec_handle_input(s: Chip8State, key_event: KeyEvent) -> Result<
    Chip8State,
    Chip8Error,
> {
    match key_event {
        KeyEvent::Down(key) => {
            if key >= NUM_KEYS {
                Err(Chip8Error::KeyOutOfRange { key })
            } else if s.stopped {
                Ok(
                    Chip8State {
                        keypad: s.keypad.update(key as int, 1u8),
                        stopped: false,
                        v: s.v.update(s.wait_reg as int, key as u8),
                        ..s
                    },
                )
            } else {
                Ok(Chip8State { keypad: s.keypad.update(key as int, 1u8), ..s })
            }
        },
        KeyEvent::Up(key) => {
            if key >= NUM_KEYS {
                Err(Chip8Error::KeyOutOfRange { key })
            } else {
                Ok(Chip8State { keypad: s.keypad.update(key as int, 0u8), ..s })
            }
        },
    }
}

/// The effect of loading a program image: the bytes are copied verbatim
/// to memory starting at `PROGRAM_START`; an image that does not fit is
/// rejected without a state change.
pub open spec fn spec_load(s: Chip8State, rom: Seq<u8>) -> Result<Chip8State, Chip8Error> {
    if rom.len() > MEM_SIZE - PROGRAM_START {
        Err(Chip8Error::RomTooLarge { rom_len: rom.len() as usize })
    } else {
        let mem = Seq::new(
            s.memory.len(),
            |j: int| if PROGRAM_START <= j < PROGRAM_START + rom.len() {
                rom[j - PROGRAM_START]
            } else {
                s.memory[j]
            },
        );
        Ok(Chip8State { memory: mem, ..s })
    }
}

} // verus!
