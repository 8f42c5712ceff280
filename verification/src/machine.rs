//! The executable interpreter core: the `Chip8` state container and the
//! fetch-decode-execute cycle, verified against the transition semantics
//! in `semantics`.

use vstd::prelude::*;

use crate::decode::{decode, Opcode};
use crate::semantics::{
    result_state, spec_add_nn_to_vx, spec_add_vx_to_i, spec_add_vy_to_vx, spec_assign_vy_to_vx,
    spec_call_sub_at_nnn, spec_clear_screen, spec_combine_bytes, spec_draw, spec_dump_registers,
    spec_handle_input, spec_jump_addr, spec_jump_addr_sum, spec_load, spec_load_registers,
    spec_rand_to_vx, spec_return_from_sub, spec_set_bcd, spec_set_delay_to_vx, spec_set_i_to_sprite_addr,
    spec_set_memory_nnn, spec_set_sound_to_vx, spec_skip_if, spec_set_vx_to_delay, spec_set_vx_to_immediate,
    spec_shift_vx_left, spec_shift_vx_right, spec_skip_if_vx_equal_to_nn, spec_skip_if_vx_equal_to_vy,
    spec_exec, spec_skip_if_vx_not_equal_to_nn, spec_skip_if_vx_not_equal_to_vy, spec_skip_on_key, spec_step,
    spec_sub_vx_to_vy, spec_sub_vy_to_vx, spec_tick_timers, spec_vx_and_vy, spec_vx_or_vy,
    spec_vx_xor_vy, spec_wait_for_key_press, KeyEvent,
};
use crate::screen::{
    before, collision_before, draw_collision, draw_fb, flip_cell, flips_before,
    lemma_draw_complete, lemma_row_rollover, lemma_sprite_target_injective, spec_col_divisor,
    sprite_on, sprite_target,
};
use crate::state::{
    spec_font, spec_init, wadd16, wadd8, wsub8, Chip8Error, Chip8State, MEM_SIZE, NUM_KEYS,
    NUM_REGS, PROGRAM_START, SCREEN_SIZE, STACK_SIZE,
};

verus! {

/// Relies on `rand::random::<u8>`: a byte drawn from the thread-local
/// generator, uniformly distributed over 0-255. Nothing is assumed of
/// the value; callers must hold for every byte that can come back.
#[verifier::external_body]
fn random_byte() -> u8 {
    rand::random::<u8>()
}

/// 16-bit wrapping addition.
fn wrap_add16(a: u16, b: u16) -> (r: u16)
    ensures
        r == wadd16(a, b),
{
    let s: u32 = a as u32 + b as u32;
    (s % 0x10000) as u16
}

/// 8-bit wrapping addition.
fn wrap_add8(a: u8, b: u8) -> (r: u8)
    ensures
        r == wadd8(a, b),
{
    let s: u16 = a as u16 + b as u16;
    (s % 0x100) as u8
}

/// 8-bit wrapping subtraction.
fn wrap_sub8(a: u8, b: u8) -> (r: u8)
    ensures
        r == wsub8(a, b),
{
    let s: u16 = a as u16 + 0x100 - b as u16;
    (s % 0x100) as u8
}

/// The divisor that isolates sprite column `c` of a row byte.
fn col_divisor(c: u8) -> (d: u8)
    requires
        c < 8,
    ensures
        d == spec_col_divisor(c),
        d >= 1,
{
    if c == 0 {
        128
    } else if c == 1 {
        64
    } else if c == 2 {
        32
    } else if c == 3 {
        16
    } else if c == 4 {
        8
    } else if c == 5 {
        4
    } else if c == 6 {
        2
    } else {
        1
    }
}

/// Combine a low and a high byte into a 16-bit instruction word.
pub fn combine_bytes(low: u8, high: u8) -> (w: u16)
    ensures
        w == spec_combine_bytes(low, high),
{
    high as u16 * 256 + low as u16
}

/// The interpreter core. It owns all machine state and is mutated
/// exclusively through `step`, `load` and `handle_input`; its view is
/// the abstract `Chip8State`.
#[derive(Debug)]
pub struct Chip8 {
    i: u16,
    pc: u16,
    sp: u16,
    stack: Vec<u16>,
    v: Vec<u8>,
    memory: Vec<u8>,
    vram: Vec<u8>,
    keypad: Vec<u8>,
    delay_t: u8,
    sound_t: u8,
    draw_flag: bool,
    stopped: bool,
    wait_reg: u8,
}

impl View for Chip8 {
    type V = Chip8State;

    closed spec fn view(&self) -> Chip8State {
        Chip8State {
            i: self.i,
            pc: self.pc,
            sp: self.sp,
            stack: self.stack@,
            v: self.v@,
            memory: self.memory@,
            vram: self.vram@,
            keypad: self.keypad@,
            delay_t: self.delay_t,
            sound_t: self.sound_t,
            draw_flag: self.draw_flag,
            stopped: self.stopped,
            wait_reg: self.wait_reg,
        }
    }
}

impl Chip8 {
    /// Construct the machine: registers and memory zeroed, the program
    /// counter at `PROGRAM_START`, and the font set installed at the
    /// bottom of memory.
    pub fn new() -> (c8: Chip8)
        ensures
            c8@ == spec_init(),
            c8@.wf(),
    {
        let font: Vec<u8> = vec![
            0xF0u8, 0x90, 0x90, 0x90, 0xF0, // 0
            0x20, 0x60, 0x20, 0x20, 0x70, // 1
            0xF0, 0x10, 0xF0, 0x80, 0xF0, // 2
            0xF0, 0x10, 0xF0, 0x10, 0xF0, // 3
            0x90, 0x90, 0xF0, 0x10, 0x10, // 4
            0xF0, 0x80, 0xF0, 0x10, 0xF0, // 5
            0xF0, 0x80, 0xF0, 0x90, 0xF0, // 6
            0xF0, 0x10, 0x20, 0x40, 0x40, // 7
            0xF0, 0x90, 0xF0, 0x90, 0xF0, // 8
            0xF0, 0x90, 0xF0, 0x10, 0xF0, // 9
            0xF0, 0x90, 0xF0, 0x90, 0x90, // A
            0xE0, 0x90, 0xE0, 0x90, 0xE0, // B
            0xF0, 0x80, 0x80, 0x80, 0xF0, // C
            0xE0, 0x90, 0x90, 0x90, 0xE0, // D
            0xF0, 0x80, 0xF0, 0x80, 0xF0, // E
            0xF0, 0x80, 0xF0, 0x80, 0x80, // F
        ];
        proof {
            assert(font@ =~= spec_font());
        }
        let mut memory: Vec<u8> = vec![0u8; MEM_SIZE];
        let mut k: usize = 0;
        while k < 80
            invariant
                memory@.len() == MEM_SIZE,
                font@ == spec_font(),
                k <= 80,
                forall|j: int| 0 <= j < k ==> memory@[j] == spec_font()[j],
                forall|j: int| k <= j < MEM_SIZE ==> memory@[j] == 0u8,
            decreases 80 - k,
        {
            let b = font[k];
            memory[k] = b;
            k += 1;
        }
        let c8 = Chip8 {
            i: 0,
            pc: PROGRAM_START as u16,
            sp: 0,
            stack: vec![0u16; STACK_SIZE],
            v: vec![0u8; NUM_REGS],
            memory,
            vram: vec![0u8; SCREEN_SIZE],
            keypad: vec![0u8; NUM_KEYS],
            delay_t: 0,
            sound_t: 0,
            draw_flag: false,
            stopped: false,
            wait_reg: 0,
        };
        proof {
            assert(c8@.stack =~= spec_init().stack);
            assert(c8@.v =~= spec_init().v);
            assert(c8@.memory =~= spec_init().memory);
            assert(c8@.vram =~= spec_init().vram);
            assert(c8@.keypad =~= spec_init().keypad);
            assert(c8@ =~= spec_init());
        }
        c8
    }

    /// Read the byte at address `addr`.
    pub fn read(&self, addr: u16) -> (b: u8)
        requires
            self@.wf(),
            addr < MEM_SIZE,
        ensures
            b == self@.memory[addr as int],
    {
        self.memory[addr as usize]
    }

    /// Write `data` at address `addr`.
    pub fn write(&mut self, addr: u16, data: u8)
        requires
            old(self)@.wf(),
            addr < MEM_SIZE,
        ensures
            final(self)@.wf(),
            final(self)@ == (Chip8State { memory: old(self)@.memory.update(addr as int, data), ..old(self)@ }),
    {
        self.memory[addr as usize] = data;
        proof {
            assert(self@ =~= (Chip8State {
                memory: old(self)@.memory.update(addr as int, data),
                ..old(self)@
            }));
        }
    }

    /// Copy a program image verbatim into memory starting at
    /// `PROGRAM_START`. An image that does not fit in memory is rejected
    /// with `RomTooLarge`, and the machine is unchanged.
    pub fn load(&mut self, rom: &[u8]) -> (res: Result<(), Chip8Error>)
        requires
            old(self)@.wf(),
        ensures
            final(self)@.wf(),
            result_state(res, final(self)@) == spec_load(old(self)@, rom@),
            res is Err ==> final(self)@ == old(self)@,
    {
        if rom.len() > MEM_SIZE - PROGRAM_START {
            return Err(Chip8Error::RomTooLarge { rom_len: rom.len() });
        }
        let ghost s0 = self@;
        let mut k: usize = 0;
        while k < rom.len()
            invariant
                self@.memory.len() == MEM_SIZE,
                rom@.len() <= MEM_SIZE - PROGRAM_START,
                k <= rom@.len(),
                self@ == (Chip8State { memory: self@.memory, ..s0 }),
                forall|j: int|
                    PROGRAM_START <= j < PROGRAM_START + k ==> self@.memory[j] == rom@[j
                        - PROGRAM_START],
                forall|j: int|
                    0 <= j < MEM_SIZE && !(PROGRAM_START <= j < PROGRAM_START + k)
                        ==> self@.memory[j] == s0.memory[j],
            decreases rom@.len() - k,
        {
            let b = rom[k];
            self.memory[PROGRAM_START + k] = b;
            k += 1;
        }
        proof {
            let spec_mem = Seq::new(
                s0.memory.len(),
                |j: int| if PROGRAM_START <= j < PROGRAM_START + rom@.len() {
                    rom@[j - PROGRAM_START]
                } else {
                    s0.memory[j]
                },
            );
            assert(self@.memory =~= spec_mem);
            assert(self@ =~= (Chip8State { memory: spec_mem, ..s0 }));
        }
        Ok(())
    }

    /// Apply a key event. A key-down event presses the key and, if the
    /// machine was awaiting a key, resumes it and stores the key index
    /// in the register chosen by `FX0A`; a key-up event releases the
    /// key. An index outside 0-15 is rejected with `KeyOutOfRange`.
    pub fn handle_input(&mut self, key_event: KeyEvent) -> (res: Result<(), Chip8Error>)
        requires
            old(self)@.wf(),
        ensures
            final(self)@.wf(),
            result_state(res, final(self)@) == spec_handle_input(old(self)@, key_event),
            res is Err ==> final(self)@ == old(self)@,
    {
        match key_event {
            KeyEvent::Down(key) => {
                if key >= NUM_KEYS {
                    return Err(Chip8Error::KeyOutOfRange { key });
                }
                self.keypad[key] = 1;
                if self.stopped {
                    self.stopped = false;
                    let wr = self.wait_reg;
                    self.v[wr as usize] = key as u8;
                    proof {
                        assert(self@ =~= (Chip8State {
                            keypad: old(self)@.keypad.update(key as int, 1u8),
                            stopped: false,
                            v: old(self)@.v.update(old(self)@.wait_reg as int, key as u8),
                            ..old(self)@
                        }));
                    }
                } else {
                    proof {
                        assert(self@ =~= (Chip8State {
                            keypad: old(self)@.keypad.update(key as int, 1u8),
                            ..old(self)@
                        }));
                    }
                }
                Ok(())
            },
            KeyEvent::Up(key) => {
                if key >= NUM_KEYS {
                    return Err(Chip8Error::KeyOutOfRange { key });
                }
                self.keypad[key] = 0;
                proof {
                    assert(self@ =~= (Chip8State {
                        keypad: old(self)@.keypad.update(key as int, 0u8),
                        ..old(self)@
                    }));
                }
                Ok(())
            },
        }
    }

    /// The framebuffer: a flat, row-major grid of 64 x 32 cells, each 0
    /// (off) or 1 (on).
    pub fn get_framebuffer(&self) -> (fb: &Vec<u8>)
        ensures
            fb@ == self@.vram,
    {
        &self.vram
    }

    /// Whether the framebuffer changed since the presentation layer last
    /// consumed it. The core raises this flag and never clears it.
    pub fn should_draw(&self) -> (b: bool)
        ensures
            b == self@.draw_flag,
    {
        self.draw_flag
    }

    /// Whether a tone should be audible now: the sound timer is running.
    pub fn should_beep(&self) -> (b: bool)
        ensures
            b == (self@.sound_t != 0),
    {
        self.sound_t != 0
    }

    /// The value of register `VX`.
    pub fn get_register(&self, x: u8) -> (val: u8)
        requires
            self@.wf(),
            x < NUM_REGS,
        ensures
            val == self@.v[x as int],
    {
        self.v[x as usize]
    }

    /// The program counter.
    pub fn get_pc(&self) -> (pc: u16)
        ensures
            pc == self@.pc,
    {
        self.pc
    }

    /// The index register `I`.
    pub fn get_i(&self) -> (i: u16)
        ensures
            i == self@.i,
    {
        self.i
    }

    /// The stack pointer: the current call depth.
    pub fn get_sp(&self) -> (sp: u16)
        ensures
            sp == self@.sp,
    {
        self.sp
    }

    /// The delay timer.
    pub fn get_delay(&self) -> (t: u8)
        ensures
            t == self@.delay_t,
    {
        self.delay_t
    }

    /// The sound timer.
    pub fn get_sound(&self) -> (t: u8)
        ensures
            t == self@.sound_t,
    {
        self.sound_t
    }

    /// Whether the machine is awaiting a keypress.
    pub fn is_stopped(&self) -> (b: bool)
        ensures
            b == self@.stopped,
    {
        self.stopped
    }
}

impl Chip8 {
    /// `00E0`: clear the framebuffer to all-off and raise the redraw
    /// flag; afterwards every cell reads zero.
    pub fn clear_screen(&mut self)
        requires
            old(self)@.wf(),
        ensures
            final(self)@.wf(),
            final(self)@ == spec_clear_screen(old(self)@),
            forall|t: int| 0 <= t < SCREEN_SIZE ==> final(self)@.vram[t] == 0,
            final(self)@.draw_flag,
    {
        let ghost s0 = self@;
        let mut k: usize = 0;
        while k < SCREEN_SIZE
            invariant
                self@.vram.len() == SCREEN_SIZE,
                k <= SCREEN_SIZE,
                self@ == (Chip8State { vram: self@.vram, ..s0 }),
                forall|j: int| 0 <= j < k ==> self@.vram[j] == 0u8,
                forall|j: int| k <= j < SCREEN_SIZE ==> self@.vram[j] == s0.vram[j],
            decreases SCREEN_SIZE - k,
        {
            self.vram[k] = 0;
            k += 1;
        }
        self.draw_flag = true;
        self.pc = wrap_add16(self.pc, 2);
        proof {
            assert(self@.vram =~= Seq::new(s0.vram.len(), |j: int| 0u8));
            assert(self@ =~= spec_clear_screen(s0));
        }
    }

    /// `00EE`: pop the return address and set the program counter just
    /// past the call site. Fails with `StackUnderflow` on an empty
    /// stack, leaving the machine unchanged.
    pub fn return_from_sub(&mut self, w: u16) -> (res: Result<(), Chip8Error>)
        requires
            old(self)@.wf(),
        ensures
            final(self)@.wf(),
            result_state(res, final(self)@) == spec_return_from_sub(old(self)@, w),
            res is Err ==> final(self)@ == old(self)@,
    {
        if self.sp == 0 {
            return Err(Chip8Error::StackUnderflow { opcode: w, pc: self.pc });
        }
        self.sp = self.sp - 1;
        let ret = self.stack[self.sp as usize];
        self.pc = wrap_add16(ret, 2);
        proof {
            assert(self@ =~= (Chip8State {
                sp: (old(self)@.sp - 1) as u16,
                pc: wadd16(old(self)@.stack[old(self)@.sp - 1], 2),
                ..old(self)@
            }));
        }
        Ok(())
    }

    /// `1NNN`: jump to `NNN`.
    pub fn jump_addr(&mut self, nnn: u16)
        requires
            old(self)@.wf(),
        ensures
            final(self)@.wf(),
            final(self)@ == spec_jump_addr(old(self)@, nnn),
    {
        self.pc = nnn;
        proof {
            assert(self@ =~= spec_jump_addr(old(self)@, nnn));
        }
    }

    /// `2NNN`: push the call-site program counter and jump to `NNN`.
    /// Fails with `StackOverflow` at a call depth of 16, leaving the
    /// machine unchanged.
    pub fn call_sub_at_nnn(&mut self, w: u16, nnn: u16) -> (res: Result<(), Chip8Error>)
        requires
            old(self)@.wf(),
        ensures
            final(self)@.wf(),
            result_state(res, final(self)@) == spec_call_sub_at_nnn(old(self)@, w, nnn),
            res is Err ==> final(self)@ == old(self)@,
    {
        if self.sp as usize >= STACK_SIZE {
            return Err(Chip8Error::StackOverflow { opcode: w, pc: self.pc });
        }
        let pc = self.pc;
        self.stack[self.sp as usize] = pc;
        self.sp = self.sp + 1;
        self.pc = nnn;
        proof {
            assert(self@ =~= (Chip8State {
                stack: old(self)@.stack.update(old(self)@.sp as int, old(self)@.pc),
                sp: (old(self)@.sp + 1) as u16,
                pc: nnn,
                ..old(self)@
            }));
        }
        Ok(())
    }

    /// Advance the program counter by 4 when `cond` holds, else by 2.
    fn skip_if(&mut self, cond: bool)
        requires
            old(self)@.wf(),
        ensures
            final(self)@.wf(),
            final(self)@ == spec_skip_if(old(self)@, cond),
    {
        let k: u16 = if cond { 4 } else { 2 };
        self.pc = wrap_add16(self.pc, k);
        proof {
            assert(self@ =~= spec_skip_if(old(self)@, cond));
        }
    }

    /// `3XNN`: skip the next instruction if `VX == NN`.
    pub fn skip_if_vx_equal_to_nn(&mut self, x: u8, nn: u8)
        requires
            old(self)@.wf(),
            x < NUM_REGS,
        ensures
            final(self)@.wf(),
            final(self)@ == spec_skip_if_vx_equal_to_nn(old(self)@, x, nn),
    {
        let cond = self.v[x as usize] == nn;
        self.skip_if(cond);
    }

    /// `4XNN`: skip the next instruction if `VX != NN`.
    pub fn skip_if_vx_not_equal_to_nn(&mut self, x: u8, nn: u8)
        requires
            old(self)@.wf(),
            x < NUM_REGS,
        ensures
            final(self)@.wf(),
            final(self)@ == spec_skip_if_vx_not_equal_to_nn(old(self)@, x, nn),
    {
        let cond = self.v[x as usize] != nn;
        self.skip_if(cond);
    }

    /// `5XY0`: skip the next instruction if `VX == VY`.
    pub fn skip_if_vx_equal_to_vy(&mut self, x: u8, y: u8)
        requires
            old(self)@.wf(),
            x < NUM_REGS,
            y < NUM_REGS,
        ensures
            final(self)@.wf(),
            final(self)@ == spec_skip_if_vx_equal_to_vy(old(self)@, x, y),
    {
        let cond = self.v[x as usize] == self.v[y as usize];
        self.skip_if(cond);
    }

    /// `9XY0`: skip the next instruction if `VX != VY`.
    pub fn skip_if_vx_not_equal_to_vy(&mut self, x: u8, y: u8)
        requires
            old(self)@.wf(),
            x < NUM_REGS,
            y < NUM_REGS,
        ensures
            final(self)@.wf(),
            final(self)@ == spec_skip_if_vx_not_equal_to_vy(old(self)@, x, y),
    {
        let cond = self.v[x as usize] != self.v[y as usize];
        self.skip_if(cond);
    }

    /// `6XNN`: `VX := NN`; the program counter advances by exactly 2.
    pub fn set_vx_to_immediate(&mut self, x: u8, nn: u8)
        requires
            old(self)@.wf(),
            x < NUM_REGS,
        ensures
            final(self)@.wf(),
            final(self)@ == spec_set_vx_to_immediate(old(self)@, x, nn),
            final(self)@.v[x as int] == nn,
            final(self)@.pc == wadd16(old(self)@.pc, 2),
    {
        self.v[x as usize] = nn;
        self.pc = wrap_add16(self.pc, 2);
        proof {
            assert(self@ =~= spec_set_vx_to_immediate(old(self)@, x, nn));
        }
    }

    /// `7XNN`: `VX := VX + NN`, wrapping; no flag.
    pub fn add_nn_to_vx(&mut self, x: u8, nn: u8)
        requires
            old(self)@.wf(),
            x < NUM_REGS,
        ensures
            final(self)@.wf(),
            final(self)@ == spec_add_nn_to_vx(old(self)@, x, nn),
    {
        let a = self.v[x as usize];
        self.v[x as usize] = wrap_add8(a, nn);
        self.pc = wrap_add16(self.pc, 2);
        proof {
            assert(self@ =~= spec_add_nn_to_vx(old(self)@, x, nn));
        }
    }

    /// `8XY0`: `VX := VY`.
    pub fn assign_vy_to_vx(&mut self, x: u8, y: u8)
        requires
            old(self)@.wf(),
            x < NUM_REGS,
            y < NUM_REGS,
        ensures
            final(self)@.wf(),
            final(self)@ == spec_assign_vy_to_vx(old(self)@, x, y),
    {
        self.v[x as usize] = self.v[y as usize];
        self.pc = wrap_add16(self.pc, 2);
        proof {
            assert(self@ =~= spec_assign_vy_to_vx(old(self)@, x, y));
        }
    }

    /// `8XY1`: `VX := VX | VY`.
    pub fn vx_or_vy(&mut self, x: u8, y: u8)
        requires
            old(self)@.wf(),
            x < NUM_REGS,
            y < NUM_REGS,
        ensures
            final(self)@.wf(),
            final(self)@ == spec_vx_or_vy(old(self)@, x, y),
    {
        let r = self.v[x as usize] | self.v[y as usize];
        self.v[x as usize] = r;
        self.pc = wrap_add16(self.pc, 2);
        proof {
            assert(self@ =~= spec_vx_or_vy(old(self)@, x, y));
        }
    }

    /// `8XY2`: `VX := VX & VY`.
    pub fn vx_and_vy(&mut self, x: u8, y: u8)
        requires
            old(self)@.wf(),
            x < NUM_REGS,
            y < NUM_REGS,
        ensures
            final(self)@.wf(),
            final(self)@ == spec_vx_and_vy(old(self)@, x, y),
    {
        let r = self.v[x as usize] & self.v[y as usize];
        self.v[x as usize] = r;
        self.pc = wrap_add16(self.pc, 2);
        proof {
            assert(self@ =~= spec_vx_and_vy(old(self)@, x, y));
        }
    }

    /// `8XY3`: `VX := VX ^ VY`.
    pub fn vx_xor_vy(&mut self, x: u8, y: u8)
        requires
            old(self)@.wf(),
            x < NUM_REGS,
            y < NUM_REGS,
        ensures
            final(self)@.wf(),
            final(self)@ == spec_vx_xor_vy(old(self)@, x, y),
    {
        let r = self.v[x as usize] ^ self.v[y as usize];
        self.v[x as usize] = r;
        self.pc = wrap_add16(self.pc, 2);
        proof {
            assert(self@ =~= spec_vx_xor_vy(old(self)@, x, y));
        }
    }

    /// `8XY4`: `VX := VX + VY` wrapping; `VF := 1` exactly when the
    /// unwrapped sum exceeds 255 (carry), written last.
    pub fn add_vy_to_vx(&mut self, x: u8, y: u8)
        requires
            old(self)@.wf(),
            x < NUM_REGS,
            y < NUM_REGS,
        ensures
            final(self)@.wf(),
            final(self)@ == spec_add_vy_to_vx(old(self)@, x, y),
            final(self)@.v[15] == (if old(self)@.v[x as int] + old(self)@.v[y as int] > 255 {
                1u8
            } else {
                0u8
            }),
            x != 15 ==> final(self)@.v[x as int] == wadd8(
                old(self)@.v[x as int],
                old(self)@.v[y as int],
            ),
    {
        let a = self.v[x as usize];
        let b = self.v[y as usize];
        self.v[x as usize] = wrap_add8(a, b);
        self.v[0xF] = if a as u16 + b as u16 > 255 { 1 } else { 0 };
        self.pc = wrap_add16(self.pc, 2);
        proof {
            assert(self@ =~= spec_add_vy_to_vx(old(self)@, x, y));
        }
    }

    /// `8XY5`: `VX := VX - VY` wrapping; `VF := 1` exactly when
    /// `VX >= VY` before the subtraction (no borrow), written last.
    pub fn sub_vy_to_vx(&mut self, x: u8, y: u8)
        requires
            old(self)@.wf(),
            x < NUM_REGS,
            y < NUM_REGS,
        ensures
            final(self)@.wf(),
            final(self)@ == spec_sub_vy_to_vx(old(self)@, x, y),
            final(self)@.v[15] == (if old(self)@.v[x as int] >= old(self)@.v[y as int] {
                1u8
            } else {
                0u8
            }),
            x != 15 ==> final(self)@.v[x as int] == wsub8(
                old(self)@.v[x as int],
                old(self)@.v[y as int],
            ),
    {
        let a = self.v[x as usize];
        let b = self.v[y as usize];
        self.v[x as usize] = wrap_sub8(a, b);
        self.v[0xF] = if a >= b { 1 } else { 0 };
        self.pc = wrap_add16(self.pc, 2);
        proof {
            assert(self@ =~= spec_sub_vy_to_vx(old(self)@, x, y));
        }
    }

    /// `8XY7`: `VX := VY - VX` wrapping; `VF := 1` exactly when
    /// `VY >= VX` before the subtraction, written last.
    pub fn sub_vx_to_vy(&mut self, x: u8, y: u8)
        requires
            old(self)@.wf(),
            x < NUM_REGS,
            y < NUM_REGS,
        ensures
            final(self)@.wf(),
            final(self)@ == spec_sub_vx_to_vy(old(self)@, x, y),
    {
        let a = self.v[x as usize];
        let b = self.v[y as usize];
        self.v[x as usize] = wrap_sub8(b, a);
        self.v[0xF] = if b >= a { 1 } else { 0 };
        self.pc = wrap_add16(self.pc, 2);
        proof {
            assert(self@ =~= spec_sub_vx_to_vy(old(self)@, x, y));
        }
    }

    /// `8XY6`: `VF :=` the pre-shift least significant bit of `VX`;
    /// `VX := VX >> 1`; the flag is written last.
    pub fn shift_vx_right(&mut self, x: u8)
        requires
            old(self)@.wf(),
            x < NUM_REGS,
        ensures
            final(self)@.wf(),
            final(self)@ == spec_shift_vx_right(old(self)@, x),
    {
        let a = self.v[x as usize];
        self.v[x as usize] = a / 2;
        self.v[0xF] = a % 2;
        self.pc = wrap_add16(self.pc, 2);
        proof {
            assert(self@ =~= spec_shift_vx_right(old(self)@, x));
        }
    }

    /// `8XYE`: `VF :=` the pre-shift most significant bit of `VX`;
    /// `VX := VX << 1`, wrapping; the flag is written last.
    pub fn shift_vx_left(&mut self, x: u8)
        requires
            old(self)@.wf(),
            x < NUM_REGS,
        ensures
            final(self)@.wf(),
            final(self)@ == spec_shift_vx_left(old(self)@, x),
    {
        let a = self.v[x as usize];
        self.v[x as usize] = wrap_add8(a, a);
        self.v[0xF] = if a >= 128 { 1 } else { 0 };
        self.pc = wrap_add16(self.pc, 2);
        proof {
            assert(self@ =~= spec_shift_vx_left(old(self)@, x));
        }
    }

    /// `ANNN`: `I := NNN`.
    pub fn set_memory_nnn(&mut self, nnn: u16)
        requires
            old(self)@.wf(),
        ensures
            final(self)@.wf(),
            final(self)@ == spec_set_memory_nnn(old(self)@, nnn),
    {
        self.i = nnn;
        self.pc = wrap_add16(self.pc, 2);
        proof {
            assert(self@ =~= spec_set_memory_nnn(old(self)@, nnn));
        }
    }

    /// `BNNN`: jump to `NNN + V0`, wrapping at 16 bits.
    pub fn jump_addr_sum(&mut self, nnn: u16)
        requires
            old(self)@.wf(),
        ensures
            final(self)@.wf(),
            final(self)@ == spec_jump_addr_sum(old(self)@, nnn),
    {
        let v0 = self.v[0];
        self.pc = wrap_add16(nnn, v0 as u16);
        proof {
            assert(self@ =~= spec_jump_addr_sum(old(self)@, nnn));
        }
    }

    /// `CXNN` with the random draw `r` passed in: `VX := r & NN`; this
    /// part of the opcode is exact for every byte `r`.
    pub fn set_vx_masked(&mut self, x: u8, nn: u8, r: u8)
        requires
            old(self)@.wf(),
            x < NUM_REGS,
        ensures
            final(self)@.wf(),
            final(self)@ == spec_rand_to_vx(old(self)@, x, nn, r),
    {
        self.v[x as usize] = r & nn;
        self.pc = wrap_add16(self.pc, 2);
        proof {
            assert(self@ =~= spec_rand_to_vx(old(self)@, x, nn, r));
        }
    }

    /// `CXNN`: `VX :=` a random byte `& NN`. Whatever byte the generator
    /// returns, the result is masked by `NN`; with `NN == 0` the
    /// register is always zeroed.
    pub fn rand_to_vx(&mut self, x: u8, nn: u8)
        requires
            old(self)@.wf(),
            x < NUM_REGS,
        ensures
            final(self)@.wf(),
            exists|r: u8| final(self)@ == #[trigger] spec_rand_to_vx(old(self)@, x, nn, r),
            nn == 0 ==> final(self)@.v[x as int] == 0,
    {
        let r = random_byte();
        self.set_vx_masked(x, nn, r);
        proof {
            assert(r & 0 == 0) by (bit_vector);
            assert(self@ == spec_rand_to_vx(old(self)@, x, nn, r));
        }
    }

    /// `EX9E`: skip the next instruction if the key indexed by `VX` is
    /// pressed. A register value outside 0-15 fails with
    /// `KeypadOutOfRange`, leaving the machine unchanged.
    pub fn skip_if_key_pressed(&mut self, w: u16, x: u8) -> (res: Result<(), Chip8Error>)
        requires
            old(self)@.wf(),
            x < NUM_REGS,
        ensures
            final(self)@.wf(),
            result_state(res, final(self)@) == spec_skip_on_key(old(self)@, w, x, true),
            res is Err ==> final(self)@ == old(self)@,
    {
        let key = self.v[x as usize];
        if key as usize >= NUM_KEYS {
            return Err(Chip8Error::KeypadOutOfRange { opcode: w, pc: self.pc });
        }
        let cond = self.keypad[key as usize] != 0;
        self.skip_if(cond);
        Ok(())
    }

    /// `EXA1`: skip the next instruction if the key indexed by `VX` is
    /// not pressed. A register value outside 0-15 fails with
    /// `KeypadOutOfRange`, leaving the machine unchanged.
    pub fn skip_if_key_not_pressed(&mut self, w: u16, x: u8) -> (res: Result<(), Chip8Error>)
        requires
            old(self)@.wf(),
            x < NUM_REGS,
        ensures
            final(self)@.wf(),
            result_state(res, final(self)@) == spec_skip_on_key(old(self)@, w, x, false),
            res is Err ==> final(self)@ == old(self)@,
    {
        let key = self.v[x as usize];
        if key as usize >= NUM_KEYS {
            return Err(Chip8Error::KeypadOutOfRange { opcode: w, pc: self.pc });
        }
        let cond = self.keypad[key as usize] == 0;
        self.skip_if(cond);
        Ok(())
    }

    /// `FX07`: `VX :=` the delay timer.
    pub fn set_vx_to_delay(&mut self, x: u8)
        requires
            old(self)@.wf(),
            x < NUM_REGS,
        ensures
            final(self)@.wf(),
            final(self)@ == spec_set_vx_to_delay(old(self)@, x),
    {
        let t = self.delay_t;
        self.v[x as usize] = t;
        self.pc = wrap_add16(self.pc, 2);
        proof {
            assert(self@ =~= spec_set_vx_to_delay(old(self)@, x));
        }
    }

    /// `FX0A`: enter the key-wait state; until a key-down event arrives,
    /// `step` performs no work. The pressed key's index will be stored
    /// in `VX`.
    pub fn wait_for_key_press(&mut self, x: u8)
        requires
            old(self)@.wf(),
            x < NUM_REGS,
        ensures
            final(self)@.wf(),
            final(self)@ == spec_wait_for_key_press(old(self)@, x),
            final(self)@.stopped,
    {
        self.stopped = true;
        self.wait_reg = x;
        self.pc = wrap_add16(self.pc, 2);
        proof {
            assert(self@ =~= spec_wait_for_key_press(old(self)@, x));
        }
    }

    /// `FX15`: the delay timer `:= VX`.
    pub fn set_delay_to_vx(&mut self, x: u8)
        requires
            old(self)@.wf(),
            x < NUM_REGS,
        ensures
            final(self)@.wf(),
            final(self)@ == spec_set_delay_to_vx(old(self)@, x),
    {
        self.delay_t = self.v[x as usize];
        self.pc = wrap_add16(self.pc, 2);
        proof {
            assert(self@ =~= spec_set_delay_to_vx(old(self)@, x));
        }
    }

    /// `FX18`: the sound timer `:= VX`.
    pub fn set_sound_to_vx(&mut self, x: u8)
        requires
            old(self)@.wf(),
            x < NUM_REGS,
        ensures
            final(self)@.wf(),
            final(self)@ == spec_set_sound_to_vx(old(self)@, x),
    {
        self.sound_t = self.v[x as usize];
        self.pc = wrap_add16(self.pc, 2);
        proof {
            assert(self@ =~= spec_set_sound_to_vx(old(self)@, x));
        }
    }

    /// `FX1E`: `I := I + VX`, wrapping at 16 bits; `VF := 1` exactly
    /// when the unwrapped sum leaves the 12-bit addressable range,
    /// written last.
    pub fn add_vx_to_i(&mut self, x: u8)
        requires
            old(self)@.wf(),
            x < NUM_REGS,
        ensures
            final(self)@.wf(),
            final(self)@ == spec_add_vx_to_i(old(self)@, x),
    {
        let a = self.v[x as usize];
        let flag: u8 = if self.i as u32 + a as u32 > 0xFFF { 1 } else { 0 };
        self.i = wrap_add16(self.i, a as u16);
        self.v[0xF] = flag;
        self.pc = wrap_add16(self.pc, 2);
        proof {
            assert(self@ =~= spec_add_vx_to_i(old(self)@, x));
        }
    }

    /// `FX29`: `I :=` the font glyph base address for the digit in `VX`,
    /// which is five times the digit.
    pub fn set_i_to_sprite_addr(&mut self, x: u8)
        requires
            old(self)@.wf(),
            x < NUM_REGS,
        ensures
            final(self)@.wf(),
            final(self)@ == spec_set_i_to_sprite_addr(old(self)@, x),
    {
        let a = self.v[x as usize];
        self.i = a as u16 * 5;
        self.pc = wrap_add16(self.pc, 2);
        proof {
            assert(self@ =~= spec_set_i_to_sprite_addr(old(self)@, x));
        }
    }

    /// `FX33`: write the hundreds, tens and ones decimal digits of `VX`
    /// at `[I, I+2]`. Writing past the end of memory fails with
    /// `MemoryOutOfBounds`, leaving the machine unchanged.
    pub fn set_bcd(&mut self, w: u16, x: u8) -> (res: Result<(), Chip8Error>)
        requires
            old(self)@.wf(),
            x < NUM_REGS,
        ensures
            final(self)@.wf(),
            result_state(res, final(self)@) == spec_set_bcd(old(self)@, w, x),
            res is Err ==> final(self)@ == old(self)@,
    {
        if self.i as usize + 2 >= MEM_SIZE {
            return Err(Chip8Error::MemoryOutOfBounds { opcode: w, pc: self.pc });
        }
        let val = self.v[x as usize];
        let base = self.i as usize;
        self.memory[base] = val / 100;
        self.memory[base + 1] = (val / 10) % 10;
        self.memory[base + 2] = val % 10;
        self.pc = wrap_add16(self.pc, 2);
        proof {
            assert(self@ =~= (Chip8State {
                memory: old(self)@.memory
                    .update(old(self)@.i as int, (old(self)@.v[x as int] / 100) as u8)
                    .update(old(self)@.i + 1, ((old(self)@.v[x as int] / 10) % 10) as u8)
                    .update(old(self)@.i + 2, (old(self)@.v[x as int] % 10) as u8),
                pc: wadd16(old(self)@.pc, 2),
                ..old(self)@
            }));
        }
        Ok(())
    }

    /// `FX55`: write `V0..VX` inclusive into memory starting at `I`.
    /// Writing past the end of memory fails with `MemoryOutOfBounds`,
    /// leaving the machine unchanged.
    pub fn dump_registers(&mut self, w: u16, x: u8) -> (res: Result<(), Chip8Error>)
        requires
            old(self)@.wf(),
            x < NUM_REGS,
        ensures
            final(self)@.wf(),
            result_state(res, final(self)@) == spec_dump_registers(old(self)@, w, x),
            res is Err ==> final(self)@ == old(self)@,
    {
        if self.i as usize + x as usize >= MEM_SIZE {
            return Err(Chip8Error::MemoryOutOfBounds { opcode: w, pc: self.pc });
        }
        let ghost s0 = self@;
        let base = self.i as usize;
        let mut k: usize = 0;
        while k <= x as usize
            invariant
                self@.memory.len() == MEM_SIZE,
                self@.v.len() == NUM_REGS,
                x < NUM_REGS,
                base == s0.i,
                base + x < MEM_SIZE,
                k <= x + 1,
                self@ == (Chip8State { memory: self@.memory, ..s0 }),
                forall|j: int| base <= j < base + k ==> self@.memory[j] == s0.v[j - base],
                forall|j: int|
                    0 <= j < MEM_SIZE && !(base <= j < base + k) ==> self@.memory[j]
                        == s0.memory[j],
            decreases x + 1 - k,
        {
            let b = self.v[k];
            self.memory[base + k] = b;
            k += 1;
        }
        self.pc = wrap_add16(self.pc, 2);
        proof {
            let spec_mem = Seq::new(
                s0.memory.len(),
                |j: int| if s0.i <= j <= s0.i + x { s0.v[j - s0.i] } else { s0.memory[j] },
            );
            assert(self@.memory =~= spec_mem);
            assert(self@ =~= (Chip8State {
                memory: spec_mem,
                pc: wadd16(s0.pc, 2),
                ..s0
            }));
        }
        Ok(())
    }

    /// `FX65`: read `V0..VX` inclusive from memory starting at `I`.
    /// Reading past the end of memory fails with `MemoryOutOfBounds`,
    /// leaving the machine unchanged.
    pub fn load_registers(&mut self, w: u16, x: u8) -> (res: Result<(), Chip8Error>)
        requires
            old(self)@.wf(),
            x < NUM_REGS,
        ensures
            final(self)@.wf(),
            result_state(res, final(self)@) == spec_load_registers(old(self)@, w, x),
            res is Err ==> final(self)@ == old(self)@,
    {
        if self.i as usize + x as usize >= MEM_SIZE {
            return Err(Chip8Error::MemoryOutOfBounds { opcode: w, pc: self.pc });
        }
        let ghost s0 = self@;
        let base = self.i as usize;
        let mut k: usize = 0;
        while k <= x as usize
            invariant
                self@.memory.len() == MEM_SIZE,
                self@.v.len() == NUM_REGS,
                x < NUM_REGS,
                base == s0.i,
                base + x < MEM_SIZE,
                k <= x + 1,
                self@ == (Chip8State { v: self@.v, ..s0 }),
                forall|j: int| 0 <= j < k ==> self@.v[j] == s0.memory[base + j],
                forall|j: int| k <= j < NUM_REGS ==> self@.v[j] == s0.v[j],
            decreases x + 1 - k,
        {
            let b = self.memory[base + k];
            self.v[k] = b;
            k += 1;
        }
        self.pc = wrap_add16(self.pc, 2);
        proof {
            let spec_regs = Seq::new(
                s0.v.len(),
                |j: int| if j <= x { s0.memory[s0.i + j] } else { s0.v[j] },
            );
            assert(self@.v =~= spec_regs);
            assert(self@ =~= (Chip8State {
                v: spec_regs,
                pc: wadd16(s0.pc, 2),
                ..s0
            }));
        }
        Ok(())
    }

    /// `DXYN`: XOR-composite the 8-pixel-wide, `N`-row sprite stored at
    /// `[I, I+N)` onto the framebuffer at `(VX, VY)`, with coordinates
    /// wrapping modulo the screen size; `VF := 1` exactly when a set
    /// sprite pixel landed on a cell that was already on, written last;
    /// raise the redraw flag. Sprite bytes past the end of memory fail
    /// with `MemoryOutOfBounds`, leaving the machine unchanged.
    pub fn draw(&mut self, w: u16, x: u8, y: u8, n: u8) -> (res: Result<(), Chip8Error>)
        requires
            old(self)@.wf(),
            x < NUM_REGS,
            y < NUM_REGS,
            n < 16,
        ensures
            final(self)@.wf(),
            result_state(res, final(self)@) == spec_draw(old(self)@, w, x, y, n),
            res is Err ==> final(self)@ == old(self)@,
    {
        if n > 0 && self.i as usize + n as usize > MEM_SIZE {
            return Err(Chip8Error::MemoryOutOfBounds { opcode: w, pc: self.pc });
        }
        let px0 = self.v[x as usize];
        let py0 = self.v[y as usize];
        let ghost s0 = self@;
        let mut vf: u8 = 0;
        let mut r: u8 = 0;
        while r < n
            invariant
                s0.wf(),
                x < NUM_REGS,
                y < NUM_REGS,
                n < 16,
                px0 == s0.v[x as int],
                py0 == s0.v[y as int],
                n > 0 ==> s0.i + n <= MEM_SIZE,
                r <= n,
                self@ == (Chip8State { vram: self@.vram, ..s0 }),
                self@.vram.len() == SCREEN_SIZE,
                forall|j: int| 0 <= j < SCREEN_SIZE ==> self@.vram[j] == 0 || self@.vram[j] == 1,
                forall|t: int|
                    0 <= t < SCREEN_SIZE ==> self@.vram[t] == (if flips_before(
                        s0.memory,
                        s0.i,
                        px0,
                        py0,
                        t,
                        r,
                        0,
                    ) {
                        flip_cell(s0.vram[t])
                    } else {
                        s0.vram[t]
                    }),
                vf == 0 || vf == 1,
                (vf == 1) == collision_before(s0.vram, s0.memory, s0.i, px0, py0, r, 0),
            decreases n - r,
        {
            let row_byte = self.memory[self.i as usize + r as usize];
            let mut c: u8 = 0;
            while c < 8
                invariant
                    s0.wf(),
                    x < NUM_REGS,
                    y < NUM_REGS,
                    n < 16,
                    px0 == s0.v[x as int],
                    py0 == s0.v[y as int],
                    n > 0 ==> s0.i + n <= MEM_SIZE,
                    r < n,
                    c <= 8,
                    row_byte == s0.memory[s0.i + r],
                    self@ == (Chip8State { vram: self@.vram, ..s0 }),
                    self@.vram.len() == SCREEN_SIZE,
                    forall|j: int|
                        0 <= j < SCREEN_SIZE ==> self@.vram[j] == 0 || self@.vram[j] == 1,
                    forall|t: int|
                        0 <= t < SCREEN_SIZE ==> self@.vram[t] == (if flips_before(
                            s0.memory,
                            s0.i,
                            px0,
                            py0,
                            t,
                            r,
                            c,
                        ) {
                            flip_cell(s0.vram[t])
                        } else {
                            s0.vram[t]
                        }),
                    vf == 0 || vf == 1,
                    (vf == 1) == collision_before(s0.vram, s0.memory, s0.i, px0, py0, r, c),
                decreases 8 - c,
            {
                let divisor = col_divisor(c);
                let on = (row_byte / divisor) % 2 == 1;
                proof {
                    assert(on == sprite_on(s0.memory, s0.i, r, c));
                }
                if on {
                    let tx = (px0 as usize + c as usize) % 64;
                    let ty = (py0 as usize + r as usize) % 32;
                    let t = tx + 64 * ty;
                    let ghost ti = t as int;
                    proof {
                        assert(ti == sprite_target(px0, py0, r, c));
                        assert(0 <= ti < SCREEN_SIZE);
                        assert(!flips_before(s0.memory, s0.i, px0, py0, ti, r, c)) by {
                            if flips_before(s0.memory, s0.i, px0, py0, ti, r, c) {
                                let (r2, c2) = choose|r2: u8, c2: u8|
                                    before(r2, c2, r, c) && c2 < 8 && sprite_target(
                                        px0,
                                        py0,
                                        r2,
                                        c2,
                                    ) == ti && sprite_on(s0.memory, s0.i, r2, c2);
                                lemma_sprite_target_injective(px0, py0, r2, c2, r, c);
                            }
                        }
                        assert(self@.vram[ti] == s0.vram[ti]);
                    }
                    let cell = self.vram[t];
                    if cell == 1 {
                        vf = 1;
                        self.vram[t] = 0;
                    } else {
                        self.vram[t] = 1;
                    }
                    proof {
                        let ghost cnext = (c + 1) as u8;
                        assert(before(r, c, r, cnext));
                        assert forall|t2: int| 0 <= t2 < SCREEN_SIZE implies self@.vram[t2] == (
                        if flips_before(s0.memory, s0.i, px0, py0, t2, r, cnext) {
                            flip_cell(s0.vram[t2])
                        } else {
                            s0.vram[t2]
                        }) by {
                            if t2 == ti {
                                assert(flips_before(s0.memory, s0.i, px0, py0, t2, r, cnext));
                            } else {
                                if flips_before(s0.memory, s0.i, px0, py0, t2, r, cnext) {
                                    let (r2, c2) = choose|r2: u8, c2: u8|
                                        before(r2, c2, r, cnext) && c2 < 8 && sprite_target(
                                            px0,
                                            py0,
                                            r2,
                                            c2,
                                        ) == t2 && sprite_on(s0.memory, s0.i, r2, c2);
                                    assert(!(r2 == r && c2 == c));
                                    assert(before(r2, c2, r, c));
                                    assert(flips_before(s0.memory, s0.i, px0, py0, t2, r, c));
                                }
                                if flips_before(s0.memory, s0.i, px0, py0, t2, r, c) {
                                    let (r2, c2) = choose|r2: u8, c2: u8|
                                        before(r2, c2, r, c) && c2 < 8 && sprite_target(
                                            px0,
                                            py0,
                                            r2,
                                            c2,
                                        ) == t2 && sprite_on(s0.memory, s0.i, r2, c2);
                                    assert(before(r2, c2, r, cnext));
                                    assert(flips_before(s0.memory, s0.i, px0, py0, t2, r, cnext));
                                }
                            }
                        }
                        if cell == 1 {
                            assert(s0.vram[ti] == 1);
                            assert(collision_before(s0.vram, s0.memory, s0.i, px0, py0, r, cnext));
                        } else {
                            assert((vf == 1) == collision_before(
                                s0.vram,
                                s0.memory,
                                s0.i,
                                px0,
                                py0,
                                r,
                                cnext,
                            )) by {
                                if collision_before(s0.vram, s0.memory, s0.i, px0, py0, r, cnext) {
                                    let (r2, c2) = choose|r2: u8, c2: u8|
                                        before(r2, c2, r, cnext) && c2 < 8 && sprite_on(
                                            s0.memory,
                                            s0.i,
                                            r2,
                                            c2,
                                        ) && s0.vram[sprite_target(px0, py0, r2, c2)] == 1;
                                    assert(!(r2 == r && c2 == c));
                                    assert(before(r2, c2, r, c));
                                    assert(collision_before(
                                        s0.vram,
                                        s0.memory,
                                        s0.i,
                                        px0,
                                        py0,
                                        r,
                                        c,
                                    ));
                                }
                                if collision_before(s0.vram, s0.memory, s0.i, px0, py0, r, c) {
                                    let (r2, c2) = choose|r2: u8, c2: u8|
                                        before(r2, c2, r, c) && c2 < 8 && sprite_on(
                                            s0.memory,
                                            s0.i,
                                            r2,
                                            c2,
                                        ) && s0.vram[sprite_target(px0, py0, r2, c2)] == 1;
                                    assert(before(r2, c2, r, cnext));
                                }
                            }
                        }
                    }
                } else {
                    proof {
                        let ghost cnext = (c + 1) as u8;
                        assert forall|t2: int| 0 <= t2 < SCREEN_SIZE implies self@.vram[t2] == (
                        if flips_before(s0.memory, s0.i, px0, py0, t2, r, cnext) {
                            flip_cell(s0.vram[t2])
                        } else {
                            s0.vram[t2]
                        }) by {
                            if flips_before(s0.memory, s0.i, px0, py0, t2, r, cnext) {
                                let (r2, c2) = choose|r2: u8, c2: u8|
                                    before(r2, c2, r, cnext) && c2 < 8 && sprite_target(
                                        px0,
                                        py0,
                                        r2,
                                        c2,
                                    ) == t2 && sprite_on(s0.memory, s0.i, r2, c2);
                                assert(!(r2 == r && c2 == c));
                                assert(before(r2, c2, r, c));
                                assert(flips_before(s0.memory, s0.i, px0, py0, t2, r, c));
                            }
                            if flips_before(s0.memory, s0.i, px0, py0, t2, r, c) {
                                let (r2, c2) = choose|r2: u8, c2: u8|
                                    before(r2, c2, r, c) && c2 < 8 && sprite_target(
                                        px0,
                                        py0,
                                        r2,
                                        c2,
                                    ) == t2 && sprite_on(s0.memory, s0.i, r2, c2);
                                assert(before(r2, c2, r, cnext));
                                assert(flips_before(s0.memory, s0.i, px0, py0, t2, r, cnext));
                            }
                        }
                        assert((vf == 1) == collision_before(
                            s0.vram,
                            s0.memory,
                            s0.i,
                            px0,
                            py0,
                            r,
                            (c + 1) as u8,
                        )) by {
                            let ghost cnext = (c + 1) as u8;
                            if collision_before(s0.vram, s0.memory, s0.i, px0, py0, r, cnext) {
                                let (r2, c2) = choose|r2: u8, c2: u8|
                                    before(r2, c2, r, cnext) && c2 < 8 && sprite_on(
                                        s0.memory,
                                        s0.i,
                                        r2,
                                        c2,
                                    ) && s0.vram[sprite_target(px0, py0, r2, c2)] == 1;
                                assert(!(r2 == r && c2 == c));
                                assert(before(r2, c2, r, c));
                                assert(collision_before(s0.vram, s0.memory, s0.i, px0, py0, r, c));
                            }
                            if collision_before(s0.vram, s0.memory, s0.i, px0, py0, r, c) {
                                let (r2, c2) = choose|r2: u8, c2: u8|
                                    before(r2, c2, r, c) && c2 < 8 && sprite_on(
                                        s0.memory,
                                        s0.i,
                                        r2,
                                        c2,
                                    ) && s0.vram[sprite_target(px0, py0, r2, c2)] == 1;
                                assert(before(r2, c2, r, cnext));
                            }
                        }
                    }
                }
                c += 1;
            }
            proof {
                lemma_row_rollover(s0.vram, s0.memory, s0.i, px0, py0, r);
            }
            r += 1;
        }
        proof {
            lemma_draw_complete(s0.vram, s0.memory, s0.i, px0, py0, n);
            assert(self@.vram =~= draw_fb(s0.vram, s0.memory, s0.i, px0, py0, n));
        }
        self.v[0xF] = vf;
        self.draw_flag = true;
        self.pc = wrap_add16(self.pc, 2);
        proof {
            let flag: u8 = if draw_collision(s0.vram, s0.memory, s0.i, px0, py0, n) {
                1
            } else {
                0
            };
            assert(self@ =~= (Chip8State {
                vram: draw_fb(s0.vram, s0.memory, s0.i, px0, py0, n),
                draw_flag: true,
                v: s0.v.update(0xF, flag),
                pc: wadd16(s0.pc, 2),
                ..s0
            }));
        }
        Ok(())
    }

    /// Execute exactly one instruction and tick the timers. While the
    /// machine awaits a key (`FX0A`), `step` mutates nothing and
    /// succeeds. The result matches the transition semantics
    /// `spec_step` for some byte from the random source; every opcode
    /// but `CXNN` ignores that byte. On an error — an unfetchable or
    /// unrecognized instruction word, stack misuse, or an out-of-range
    /// memory or keypad access — the machine is left unchanged and the
    /// error identifies the offending instruction word and program
    /// counter.
    pub fn step(&mut self) -> (res: Result<(), Chip8Error>)
        requires
            old(self)@.wf(),
        ensures
            final(self)@.wf(),
            exists|r: u8| #[trigger] spec_step(old(self)@, r) == result_state(res, final(self)@),
            old(self)@.stopped ==> res is Ok && final(self)@ == old(self)@,
            res is Err ==> final(self)@ == old(self)@,
    {
        if self.stopped {
            proof {
                assert(spec_step(old(self)@, 0) == result_state(Ok(()), self@));
            }
            return Ok(());
        }
        let pc = self.pc;
        if pc as usize + 1 >= MEM_SIZE {
            let e = Chip8Error::FetchOutOfBounds { pc };
            proof {
                assert(spec_step(old(self)@, 0) == result_state(Err(e), self@));
            }
            return Err(e);
        }
        let hi = self.memory[pc as usize];
        let lo = self.memory[pc as usize + 1];
        let w = combine_bytes(lo, hi);
        let op = match decode(w) {
            None => {
                let e = Chip8Error::UnknownOpcode { opcode: w, pc };
                proof {
                    assert(spec_step(old(self)@, 0) == result_state(Err(e), self@));
                }
                return Err(e);
            },
            Some(op) => op,
        };
        let ghost mut rwit: u8 = 0;
        let exec_res: Result<(), Chip8Error> = match op {
            Opcode::ClearScreen => {
                self.clear_screen();
                Ok(())
            },
            Opcode::ReturnFromSub => self.return_from_sub(w),
            Opcode::Jump { nnn } => {
                self.jump_addr(nnn);
                Ok(())
            },
            Opcode::Call { nnn } => self.call_sub_at_nnn(w, nnn),
            Opcode::SkipEqImm { x, nn } => {
                self.skip_if_vx_equal_to_nn(x, nn);
                Ok(())
            },
            Opcode::SkipNeImm { x, nn } => {
                self.skip_if_vx_not_equal_to_nn(x, nn);
                Ok(())
            },
            Opcode::SkipEqReg { x, y } => {
                self.skip_if_vx_equal_to_vy(x, y);
                Ok(())
            },
            Opcode::SetImm { x, nn } => {
                self.set_vx_to_immediate(x, nn);
                Ok(())
            },
            Opcode::AddImm { x, nn } => {
                self.add_nn_to_vx(x, nn);
                Ok(())
            },
            Opcode::Assign { x, y } => {
                self.assign_vy_to_vx(x, y);
                Ok(())
            },
            Opcode::Or { x, y } => {
                self.vx_or_vy(x, y);
                Ok(())
            },
            Opcode::And { x, y } => {
                self.vx_and_vy(x, y);
                Ok(())
            },
            Opcode::Xor { x, y } => {
                self.vx_xor_vy(x, y);
                Ok(())
            },
            Opcode::AddReg { x, y } => {
                self.add_vy_to_vx(x, y);
                Ok(())
            },
            Opcode::SubReg { x, y } => {
                self.sub_vy_to_vx(x, y);
                Ok(())
            },
            Opcode::ShiftRight { x } => {
                self.shift_vx_right(x);
                Ok(())
            },
            Opcode::SubFrom { x, y } => {
                self.sub_vx_to_vy(x, y);
                Ok(())
            },
            Opcode::ShiftLeft { x } => {
                self.shift_vx_left(x);
                Ok(())
            },
            Opcode::SkipNeReg { x, y } => {
                self.skip_if_vx_not_equal_to_vy(x, y);
                Ok(())
            },
            Opcode::SetIndex { nnn } => {
                self.set_memory_nnn(nnn);
                Ok(())
            },
            Opcode::JumpPlusV0 { nnn } => {
                self.jump_addr_sum(nnn);
                Ok(())
            },
            Opcode::Random { x, nn } => {
                self.rand_to_vx(x, nn);
                proof {
                    rwit = choose|r: u8| self@ == spec_rand_to_vx(old(self)@, x, nn, r);
                }
                Ok(())
            },
            Opcode::Draw { x, y, n } => self.draw(w, x, y, n),
            Opcode::SkipKeyPressed { x } => self.skip_if_key_pressed(w, x),
            Opcode::SkipKeyNotPressed { x } => self.skip_if_key_not_pressed(w, x),
            Opcode::ReadDelay { x } => {
                self.set_vx_to_delay(x);
                Ok(())
            },
            Opcode::WaitKey { x } => {
                self.wait_for_key_press(x);
                Ok(())
            },
            Opcode::SetDelay { x } => {
                self.set_delay_to_vx(x);
                Ok(())
            },
            Opcode::SetSound { x } => {
                self.set_sound_to_vx(x);
                Ok(())
            },
            Opcode::AddIndex { x } => {
                self.add_vx_to_i(x);
                Ok(())
            },
            Opcode::IndexFont { x } => {
                self.set_i_to_sprite_addr(x);
                Ok(())
            },
            Opcode::StoreBcd { x } => self.set_bcd(w, x),
            Opcode::DumpRegs { x } => self.dump_registers(w, x),
            Opcode::LoadRegs { x } => self.load_registers(w, x),
        };
        let ghost smid = self@;
        proof {
            assert(spec_exec(old(self)@, w, op, rwit) == result_state(exec_res, smid));
        }
        match exec_res {
            Ok(()) => {
                self.tick_timers();
                proof {
                    assert(spec_step(old(self)@, rwit) == result_state(Ok(()), self@));
                }
                Ok(())
            },
            Err(e) => {
                proof {
                    assert(spec_step(old(self)@, rwit) == result_state(Err(e), self@));
                }
                Err(e)
            },
        }
    }

    /// The timer tick at the end of every executed instruction: each
    /// timer decrements by exactly 1 when non-zero.
    fn tick_timers(&mut self)
        requires
            old(self)@.wf(),
        ensures
            final(self)@.wf(),
            final(self)@ == spec_tick_timers(old(self)@),
    {
        if self.delay_t > 0 {
            self.delay_t = self.delay_t - 1;
        }
        if self.sound_t > 0 {
            self.sound_t = self.sound_t - 1;
        }
        proof {
            assert(self@ =~= spec_tick_timers(old(self)@));
        }
    }
}

} // verus!
