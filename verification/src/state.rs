//! The mathematical model of the CHIP-8 machine state, and the errors the
//! interpreter reports.

use vstd::prelude::*;

verus! {

/// Number of addressable bytes of memory.
pub const MEM_SIZE: usize = 4096;

/// First address of loaded program code; everything below is reserved.
pub const PROGRAM_START: usize = 0x200;

/// Framebuffer width in pixels.
pub const SCREEN_WIDTH: usize = 64;

/// Framebuffer height in pixels.
pub const SCREEN_HEIGHT: usize = 32;

/// Number of framebuffer cells.
pub const SCREEN_SIZE: usize = 2048;

/// Number of general-purpose registers.
pub const NUM_REGS: usize = 16;

/// Capacity of the call stack.
pub const STACK_SIZE: usize = 16;

/// Number of keypad keys.
pub const NUM_KEYS: usize = 16;

/// The abstract machine state: the value of every register, memory cell,
/// framebuffer cell and flag of the interpreter. Executable code holds the
/// same data in `machine::Chip8`, whose view is a `Chip8State`.
#[verifier::ext_equal]
pub ghost struct Chip8State {
    /// Index register, a base pointer for memory-indexed opcodes.
    pub i: u16,
    /// Program counter.
    pub pc: u16,
    /// Stack pointer: number of live entries in `stack`.
    pub sp: u16,
    /// Call stack of return addresses; entries at indices `< sp` are live.
    pub stack: Seq<u16>,
    /// General-purpose registers `V0..VF`.
    pub v: Seq<u8>,
    /// Addressable memory.
    pub memory: Seq<u8>,
    /// Framebuffer, row-major, one cell per pixel, each 0 or 1.
    pub vram: Seq<u8>,
    /// Keypad state, one cell per key, 1 when pressed.
    pub keypad: Seq<u8>,
    /// Delay timer.
    pub delay_t: u8,
    /// Sound timer; non-zero means "should be audible now".
    pub sound_t: u8,
    /// Raised by every opcode that mutates the framebuffer; never cleared
    /// by the core itself.
    pub draw_flag: bool,
    /// True while the machine awaits a keypress (after `FX0A`).
    pub stopped: bool,
    /// The register that receives the key index that ends a key wait.
    pub wait_reg: u8,
}

impl Chip8State {
    /// Structural well-formedness: fixed extents, a stack pointer within
    /// capacity, and boolean-valued framebuffer and keypad cells.
    pub open spec fn wf(self) -> bool {
        &&& self.stack.len() == STACK_SIZE
        &&& self.v.len() == NUM_REGS
        &&& self.memory.len() == MEM_SIZE
        &&& self.vram.len() == SCREEN_SIZE
        &&& self.keypad.len() == NUM_KEYS
        &&& self.sp <= STACK_SIZE
        &&& self.wait_reg < NUM_REGS
        &&& forall|j: int| 0 <= j < SCREEN_SIZE ==> self.vram[j] == 0 || self.vram[j] == 1
        &&& forall|j: int| 0 <= j < NUM_KEYS ==> self.keypad[j] == 0 || self.keypad[j] == 1
    }
}

/// The font set: 16 glyphs of 5 bytes each, installed at address 0 when the
/// machine is constructed; glyph `g` starts at address `5 * g`.
pub open spec fn spec_font() -> Seq<u8> {
    seq![
        0xF0u8, 0x90, 0x90, 0x90, 0xF0, // 0
        0x20, 0x60, 0x20, 0x20, 0x70, // 1
        0xF0, 0x10, 0xF0, 0x80, 0xF0, // 2
        0xF0, 0x10, 0xF0, 0x10, 0xF0, // 3
        0x90, 0x90, 0xF0, 0x10, 0x10, // 4
        0xF0, 0x80, 0xF0, 0x10, 0xF0, // 5
        0xF0, 0x80, 0xF0, 0x90, 0xF0, // 6
        0xF0, 0x10, 0x20, 0x40, 0x40, // 7
        0xF0, 0x90, 0xF0, 0x90, 0xF0, // 8
        0xF0, 0x90, 0xF0, 0x10, 0xF0, // 9
        0xF0, 0x90, 0xF0, 0x90, 0x90, // A
        0xE0, 0x90, 0xE0, 0x90, 0xE0, // B
        0xF0, 0x80, 0x80, 0x80, 0xF0, // C
        0xE0, 0x90, 0x90, 0x90, 0xE0, // D
        0xF0, 0x80, 0xF0, 0x80, 0xF0, // E
        0xF0, 0x80, 0xF0, 0x80, 0x80, // F
    ]
}

/// The machine state right after construction: everything zeroed except the
/// program counter, which starts at `PROGRAM_START`, and the font set,
/// installed at the bottom of memory.
pub open spec fn spec_init() -> Chip8State {
    Chip8State {
        i: 0,
        pc: PROGRAM_START as u16,
        sp: 0,
        stack: Seq::new(STACK_SIZE as nat, |j: int| 0u16),
        v: Seq::new(NUM_REGS as nat, |j: int| 0u8),
        memory: Seq::new(
            MEM_SIZE as nat,
            |j: int| if j < spec_font().len() { spec_font()[j] } else { 0u8 },
        ),
        vram: Seq::new(SCREEN_SIZE as nat, |j: int| 0u8),
        keypad: Seq::new(NUM_KEYS as nat, |j: int| 0u8),
        delay_t: 0,
        sound_t: 0,
        draw_flag: false,
        stopped: false,
        wait_reg: 0,
    }
}

/// 16-bit addition that wraps modulo 2^16, as the program counter does.
pub open spec fn wadd16(a: u16, b: u16) -> u16 {
    ((a + b) % 0x10000) as u16
}

/// 8-bit addition that wraps modulo 2^8.
pub open spec fn wadd8(a: u8, b: u8) -> u8 {
    ((a + b) % 0x100) as u8
}

/// 8-bit subtraction that wraps modulo 2^8.
pub open spec fn wsub8(a: u8, b: u8) -> u8 {
    ((a + 0x100 - b) % 0x100) as u8
}

/// Everything that can go wrong, either through caller misuse (an
/// over-long program image, a key index out of range) or through a
/// machine-invariant violation during `step`, which is reported with the
/// offending instruction word and program counter.
#[derive(Clone, Copy, Debug, PartialEq, Eq, Structural)]
pub enum Chip8Error {
    /// The program counter points past the end of memory, so no
    /// instruction word can be fetched.
    FetchOutOfBounds { pc: u16 },
    /// The fetched instruction word matches no recognized pattern.
    UnknownOpcode { opcode: u16, pc: u16 },
    /// A call was made with 16 frames already on the stack.
    StackOverflow { opcode: u16, pc: u16 },
    /// A return was executed with an empty stack.
    StackUnderflow { opcode: u16, pc: u16 },
    /// A memory-indexed opcode would touch an address outside memory.
    MemoryOutOfBounds { opcode: u16, pc: u16 },
    /// A key-test opcode read a register holding a value outside 0-15.
    KeypadOutOfRange { opcode: u16, pc: u16 },
    /// The program image does not fit in memory above `PROGRAM_START`.
    RomTooLarge { rom_len: usize },
    /// A key event carried an index outside 0-15.
    KeyOutOfRange { key: usize },
}

} // verus!
