//! A verified CHIP-8 interpreter core.
//!
//! The interpreter owns all machine state (memory, registers, call stack,
//! timers, framebuffer, keypad) and is driven through `step`, `load` and
//! `handle_input`. Every opcode's effect on the machine state is specified
//! against a mathematical model (`Chip8State`) and proved.

pub mod decode;
pub mod laws;
pub mod machine;
pub mod screen;
pub mod semantics;
pub mod state;
