//! Instruction decoding: from a 16-bit instruction word to a tagged opcode.
//!
//! The decode surface is total and explicit: every recognized nibble
//! pattern maps to one `Opcode` variant, and everything else decodes to
//! `None`, which `step` reports as a fatal decode error.

use vstd::prelude::*;

verus! {

/// One decoded instruction. `x` and `y` are register selectors (0-15),
/// `n` a 4-bit immediate, `nn` an 8-bit immediate and `nnn` a 12-bit
/// address.
#[derive(Clone, Copy, Debug, PartialEq, Eq, Structural)]
pub enum Opcode {
    /// `00E0`: clear the framebuffer.
    ClearScreen,
    /// `00EE`: return from a subroutine.
    ReturnFromSub,
    /// `1NNN`: jump to `NNN`.
    Jump { nnn: u16 },
    /// `2NNN`: call the subroutine at `NNN`.
    Call { nnn: u16 },
    /// `3XNN`: skip the next instruction if `VX == NN`.
    SkipEqImm { x: u8, nn: u8 },
    /// `4XNN`: skip the next instruction if `VX != NN`.
    SkipNeImm { x: u8, nn: u8 },
    /// `5XY0`: skip the next instruction if `VX == VY`.
    SkipEqReg { x: u8, y: u8 },
    /// `6XNN`: `VX := NN`.
    SetImm { x: u8, nn: u8 },
    /// `7XNN`: `VX := VX + NN`, wrapping.
    AddImm { x: u8, nn: u8 },
    /// `8XY0`: `VX := VY`.
    Assign { x: u8, y: u8 },
    /// `8XY1`: `VX := VX | VY`.
    Or { x: u8, y: u8 },
    /// `8XY2`: `VX := VX & VY`.
    And { x: u8, y: u8 },
    /// `8XY3`: `VX := VX ^ VY`.
    Xor { x: u8, y: u8 },
    /// `8XY4`: `VX := VX + VY` wrapping, `VF` = carry.
    AddReg { x: u8, y: u8 },
    /// `8XY5`: `VX := VX - VY` wrapping, `VF` = no-borrow.
    SubReg { x: u8, y: u8 },
    /// `8XY6`: `VF` = pre-shift LSB of `VX`, `VX := VX >> 1`.
    ShiftRight { x: u8 },
    /// `8XY7`: `VX := VY - VX` wrapping, `VF` = no-borrow.
    SubFrom { x: u8, y: u8 },
    /// `8XYE`: `VF` = pre-shift MSB of `VX`, `VX := VX << 1`.
    ShiftLeft { x: u8 },
    /// `9XY0`: skip the next instruction if `VX != VY`.
    SkipNeReg { x: u8, y: u8 },
    /// `ANNN`: `I := NNN`.
    SetIndex { nnn: u16 },
    /// `BNNN`: jump to `NNN + V0`.
    JumpPlusV0 { nnn: u16 },
    /// `CXNN`: `VX :=` random byte `& NN`.
    Random { x: u8, nn: u8 },
    /// `DXYN`: draw the `N`-row sprite at `[I, I+N)` at `(VX, VY)`.
    Draw { x: u8, y: u8, n: u8 },
    /// `EX9E`: skip the next instruction if key `VX` is pressed.
    SkipKeyPressed { x: u8 },
    /// `EXA1`: skip the next instruction if key `VX` is not pressed.
    SkipKeyNotPressed { x: u8 },
    /// `FX07`: `VX :=` delay timer.
    ReadDelay { x: u8 },
    /// `FX0A`: block until a key-down event, then store the key in `VX`.
    WaitKey { x: u8 },
    /// `FX15`: delay timer `:= VX`.
    SetDelay { x: u8 },
    /// `FX18`: sound timer `:= VX`.
    SetSound { x: u8 },
    /// `FX1E`: `I := I + VX`, `VF` = 12-bit overflow.
    AddIndex { x: u8 },
    /// `FX29`: `I :=` font glyph address of `VX`.
    IndexFont { x: u8 },
    /// `FX33`: write the decimal digits of `VX` at `[I, I+2]`.
    StoreBcd { x: u8 },
    /// `FX55`: write `V0..VX` inclusive to memory at `I`.
    DumpRegs { x: u8 },
    /// `FX65`: read `V0..VX` inclusive from memory at `I`.
    LoadRegs { x: u8 },
}

/// The `X` register selector: the second-highest nibble.
pub open spec fn op_x(w: u16) -> u8 {
    (((w / 256) % 16)) as u8
}

/// The `Y` register selector: the second-lowest nibble.
pub open spec fn op_y(w: u16) -> u8 {
    (((w / 16) % 16)) as u8
}

/// The 4-bit immediate: the lowest nibble.
pub open spec fn op_n(w: u16) -> u8 {
    (w % 16) as u8
}

/// The 8-bit immediate: the low byte.
pub open spec fn op_nn(w: u16) -> u8 {
    (w % 256) as u8
}

/// The 12-bit address: the low three nibbles.
pub open spec fn op_nnn(w: u16) -> u16 {
    (w % 4096) as u16
}

/// What a 16-bit instruction word decodes to, or `None` where it matches
/// no recognized pattern.
pub open spec fn spec_decode(w: u16) -> Option<Opcode> {
    if w == 0x00E0 {
        Some(Opcode::ClearScreen)
    } else if w == 0x00EE {
        Some(Opcode::ReturnFromSub)
    } else {
        let h = w / 4096;
        if h == 0x1 {
            Some(Opcode::Jump { nnn: op_nnn(w) })
        } else if h == 0x2 {
            Some(Opcode::Call { nnn: op_nnn(w) })
        } else if h == 0x3 {
            Some(Opcode::SkipEqImm { x: op_x(w), nn: op_nn(w) })
        } else if h == 0x4 {
            Some(Opcode::SkipNeImm { x: op_x(w), nn: op_nn(w) })
        } else if h == 0x5 {
            Some(Opcode::SkipEqReg { x: op_x(w), y: op_y(w) })
        } else if h == 0x6 {
            Some(Opcode::SetImm { x: op_x(w), nn: op_nn(w) })
        } else if h == 0x7 {
            Some(Opcode::AddImm { x: op_x(w), nn: op_nn(w) })
        } else if h == 0x8 {
            let l = op_n(w);
            if l == 0x0 {
                Some(Opcode::Assign { x: op_x(w), y: op_y(w) })
            } else if l == 0x1 {
                Some(Opcode::Or { x: op_x(w), y: op_y(w) })
            } else if l == 0x2 {
                Some(Opcode::And { x: op_x(w), y: op_y(w) })
            } else if l == 0x3 {
                Some(Opcode::Xor { x: op_x(w), y: op_y(w) })
            } else if l == 0x4 {
                Some(Opcode::AddReg { x: op_x(w), y: op_y(w) })
            } else if l == 0x5 {
                Some(Opcode::SubReg { x: op_x(w), y: op_y(w) })
            } else if l == 0x6 {
                Some(Opcode::ShiftRight { x: op_x(w) })
            } else if l == 0x7 {
                Some(Opcode::SubFrom { x: op_x(w), y: op_y(w) })
            } else if l == 0xE {
                Some(Opcode::ShiftLeft { x: op_x(w) })
            } else {
                None
            }
        } else if h == 0x9 {
            Some(Opcode::SkipNeReg { x: op_x(w), y: op_y(w) })
        } else if h == 0xA {
            Some(Opcode::SetIndex { nnn: op_nnn(w) })
        } else if h == 0xB {
            Some(Opcode::JumpPlusV0 { nnn: op_nnn(w) })
        } else if h == 0xC {
            Some(Opcode::Random { x: op_x(w), nn: op_nn(w) })
        } else if h == 0xD {
            Some(Opcode::Draw { x: op_x(w), y: op_y(w), n: op_n(w) })
        } else if h == 0xE {
            let l = op_nn(w);
            if l == 0x9E {
                Some(Opcode::SkipKeyPressed { x: op_x(w) })
            } else if l == 0xA1 {
                Some(Opcode::SkipKeyNotPressed { x: op_x(w) })
            } else {
                None
            }
        } else if h == 0xF {
            let l = op_nn(w);
            if l == 0x07 {
                Some(Opcode::ReadDelay { x: op_x(w) })
            } else if l == 0x0A {
                Some(Opcode::WaitKey { x: op_x(w) })
            } else if l == 0x15 {
                Some(Opcode::SetDelay { x: op_x(w) })
            } else if l == 0x18 {
                Some(Opcode::SetSound { x: op_x(w) })
            } else if l == 0x1E {
                Some(Opcode::AddIndex { x: op_x(w) })
            } else if l == 0x29 {
                Some(Opcode::IndexFont { x: op_x(w) })
            } else if l == 0x33 {
                Some(Opcode::StoreBcd { x: op_x(w) })
            } else if l == 0x55 {
                Some(Opcode::DumpRegs { x: op_x(w) })
            } else if l == 0x65 {
                Some(Opcode::LoadRegs { x: op_x(w) })
            } else {
                None
            }
        } else {
            None
        }
    }
}

/// All register selectors and immediates of a decoded opcode are in range.
pub open spec fn opcode_wf(op: Opcode) -> bool {
    match op {
        Opcode::ClearScreen => true,
        Opcode::ReturnFromSub => true,
        Opcode::Jump { nnn } => nnn < 4096,
        Opcode::Call { nnn } => nnn < 4096,
        Opcode::SkipEqImm { x, nn } => x < 16,
        Opcode::SkipNeImm { x, nn } => x < 16,
        Opcode::SkipEqReg { x, y } => x < 16 && y < 16,
        Opcode::SetImm { x, nn } => x < 16,
        Opcode::AddImm { x, nn } => x < 16,
        Opcode::Assign { x, y } => x < 16 && y < 16,
        Opcode::Or { x, y } => x < 16 && y < 16,
        Opcode::And { x, y } => x < 16 && y < 16,
        Opcode::Xor { x, y } => x < 16 && y < 16,
        Opcode::AddReg { x, y } => x < 16 && y < 16,
        Opcode::SubReg { x, y } => x < 16 && y < 16,
        Opcode::ShiftRight { x } => x < 16,
        Opcode::SubFrom { x, y } => x < 16 && y < 16,
        Opcode::ShiftLeft { x } => x < 16,
        Opcode::SkipNeReg { x, y } => x < 16 && y < 16,
        Opcode::SetIndex { nnn } => nnn < 4096,
        Opcode::JumpPlusV0 { nnn } => nnn < 4096,
        Opcode::Random { x, nn } => x < 16,
        Opcode::Draw { x, y, n } => x < 16 && y < 16 && n < 16,
        Opcode::SkipKeyPressed { x } => x < 16,
        Opcode::SkipKeyNotPressed { x } => x < 16,
        Opcode::ReadDelay { x } => x < 16,
        Opcode::WaitKey { x } => x < 16,
        Opcode::SetDelay { x } => x < 16,
        Opcode::SetSound { x } => x < 16,
        Opcode::AddIndex { x } => x < 16,
        Opcode::IndexFont { x } => x < 16,
        Opcode::StoreBcd { x } => x < 16,
        Opcode::DumpRegs { x } => x < 16,
        Opcode::LoadRegs { x } => x < 16,
    }
}

/// Whatever `spec_decode` recognizes is well-formed.
pub proof fn lemma_decode_wf(w: u16)
    ensures
        spec_decode(w) matches Some(op) ==> opcode_wf(op),
{
}

/// Decode a 16-bit instruction word. Returns `None` for a word that
/// matches no recognized pattern.
pub fn decode(opcode: u16) -> (r: Option<Opcode>)
    ensures
        r == spec_decode(opcode),
        r matches Some(op) ==> opcode_wf(op),
{
    proof {
        lemma_decode_wf(opcode);
    }
    if opcode == 0x00E0 {
        Some(Opcode::ClearScreen)
    } else if opcode == 0x00EE {
        Some(Opcode::ReturnFromSub)
    } else {
        let h = opcode / 4096;
        let x = ((opcode / 256) % 16) as u8;
        let y = ((opcode / 16) % 16) as u8;
        let n = (opcode % 16) as u8;
        let nn = (opcode % 256) as u8;
        let nnn = opcode % 4096;
        if h == 0x1 {
            Some(Opcode::Jump { nnn })
        } else if h == 0x2 {
            Some(Opcode::Call { nnn })
        } else if h == 0x3 {
            Some(Opcode::SkipEqImm { x, nn })
        } else if h == 0x4 {
            Some(Opcode::SkipNeImm { x, nn })
        } else if h == 0x5 {
            Some(Opcode::SkipEqReg { x, y })
        } else if h == 0x6 {
            Some(Opcode::SetImm { x, nn })
        } else if h == 0x7 {
            Some(Opcode::AddImm { x, nn })
        } else if h == 0x8 {
            if n == 0x0 {
                Some(Opcode::Assign { x, y })
            } else if n == 0x1 {
                Some(Opcode::Or { x, y })
            } else if n == 0x2 {
                Some(Opcode::And { x, y })
            } else if n == 0x3 {
                Some(Opcode::Xor { x, y })
            } else if n == 0x4 {
                Some(Opcode::AddReg { x, y })
            } else if n == 0x5 {
                Some(Opcode::SubReg { x, y })
            } else if n == 0x6 {
                Some(Opcode::ShiftRight { x })
            } else if n == 0x7 {
                Some(Opcode::SubFrom { x, y })
            } else if n == 0xE {
                Some(Opcode::ShiftLeft { x })
            } else {
                None
            }
        } else if h == 0x9 {
            Some(Opcode::SkipNeReg { x, y })
        } else if h == 0xA {
            Some(Opcode::SetIndex { nnn })
        } else if h == 0xB {
            Some(Opcode::JumpPlusV0 { nnn })
        } else if h == 0xC {
            Some(Opcode::Random { x, nn })
        } else if h == 0xD {
            Some(Opcode::Draw { x, y, n })
        } else if h == 0xE {
            if nn == 0x9E {
                Some(Opcode::SkipKeyPressed { x })
            } else if nn == 0xA1 {
                Some(Opcode::SkipKeyNotPressed { x })
            } else {
                None
            }
        } else if h == 0xF {
            if nn == 0x07 {
                Some(Opcode::ReadDelay { x })
            } else if nn == 0x0A {
                Some(Opcode::WaitKey { x })
            } else if nn == 0x15 {
                Some(Opcode::SetDelay { x })
            } else if nn == 0x18 {
                Some(Opcode::SetSound { x })
            } else if nn == 0x1E {
                Some(Opcode::AddIndex { x })
            } else if nn == 0x29 {
                Some(Opcode::IndexFont { x })
            } else if nn == 0x33 {
                Some(Opcode::StoreBcd { x })
            } else if nn == 0x55 {
                Some(Opcode::DumpRegs { x })
            } else if nn == 0x65 {
                Some(Opcode::LoadRegs { x })
            } else {
                None
            }
        } else {
            None
        }
    }
}

} // verus!
