//! Whole-machine behaviour: construction, program loading, the
//! fetch-decode-execute cycle, subroutine nesting, sprite drawing and
//! the blocking key-wait protocol.

use chip8::decode::{decode, Opcode};
use chip8::machine::{combine_bytes, Chip8};
use chip8::semantics::KeyEvent;
use chip8::state::Chip8Error;

#[test]
fn new_machine_has_font_and_initial_pc() {
    let c = Chip8::new();
    assert_eq!(c.get_pc(), 0x200);
    assert_eq!(c.get_i(), 0);
    assert_eq!(c.get_sp(), 0);
    assert!(!c.is_stopped());
    assert!(!c.should_draw());
    assert!(!c.should_beep());
    // Glyph 0 starts with 0xF0; glyph F ends with 0x80.
    assert_eq!(c.read(0), 0xF0);
    assert_eq!(c.read(4), 0xF0);
    assert_eq!(c.read(5), 0x20);
    assert_eq!(c.read(79), 0x80);
    assert_eq!(c.read(80), 0);
    // The framebuffer starts all-off.
    let fb = c.get_framebuffer();
    assert_eq!(fb.len(), 64 * 32);
    assert!(fb.iter().all(|&p| p == 0));
}

#[test]
fn load_copies_rom_at_0x200() {
    let mut c = Chip8::new();
    c.load(&[0xAB, 0xCD, 0xEF]).unwrap();
    assert_eq!(c.read(0x200), 0xAB);
    assert_eq!(c.read(0x201), 0xCD);
    assert_eq!(c.read(0x202), 0xEF);
    assert_eq!(c.read(0x203), 0x00);
    // The font below 0x200 is untouched.
    assert_eq!(c.read(0), 0xF0);
}

#[test]
fn load_accepts_largest_image_and_rejects_one_more() {
    let mut c = Chip8::new();
    let full = vec![0x55u8; 4096 - 0x200];
    c.load(&full).unwrap();
    assert_eq!(c.read(0xFFF), 0x55);
    let over = vec![0x55u8; 4096 - 0x200 + 1];
    let e = c.load(&over).unwrap_err();
    assert_eq!(e, Chip8Error::RomTooLarge { rom_len: 3585 });
    // The rejected load changed nothing.
    assert_eq!(c.read(0xFFF), 0x55);
}

#[test]
fn write_and_read_roundtrip() {
    let mut c = Chip8::new();
    c.write(0x500, 0x7E);
    assert_eq!(c.read(0x500), 0x7E);
}

#[test]
fn combine_bytes_is_big_endian() {
    assert_eq!(combine_bytes(0x34, 0x12), 0x1234);
    assert_eq!(combine_bytes(0x00, 0x00), 0x0000);
    assert_eq!(combine_bytes(0xFF, 0xFF), 0xFFFF);
}

#[test]
fn decode_recognizes_the_full_surface() {
    assert_eq!(decode(0x00E0), Some(Opcode::ClearScreen));
    assert_eq!(decode(0x00EE), Some(Opcode::ReturnFromSub));
    assert_eq!(decode(0x1ABC), Some(Opcode::Jump { nnn: 0xABC }));
    assert_eq!(decode(0x2ABC), Some(Opcode::Call { nnn: 0xABC }));
    assert_eq!(decode(0x3A12), Some(Opcode::SkipEqImm { x: 0xA, nn: 0x12 }));
    assert_eq!(decode(0x4A12), Some(Opcode::SkipNeImm { x: 0xA, nn: 0x12 }));
    assert_eq!(decode(0x5AB0), Some(Opcode::SkipEqReg { x: 0xA, y: 0xB }));
    assert_eq!(decode(0x6A12), Some(Opcode::SetImm { x: 0xA, nn: 0x12 }));
    assert_eq!(decode(0x7A12), Some(Opcode::AddImm { x: 0xA, nn: 0x12 }));
    assert_eq!(decode(0x8AB0), Some(Opcode::Assign { x: 0xA, y: 0xB }));
    assert_eq!(decode(0x8AB1), Some(Opcode::Or { x: 0xA, y: 0xB }));
    assert_eq!(decode(0x8AB2), Some(Opcode::And { x: 0xA, y: 0xB }));
    assert_eq!(decode(0x8AB3), Some(Opcode::Xor { x: 0xA, y: 0xB }));
    assert_eq!(decode(0x8AB4), Some(Opcode::AddReg { x: 0xA, y: 0xB }));
    assert_eq!(decode(0x8AB5), Some(Opcode::SubReg { x: 0xA, y: 0xB }));
    assert_eq!(decode(0x8AB6), Some(Opcode::ShiftRight { x: 0xA }));
    assert_eq!(decode(0x8AB7), Some(Opcode::SubFrom { x: 0xA, y: 0xB }));
    assert_eq!(decode(0x8ABE), Some(Opcode::ShiftLeft { x: 0xA }));
    assert_eq!(decode(0x9AB0), Some(Opcode::SkipNeReg { x: 0xA, y: 0xB }));
    assert_eq!(decode(0xAABC), Some(Opcode::SetIndex { nnn: 0xABC }));
    assert_eq!(decode(0xBABC), Some(Opcode::JumpPlusV0 { nnn: 0xABC }));
    assert_eq!(decode(0xCA12), Some(Opcode::Random { x: 0xA, nn: 0x12 }));
    assert_eq!(decode(0xDAB5), Some(Opcode::Draw { x: 0xA, y: 0xB, n: 5 }));
    assert_eq!(decode(0xEA9E), Some(Opcode::SkipKeyPressed { x: 0xA }));
    assert_eq!(decode(0xEAA1), Some(Opcode::SkipKeyNotPressed { x: 0xA }));
    assert_eq!(decode(0xFA07), Some(Opcode::ReadDelay { x: 0xA }));
    assert_eq!(decode(0xFA0A), Some(Opcode::WaitKey { x: 0xA }));
    assert_eq!(decode(0xFA15), Some(Opcode::SetDelay { x: 0xA }));
    assert_eq!(decode(0xFA18), Some(Opcode::SetSound { x: 0xA }));
    assert_eq!(decode(0xFA1E), Some(Opcode::AddIndex { x: 0xA }));
    assert_eq!(decode(0xFA29), Some(Opcode::IndexFont { x: 0xA }));
    assert_eq!(decode(0xFA33), Some(Opcode::StoreBcd { x: 0xA }));
    assert_eq!(decode(0xFA55), Some(Opcode::DumpRegs { x: 0xA }));
    assert_eq!(decode(0xFA65), Some(Opcode::LoadRegs { x: 0xA }));
    // Unrecognized patterns decode to nothing.
    assert_eq!(decode(0x0000), None);
    assert_eq!(decode(0x0123), None);
    assert_eq!(decode(0x8AB8), None);
    assert_eq!(decode(0xEA00), None);
    assert_eq!(decode(0xFA99), None);
}

#[test]
fn unknown_opcode_reports_word_and_pc() {
    let mut c = Chip8::new();
    // Memory at 0x200 is zero: the word 0x0000 matches no pattern.
    let e = c.step().unwrap_err();
    assert_eq!(e, Chip8Error::UnknownOpcode { opcode: 0, pc: 0x200 });
    // A failed step leaves the machine unchanged.
    assert_eq!(c.get_pc(), 0x200);
}

#[test]
fn fetch_past_end_of_memory_errors() {
    let mut c = Chip8::new();
    c.jump_addr(0xFFF);
    let e = c.step().unwrap_err();
    assert_eq!(e, Chip8Error::FetchOutOfBounds { pc: 0xFFF });
}

#[test]
fn call_and_return_restore_pc_and_depth() {
    let mut c = Chip8::new();
    // 0x200: call 0x206; 0x206: return.
    c.load(&[0x22, 0x06, 0x00, 0x00, 0x00, 0x00, 0x00, 0xEE]).unwrap();
    c.step().unwrap();
    assert_eq!(c.get_pc(), 0x206);
    assert_eq!(c.get_sp(), 1);
    c.step().unwrap();
    assert_eq!(c.get_pc(), 0x202);
    assert_eq!(c.get_sp(), 0);
}

#[test]
fn calls_nest_to_depth_16_and_the_17th_overflows() {
    let mut c = Chip8::new();
    for depth in 0u16..16 {
        c.call_sub_at_nnn(0x2300, 0x300).unwrap();
        assert_eq!(c.get_sp(), depth + 1);
    }
    let e = c.call_sub_at_nnn(0x2300, 0x300).unwrap_err();
    assert_eq!(e, Chip8Error::StackOverflow { opcode: 0x2300, pc: 0x300 });
    assert_eq!(c.get_sp(), 16);
    // Unwinding all 16 frames succeeds; one more return underflows.
    for depth in (0u16..16).rev() {
        c.return_from_sub(0x00EE).unwrap();
        assert_eq!(c.get_sp(), depth);
    }
    let e = c.return_from_sub(0x00EE).unwrap_err();
    assert!(matches!(e, Chip8Error::StackUnderflow { .. }));
}

#[test]
fn clear_screen_zeroes_framebuffer_and_raises_redraw() {
    let mut c = Chip8::new();
    // Put glyph 0 on screen first so there is something to clear.
    c.set_vx_to_immediate(0, 0);
    c.set_i_to_sprite_addr(0);
    c.draw(0xD005, 0, 0, 5).unwrap();
    assert!(c.get_framebuffer().iter().any(|&p| p != 0));
    c.clear_screen();
    assert!(c.get_framebuffer().iter().all(|&p| p == 0));
    assert!(c.should_draw());
}

#[test]
fn draw_renders_glyph_and_reports_no_collision_on_blank_screen() {
    let mut c = Chip8::new();
    // Glyph 0 at (0, 0): its top row byte is 0xF0.
    c.set_vx_to_immediate(0, 0);
    c.set_i_to_sprite_addr(0);
    c.draw(0xD005, 0, 0, 5).unwrap();
    assert_eq!(c.get_register(0xF), 0);
    assert!(c.should_draw());
    let fb = c.get_framebuffer();
    // Top row: columns 0-3 on, 4-7 off.
    assert_eq!(&fb[0..8], &[1, 1, 1, 1, 0, 0, 0, 0]);
    // Second row of glyph 0 is 0x90: columns 0 and 3.
    assert_eq!(&fb[64..72], &[1, 0, 0, 1, 0, 0, 0, 0]);
}

#[test]
fn drawing_the_same_sprite_twice_restores_the_framebuffer() {
    let mut c = Chip8::new();
    c.set_vx_to_immediate(0, 10);
    c.set_vx_to_immediate(1, 5);
    c.set_i_to_sprite_addr(0);
    c.draw(0xD015, 0, 1, 5).unwrap();
    assert_eq!(c.get_register(0xF), 0);
    let after_first: Vec<u8> = c.get_framebuffer().clone();
    assert!(after_first.iter().any(|&p| p != 0));
    // The second identical draw erases the sprite and reports the
    // collision with the first.
    c.draw(0xD015, 0, 1, 5).unwrap();
    assert_eq!(c.get_register(0xF), 1);
    assert!(c.get_framebuffer().iter().all(|&p| p == 0));
}

#[test]
fn draw_wraps_at_the_right_and_bottom_edges() {
    let mut c = Chip8::new();
    // Glyph 0 at (62, 30): columns wrap to 62, 63, 0, 1 and rows wrap
    // to 30, 31, 0, 1, 2.
    c.set_vx_to_immediate(0, 62);
    c.set_vx_to_immediate(1, 30);
    c.set_i_to_sprite_addr(2); // V2 = 0: glyph 0
    c.draw(0xD015, 0, 1, 5).unwrap();
    let fb = c.get_framebuffer();
    // Top sprite row lands on screen row 30 (0xF0: 4 pixels).
    assert_eq!(fb[30 * 64 + 62], 1);
    assert_eq!(fb[30 * 64 + 63], 1);
    assert_eq!(fb[30 * 64 + 0], 1);
    assert_eq!(fb[30 * 64 + 1], 1);
    assert_eq!(fb[30 * 64 + 2], 0);
    // Third sprite row (0x90) wraps to screen row 0.
    assert_eq!(fb[0 * 64 + 62], 1);
    assert_eq!(fb[0 * 64 + 63], 0);
    assert_eq!(fb[0 * 64 + 1], 1);
}

#[test]
fn partial_overlap_collides_and_xors() {
    let mut c = Chip8::new();
    c.set_vx_to_immediate(0, 0);
    c.set_vx_to_immediate(1, 0);
    c.set_i_to_sprite_addr(2);
    // Draw glyph 0 once, then glyph 1 (0x20, 0x60, ...) on top of it.
    c.draw(0xD015, 0, 1, 5).unwrap();
    c.set_vx_to_immediate(2, 1);
    c.set_i_to_sprite_addr(2);
    c.draw(0xD015, 0, 1, 5).unwrap();
    // Glyph 1's top row 0x20 sets column 2, which glyph 0 had on:
    // collision, and the pixel XORs off.
    assert_eq!(c.get_register(0xF), 1);
    assert_eq!(c.get_framebuffer()[2], 0);
}

#[test]
fn wait_for_key_blocks_steps_until_key_down() {
    let mut c = Chip8::new();
    // V0 := 2; delay := V0; wait on F50A; then V1 := 9.
    c.load(&[0x60, 0x02, 0xF0, 0x15, 0xF5, 0x0A, 0x61, 0x09]).unwrap();
    c.step().unwrap();
    c.step().unwrap(); // delay := 2, ticked to 1 in the same step
    assert_eq!(c.get_delay(), 1);
    c.step().unwrap(); // FX0A: blocks; this step still ticks the timer
    assert!(c.is_stopped());
    assert_eq!(c.get_pc(), 0x206);
    assert_eq!(c.get_delay(), 0);
    // Steps while blocked mutate nothing, timers included.
    for _ in 0..5 {
        c.step().unwrap();
        assert!(c.is_stopped());
        assert_eq!(c.get_pc(), 0x206);
        assert_eq!(c.get_delay(), 0);
        assert_eq!(c.get_register(1), 0);
    }
    // A key-up event does not resume the machine.
    c.handle_input(KeyEvent::Up(4)).unwrap();
    assert!(c.is_stopped());
    // The first key-down event resumes it and lands in V5.
    c.handle_input(KeyEvent::Down(0xC)).unwrap();
    assert!(!c.is_stopped());
    assert_eq!(c.get_register(5), 0xC);
    // Execution continues with the next instruction.
    c.step().unwrap();
    assert_eq!(c.get_register(1), 9);
}

#[test]
fn key_events_out_of_range_are_rejected() {
    let mut c = Chip8::new();
    let e = c.handle_input(KeyEvent::Down(16)).unwrap_err();
    assert_eq!(e, Chip8Error::KeyOutOfRange { key: 16 });
    let e = c.handle_input(KeyEvent::Up(200)).unwrap_err();
    assert_eq!(e, Chip8Error::KeyOutOfRange { key: 200 });
}

#[test]
fn step_via_rom_dispatches_8xy_group() {
    let mut c = Chip8::new();
    // V0 := 3; V1 := 5; V0 := V0 + V1.
    c.load(&[0x60, 0x03, 0x61, 0x05, 0x80, 0x14]).unwrap();
    c.step().unwrap();
    c.step().unwrap();
    c.step().unwrap();
    assert_eq!(c.get_register(0), 8);
    assert_eq!(c.get_register(0xF), 0);
    assert_eq!(c.get_pc(), 0x206);
}
