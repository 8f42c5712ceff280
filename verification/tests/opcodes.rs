//! Per-opcode behaviour: arithmetic, flags, skips, memory and timer
//! instructions, exercised through the public handler methods and
//! observed through the read-only accessors.

use chip8::machine::Chip8;
use chip8::semantics::KeyEvent;
use chip8::state::Chip8Error;

#[test]
fn set_immediate_loads_register_and_advances_pc() {
    let mut c = Chip8::new();
    c.load(&[0x6A, 0x42]).unwrap();
    c.step().unwrap();
    assert_eq!(c.get_register(0xA), 0x42);
    assert_eq!(c.get_pc(), 0x202);
}

#[test]
fn add_sets_carry_iff_sum_exceeds_255() {
    let mut c = Chip8::new();
    // 200 + 100 = 300: wraps to 44, carry set.
    c.set_vx_to_immediate(0, 200);
    c.set_vx_to_immediate(1, 100);
    c.add_vy_to_vx(0, 1);
    assert_eq!(c.get_register(0), 44);
    assert_eq!(c.get_register(0xF), 1);
    // 1 + 2 = 3: no carry.
    c.set_vx_to_immediate(0, 1);
    c.set_vx_to_immediate(1, 2);
    c.add_vy_to_vx(0, 1);
    assert_eq!(c.get_register(0), 3);
    assert_eq!(c.get_register(0xF), 0);
    // 254 + 1 = 255: boundary, still no carry.
    c.set_vx_to_immediate(0, 254);
    c.set_vx_to_immediate(1, 1);
    c.add_vy_to_vx(0, 1);
    assert_eq!(c.get_register(0), 255);
    assert_eq!(c.get_register(0xF), 0);
    // 255 + 1 = 256: wraps to 0, carry set.
    c.set_vx_to_immediate(0, 255);
    c.set_vx_to_immediate(1, 1);
    c.add_vy_to_vx(0, 1);
    assert_eq!(c.get_register(0), 0);
    assert_eq!(c.get_register(0xF), 1);
}

#[test]
fn sub_sets_no_borrow_flag_iff_vx_at_least_vy() {
    let mut c = Chip8::new();
    // 5 - 10 borrows: result 251, flag 0.
    c.set_vx_to_immediate(0, 5);
    c.set_vx_to_immediate(1, 10);
    c.sub_vy_to_vx(0, 1);
    assert_eq!(c.get_register(0), 251);
    assert_eq!(c.get_register(0xF), 0);
    // 10 - 5 = 5: no borrow, flag 1.
    c.set_vx_to_immediate(0, 10);
    c.set_vx_to_immediate(1, 5);
    c.sub_vy_to_vx(0, 1);
    assert_eq!(c.get_register(0), 5);
    assert_eq!(c.get_register(0xF), 1);
    // 7 - 7 = 0: equal counts as no borrow.
    c.set_vx_to_immediate(0, 7);
    c.set_vx_to_immediate(1, 7);
    c.sub_vy_to_vx(0, 1);
    assert_eq!(c.get_register(0), 0);
    assert_eq!(c.get_register(0xF), 1);
}

#[test]
fn sub_from_reversed_operands() {
    let mut c = Chip8::new();
    // VX := VY - VX with VY=9, VX=4: result 5, no borrow.
    c.set_vx_to_immediate(0, 4);
    c.set_vx_to_immediate(1, 9);
    c.sub_vx_to_vy(0, 1);
    assert_eq!(c.get_register(0), 5);
    assert_eq!(c.get_register(0xF), 1);
    // VY=4, VX=9: 4 - 9 borrows to 251, flag 0.
    c.set_vx_to_immediate(0, 9);
    c.set_vx_to_immediate(1, 4);
    c.sub_vx_to_vy(0, 1);
    assert_eq!(c.get_register(0), 251);
    assert_eq!(c.get_register(0xF), 0);
}

#[test]
fn bitwise_ops() {
    let mut c = Chip8::new();
    c.set_vx_to_immediate(0, 0b1100);
    c.set_vx_to_immediate(1, 0b1010);
    c.vx_or_vy(0, 1);
    assert_eq!(c.get_register(0), 0b1110);
    c.set_vx_to_immediate(0, 0b1100);
    c.vx_and_vy(0, 1);
    assert_eq!(c.get_register(0), 0b1000);
    c.set_vx_to_immediate(0, 0b1100);
    c.vx_xor_vy(0, 1);
    assert_eq!(c.get_register(0), 0b0110);
}

#[test]
fn shifts_expose_pre_shift_bits_in_vf() {
    let mut c = Chip8::new();
    c.set_vx_to_immediate(0, 5);
    c.shift_vx_right(0);
    assert_eq!(c.get_register(0), 2);
    assert_eq!(c.get_register(0xF), 1);
    c.set_vx_to_immediate(0, 4);
    c.shift_vx_right(0);
    assert_eq!(c.get_register(0), 2);
    assert_eq!(c.get_register(0xF), 0);
    c.set_vx_to_immediate(0, 0x81);
    c.shift_vx_left(0);
    assert_eq!(c.get_register(0), 0x02);
    assert_eq!(c.get_register(0xF), 1);
    c.set_vx_to_immediate(0, 0x41);
    c.shift_vx_left(0);
    assert_eq!(c.get_register(0), 0x82);
    assert_eq!(c.get_register(0xF), 0);
}

#[test]
fn add_immediate_wraps_without_flag() {
    let mut c = Chip8::new();
    c.set_vx_to_immediate(0, 250);
    c.set_vx_to_immediate(0xF, 7);
    c.add_nn_to_vx(0, 10);
    assert_eq!(c.get_register(0), 4);
    // 7XNN defines no flag side effect.
    assert_eq!(c.get_register(0xF), 7);
}

#[test]
fn skips_advance_pc_by_4_when_condition_holds() {
    let mut c = Chip8::new();
    c.load(&[0x60, 0x05, 0x30, 0x05, 0x30, 0x06]).unwrap();
    c.step().unwrap();
    assert_eq!(c.get_pc(), 0x202);
    c.step().unwrap(); // V0 == 5: skip fires
    assert_eq!(c.get_pc(), 0x206);
    // 4XNN: V0 != 6 holds, skip fires.
    let mut c2 = Chip8::new();
    c2.load(&[0x60, 0x05, 0x40, 0x06]).unwrap();
    c2.step().unwrap();
    c2.step().unwrap();
    assert_eq!(c2.get_pc(), 0x206);
    // 5XY0 / 9XY0 on register pairs.
    let mut c3 = Chip8::new();
    c3.set_vx_to_immediate(2, 9);
    c3.set_vx_to_immediate(3, 9);
    let pc = c3.get_pc();
    c3.skip_if_vx_equal_to_vy(2, 3);
    assert_eq!(c3.get_pc(), pc + 4);
    let pc = c3.get_pc();
    c3.skip_if_vx_not_equal_to_vy(2, 3);
    assert_eq!(c3.get_pc(), pc + 2);
}

#[test]
fn jumps_set_pc() {
    let mut c = Chip8::new();
    c.jump_addr(0x345);
    assert_eq!(c.get_pc(), 0x345);
    c.set_vx_to_immediate(0, 5);
    c.jump_addr_sum(0x300);
    assert_eq!(c.get_pc(), 0x305);
}

#[test]
fn index_register_ops() {
    let mut c = Chip8::new();
    c.set_memory_nnn(0x123);
    assert_eq!(c.get_i(), 0x123);
    // FX29: glyph 0xB sits at 5 * 0xB = 55.
    c.set_vx_to_immediate(4, 0xB);
    c.set_i_to_sprite_addr(4);
    assert_eq!(c.get_i(), 55);
    // FX1E without 12-bit overflow.
    c.set_memory_nnn(0x100);
    c.set_vx_to_immediate(0, 1);
    c.add_vx_to_i(0);
    assert_eq!(c.get_i(), 0x101);
    assert_eq!(c.get_register(0xF), 0);
    // FX1E crossing the 12-bit range sets VF.
    c.set_memory_nnn(0xFFF);
    c.set_vx_to_immediate(0, 0xFF);
    c.add_vx_to_i(0);
    assert_eq!(c.get_i(), 0x10FE);
    assert_eq!(c.get_register(0xF), 1);
}

#[test]
fn bcd_writes_three_decimal_digits() {
    let mut c = Chip8::new();
    c.set_vx_to_immediate(3, 254);
    c.set_memory_nnn(0x300);
    c.set_bcd(0xF333, 3).unwrap();
    assert_eq!(c.read(0x300), 2);
    assert_eq!(c.read(0x301), 5);
    assert_eq!(c.read(0x302), 4);
    c.set_vx_to_immediate(3, 7);
    c.set_memory_nnn(0x310);
    c.set_bcd(0xF333, 3).unwrap();
    assert_eq!(c.read(0x310), 0);
    assert_eq!(c.read(0x311), 0);
    assert_eq!(c.read(0x312), 7);
}

#[test]
fn dump_and_load_registers_are_inclusive() {
    let mut c = Chip8::new();
    c.set_vx_to_immediate(0, 1);
    c.set_vx_to_immediate(1, 2);
    c.set_vx_to_immediate(2, 3);
    c.set_memory_nnn(0x400);
    c.dump_registers(0xF255, 2).unwrap();
    assert_eq!(c.read(0x400), 1);
    assert_eq!(c.read(0x401), 2);
    assert_eq!(c.read(0x402), 3);
    // Beyond VX nothing is written.
    assert_eq!(c.read(0x403), 0);
    c.set_vx_to_immediate(0, 9);
    c.set_vx_to_immediate(1, 9);
    c.set_vx_to_immediate(2, 9);
    c.set_vx_to_immediate(3, 9);
    c.load_registers(0xF365, 2).unwrap();
    assert_eq!(c.get_register(0), 1);
    assert_eq!(c.get_register(1), 2);
    assert_eq!(c.get_register(2), 3);
    // V3 is past VX and keeps its value.
    assert_eq!(c.get_register(3), 9);
}

#[test]
fn timers_and_beep_signal() {
    let mut c = Chip8::new();
    c.set_vx_to_immediate(2, 2);
    c.set_sound_to_vx(2);
    c.set_delay_to_vx(2);
    assert_eq!(c.get_sound(), 2);
    assert_eq!(c.get_delay(), 2);
    assert!(c.should_beep());
    // FX07 reads the delay timer back.
    c.set_vx_to_delay(5);
    assert_eq!(c.get_register(5), 2);
}

#[test]
fn timers_decrement_once_per_step() {
    let mut c = Chip8::new();
    // Set V0, set sound from it, then two harmless register loads.
    c.load(&[0x60, 0x02, 0xF0, 0x18, 0x61, 0x00, 0x61, 0x00]).unwrap();
    c.step().unwrap();
    c.step().unwrap(); // sound := 2, then the same step ticks it to 1
    assert_eq!(c.get_sound(), 1);
    assert!(c.should_beep());
    c.step().unwrap();
    assert_eq!(c.get_sound(), 0);
    assert!(!c.should_beep());
    c.step().unwrap();
    assert_eq!(c.get_sound(), 0);
}

#[test]
fn keypad_skips_follow_input_events() {
    let mut c = Chip8::new();
    c.set_vx_to_immediate(0, 7);
    c.handle_input(KeyEvent::Down(7)).unwrap();
    let pc = c.get_pc();
    c.skip_if_key_pressed(0xE09E, 0).unwrap();
    assert_eq!(c.get_pc(), pc + 4);
    let pc = c.get_pc();
    c.skip_if_key_not_pressed(0xE0A1, 0).unwrap();
    assert_eq!(c.get_pc(), pc + 2);
    c.handle_input(KeyEvent::Up(7)).unwrap();
    let pc = c.get_pc();
    c.skip_if_key_pressed(0xE09E, 0).unwrap();
    assert_eq!(c.get_pc(), pc + 2);
    let pc = c.get_pc();
    c.skip_if_key_not_pressed(0xE0A1, 0).unwrap();
    assert_eq!(c.get_pc(), pc + 4);
}

#[test]
fn random_with_zero_mask_always_zeroes_register() {
    // CXNN with NN = 0: whatever the random source returns, the AND
    // mask forces VX to 0.
    for _ in 0..32 {
        let mut c = Chip8::new();
        c.load(&[0xC0, 0x00]).unwrap();
        c.step().unwrap();
        assert_eq!(c.get_register(0), 0);
        assert_eq!(c.get_pc(), 0x202);
    }
}

#[test]
fn random_masked_stays_within_mask() {
    for _ in 0..32 {
        let mut c = Chip8::new();
        c.load(&[0xC3, 0x0F]).unwrap();
        c.step().unwrap();
        assert!(c.get_register(3) <= 0x0F);
    }
}

#[test]
fn assign_copies_register() {
    let mut c = Chip8::new();
    c.set_vx_to_immediate(1, 99);
    c.assign_vy_to_vx(0, 1);
    assert_eq!(c.get_register(0), 99);
}

#[test]
fn memory_out_of_bounds_errors() {
    let mut c = Chip8::new();
    // FX55 with I at the very end of memory.
    c.set_memory_nnn(0xFFF);
    let e = c.dump_registers(0xF155, 1).unwrap_err();
    assert!(matches!(e, Chip8Error::MemoryOutOfBounds { .. }));
    // FX65 likewise.
    let e = c.load_registers(0xF165, 1).unwrap_err();
    assert!(matches!(e, Chip8Error::MemoryOutOfBounds { .. }));
    // FX33 needs three bytes.
    let e = c.set_bcd(0xF133, 1).unwrap_err();
    assert!(matches!(e, Chip8Error::MemoryOutOfBounds { .. }));
    // DXYN reading sprite rows past the end of memory.
    let e = c.draw(0xD012, 0, 1, 2).unwrap_err();
    assert!(matches!(e, Chip8Error::MemoryOutOfBounds { .. }));
}

#[test]
fn keypad_out_of_range_errors() {
    let mut c = Chip8::new();
    c.set_vx_to_immediate(0, 20);
    let e = c.skip_if_key_pressed(0xE09E, 0).unwrap_err();
    assert_eq!(e, Chip8Error::KeypadOutOfRange { opcode: 0xE09E, pc: c.get_pc() });
}
