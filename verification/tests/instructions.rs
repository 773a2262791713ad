//! Instruction semantics, driven through whole fetch-decode-execute cycles
//! on small programs, plus direct execution where a program cannot reach the
//! inputs.

use chip8_core::{Chip8Error, Emu, Opcode};

/// A machine with the program loaded and `n` cycles run, every one of them
/// expected to succeed.
fn run(rom: &[u8], n: usize) -> Emu {
    let mut e = Emu::new();
    e.load_rom(rom).unwrap();
    for _ in 0..n {
        assert_eq!(e.tick(), Ok(()));
    }
    e
}

#[test]
fn nop_only_advances_the_counter() {
    let e = run(&[0x00, 0x00], 1);
    assert_eq!(e.program_counter(), 0x202);
}

#[test]
fn set_and_add_immediate_wrap() {
    // V0 := 250; V0 += 10 wraps to 4 and VF stays 0
    let e = run(&[0x60, 0xFA, 0x70, 0x0A], 2);
    assert_eq!(e.register(0), 4);
    assert_eq!(e.register(15), 0);
}

#[test]
fn add_immediate_without_wrap() {
    let e = run(&[0x60, 0x0A, 0x70, 0x05], 2);
    assert_eq!(e.register(0), 15);
}

#[test]
fn add_reg_carry_sets_vf() {
    // VA := 250; VB := 10; VA += VB
    let e = run(&[0x6A, 0xFA, 0x6B, 0x0A, 0x8A, 0xB4], 3);
    assert_eq!(e.register(0xA), 4);
    assert_eq!(e.register(15), 1);
}

#[test]
fn add_reg_without_carry_clears_vf() {
    let e = run(&[0x60, 0x01, 0x61, 0x01, 0x80, 0x14], 3);
    assert_eq!(e.register(0), 2);
    assert_eq!(e.register(15), 0);
}

#[test]
fn sub_reg_without_borrow_sets_vf() {
    // V0 := 5; V1 := 3; V0 -= V1
    let e = run(&[0x60, 0x05, 0x61, 0x03, 0x80, 0x15], 3);
    assert_eq!(e.register(0), 2);
    assert_eq!(e.register(15), 1);
}

#[test]
fn sub_reg_with_borrow_wraps_and_clears_vf() {
    // V0 := 3; V1 := 5; V0 -= V1 wraps to 254
    let e = run(&[0x60, 0x03, 0x61, 0x05, 0x80, 0x15], 3);
    assert_eq!(e.register(0), 254);
    assert_eq!(e.register(15), 0);
}

#[test]
fn sub_from_reg_stores_reversed_difference() {
    // V0 := 3; V1 := 10; V0 := V1 - V0
    let e = run(&[0x60, 0x03, 0x61, 0x0A, 0x80, 0x17], 3);
    assert_eq!(e.register(0), 7);
    assert_eq!(e.register(15), 1);
}

#[test]
fn sub_from_reg_with_borrow() {
    // V0 := 10; V1 := 3; V0 := V1 - V0 wraps to 249
    let e = run(&[0x60, 0x0A, 0x61, 0x03, 0x80, 0x17], 3);
    assert_eq!(e.register(0), 249);
    assert_eq!(e.register(15), 0);
}

#[test]
fn shift_right_keeps_dropped_bit() {
    // V0 := 0b00000011; V0 >>= 1
    let e = run(&[0x60, 0x03, 0x80, 0x06], 2);
    assert_eq!(e.register(0), 0b00000001);
    assert_eq!(e.register(15), 1);
}

#[test]
fn shift_left_wraps_and_keeps_high_bit() {
    // V0 := 0x81; V0 <<= 1 wraps to 2, VF takes the dropped bit
    let e = run(&[0x60, 0x81, 0x80, 0x0E], 2);
    assert_eq!(e.register(0), 2);
    assert_eq!(e.register(15), 1);
}

#[test]
fn bitwise_ops() {
    // V0 := 0b1100; V1 := 0b1010
    let or = run(&[0x60, 0x0C, 0x61, 0x0A, 0x80, 0x11], 3);
    assert_eq!(or.register(0), 0b1110);
    let and = run(&[0x60, 0x0C, 0x61, 0x0A, 0x80, 0x12], 3);
    assert_eq!(and.register(0), 0b1000);
    let xor = run(&[0x60, 0x0C, 0x61, 0x0A, 0x80, 0x13], 3);
    assert_eq!(xor.register(0), 0b0110);
}

#[test]
fn set_to_reg_copies() {
    let e = run(&[0x61, 0x2A, 0x80, 0x10], 2);
    assert_eq!(e.register(0), 0x2A);
    assert_eq!(e.register(1), 0x2A);
}

#[test]
fn skip_if_val_eq_and_ne() {
    // V0 := 7; skip when V0 == 7 lands past the next instruction
    let eq = run(&[0x60, 0x07, 0x30, 0x07], 2);
    assert_eq!(eq.program_counter(), 0x206);
    let eq_miss = run(&[0x60, 0x07, 0x30, 0x08], 2);
    assert_eq!(eq_miss.program_counter(), 0x204);
    let ne = run(&[0x60, 0x07, 0x40, 0x08], 2);
    assert_eq!(ne.program_counter(), 0x206);
    let ne_miss = run(&[0x60, 0x07, 0x40, 0x07], 2);
    assert_eq!(ne_miss.program_counter(), 0x204);
}

#[test]
fn skip_if_reg_eq_and_ne() {
    let eq = run(&[0x60, 0x03, 0x61, 0x03, 0x50, 0x10], 3);
    assert_eq!(eq.program_counter(), 0x208);
    let ne = run(&[0x60, 0x03, 0x61, 0x04, 0x90, 0x10], 3);
    assert_eq!(ne.program_counter(), 0x208);
    let ne_miss = run(&[0x60, 0x03, 0x61, 0x03, 0x90, 0x10], 3);
    assert_eq!(ne_miss.program_counter(), 0x206);
}

#[test]
fn jump_sets_the_counter() {
    let e = run(&[0x1A, 0xBC], 1);
    assert_eq!(e.program_counter(), 0xABC);
}

#[test]
fn jump_v0_distance_adds_v0() {
    let e = run(&[0x60, 0x04, 0xB3, 0x00], 2);
    assert_eq!(e.program_counter(), 0x304);
}

#[test]
fn set_index_and_increment() {
    let e = run(&[0xA1, 0x23, 0x60, 0x05, 0xF0, 0x1E], 3);
    assert_eq!(e.index_register(), 0x128);
}

#[test]
fn increment_i_wraps_at_sixteen_bits() {
    let mut e = Emu::new();
    e.execute_opcode(Opcode::SetToVal(0, 255)).unwrap();
    for _ in 0..300 {
        e.execute_opcode(Opcode::IncrementI(0)).unwrap();
    }
    // 300 * 255 = 76500, which wraps to 76500 - 65536
    assert_eq!(e.index_register(), 10964);
}

#[test]
fn call_then_return_restores_the_counter() {
    // 0x200: call 0x204; 0x202: V0 := 1; 0x204: return
    let mut e = Emu::new();
    e.load_rom(&[0x22, 0x04, 0x60, 0x01, 0x00, 0xEE]).unwrap();
    assert_eq!(e.tick(), Ok(()));
    assert_eq!(e.program_counter(), 0x204);
    assert_eq!(e.stack_pointer(), 1);
    assert_eq!(e.tick(), Ok(()));
    assert_eq!(e.program_counter(), 0x202);
    assert_eq!(e.stack_pointer(), 0);
    assert_eq!(e.tick(), Ok(()));
    assert_eq!(e.register(0), 1);
}

#[test]
fn nested_calls_overflow_at_the_limit() {
    // a subroutine that calls itself
    let mut e = Emu::new();
    e.load_rom(&[0x22, 0x00]).unwrap();
    for depth in 1..=16 {
        assert_eq!(e.tick(), Ok(()));
        assert_eq!(e.stack_pointer(), depth);
    }
    assert_eq!(e.tick(), Err(Chip8Error::StackOverflow));
    assert_eq!(e.stack_pointer(), 16);
}

#[test]
fn return_on_empty_stack_underflows() {
    let mut e = Emu::new();
    e.load_rom(&[0x00, 0xEE]).unwrap();
    assert_eq!(e.tick(), Err(Chip8Error::StackUnderflow));
}

#[test]
fn rand_is_masked() {
    // V0 := random & 0x00 must be 0 whatever was drawn
    let e = run(&[0xC0, 0x00], 1);
    assert_eq!(e.register(0), 0);
    // V1 := random & 0x0F never exceeds 15
    let e2 = run(&[0xC1, 0x0F], 1);
    assert!(e2.register(1) <= 0x0F);
}

#[test]
fn load_font_char_points_at_the_glyph() {
    // VA := 0x0A; I := font address of glyph A = 10 * 5
    let e = run(&[0x6A, 0x0A, 0xFA, 0x29], 2);
    assert_eq!(e.index_register(), 50);
}

#[test]
fn bcd_stores_three_digits() {
    // V0 := 234; I := 0x300; store digits
    let e = run(&[0x60, 0xEA, 0xA3, 0x00, 0xF0, 0x33], 3);
    assert_eq!(e.ram_byte(0x300), 2);
    assert_eq!(e.ram_byte(0x301), 3);
    assert_eq!(e.ram_byte(0x302), 4);
}

#[test]
fn bcd_of_a_small_value() {
    let e = run(&[0x60, 0x07, 0xA3, 0x00, 0xF0, 0x33], 3);
    assert_eq!(e.ram_byte(0x300), 0);
    assert_eq!(e.ram_byte(0x301), 0);
    assert_eq!(e.ram_byte(0x302), 7);
}

#[test]
fn load_into_ram_and_back() {
    // V0..V2 := 1, 2, 3; I := 0x400; memory[I..=I+2] := V0..V2
    let e = run(&[0x60, 0x01, 0x61, 0x02, 0x62, 0x03, 0xA4, 0x00, 0xF2, 0x55], 5);
    assert_eq!(e.ram_byte(0x400), 1);
    assert_eq!(e.ram_byte(0x401), 2);
    assert_eq!(e.ram_byte(0x402), 3);
    assert_eq!(e.ram_byte(0x403), 0);

    // overwrite the registers, then load them back from memory
    let e2 = run(
        &[0x60, 0x01, 0x61, 0x02, 0x62, 0x03, 0xA4, 0x00, 0xF2, 0x55, 0x60, 0x09, 0x61, 0x09,
            0x62, 0x09, 0xF2, 0x65],
        9,
    );
    assert_eq!(e2.register(0), 1);
    assert_eq!(e2.register(1), 2);
    assert_eq!(e2.register(2), 3);
}

#[test]
fn load_into_ram_past_the_end_fails() {
    let mut e = Emu::new();
    // I := 0xFFF, then store V0..=V1: 0xFFF + 1 is out of range
    e.load_rom(&[0xAF, 0xFF, 0xF1, 0x55]).unwrap();
    assert_eq!(e.tick(), Ok(()));
    assert_eq!(e.tick(), Err(Chip8Error::AddressOutOfRange));
}

#[test]
fn bcd_past_the_end_fails() {
    let mut e = Emu::new();
    e.load_rom(&[0xAF, 0xFE, 0xF0, 0x33]).unwrap();
    assert_eq!(e.tick(), Ok(()));
    assert_eq!(e.tick(), Err(Chip8Error::AddressOutOfRange));
}

#[test]
fn skip_if_key_pressed_and_not_pressed() {
    // V0 := 3; skip when key 3 is pressed
    let mut e = Emu::new();
    e.load_rom(&[0x60, 0x03, 0xE0, 0x9E]).unwrap();
    e.keypress(3, true);
    assert_eq!(e.tick(), Ok(()));
    assert_eq!(e.tick(), Ok(()));
    assert_eq!(e.program_counter(), 0x206);

    let mut e2 = Emu::new();
    e2.load_rom(&[0x60, 0x03, 0xE0, 0x9E]).unwrap();
    assert_eq!(e2.tick(), Ok(()));
    assert_eq!(e2.tick(), Ok(()));
    assert_eq!(e2.program_counter(), 0x204);

    let mut e3 = Emu::new();
    e3.load_rom(&[0x60, 0x03, 0xE0, 0xA1]).unwrap();
    assert_eq!(e3.tick(), Ok(()));
    assert_eq!(e3.tick(), Ok(()));
    assert_eq!(e3.program_counter(), 0x206);
}

#[test]
fn key_test_with_index_outside_keypad_fails() {
    let mut e = Emu::new();
    e.load_rom(&[0x60, 0xFF, 0xE0, 0x9E]).unwrap();
    assert_eq!(e.tick(), Ok(()));
    assert_eq!(e.tick(), Err(Chip8Error::AddressOutOfRange));
}

#[test]
fn wait_key_stalls_until_a_key_arrives() {
    let mut e = Emu::new();
    e.load_rom(&[0xF3, 0x0A]).unwrap();
    // two cycles with nothing pressed: the counter never moves
    assert_eq!(e.tick(), Ok(()));
    assert_eq!(e.program_counter(), 0x200);
    assert_eq!(e.tick(), Ok(()));
    assert_eq!(e.program_counter(), 0x200);
    // key 3 goes down: the next cycle stores it and moves on
    e.keypress(3, true);
    assert_eq!(e.tick(), Ok(()));
    assert_eq!(e.register(3), 3);
    assert_eq!(e.program_counter(), 0x202);
}

#[test]
fn wait_key_takes_the_lowest_pressed_key() {
    let mut e = Emu::new();
    e.load_rom(&[0xF0, 0x0A]).unwrap();
    e.keypress(9, true);
    e.keypress(2, true);
    assert_eq!(e.tick(), Ok(()));
    assert_eq!(e.register(0), 2);
}

#[test]
fn wait_key_sees_a_released_key_no_more() {
    let mut e = Emu::new();
    e.load_rom(&[0xF0, 0x0A]).unwrap();
    e.keypress(5, true);
    e.keypress(5, false);
    assert_eq!(e.tick(), Ok(()));
    assert_eq!(e.program_counter(), 0x200);
}
