//! Sprite drawing: XOR toggling, collision reporting in `VF`, and
//! wraparound at the screen edges.

use chip8_core::{Chip8Error, Emu, Opcode};

fn pixel(e: &Emu, x: usize, y: usize) -> bool {
    e.framebuffer()[64 * y + x]
}

#[test]
fn draw_one_row_lights_eight_pixels() {
    // I := 0x206; draw 1 row at (0, 0); the row byte there is 0xFF
    let mut e = Emu::new();
    e.load_rom(&[0xA2, 0x06, 0xD0, 0x01, 0x00, 0x00, 0xFF]).unwrap();
    assert_eq!(e.tick(), Ok(()));
    assert_eq!(e.tick(), Ok(()));
    for x in 0..8 {
        assert!(pixel(&e, x, 0));
    }
    assert!(!pixel(&e, 8, 0));
    assert!(!pixel(&e, 0, 1));
    assert_eq!(e.register(15), 0);
}

#[test]
fn draw_respects_the_bit_pattern() {
    // row byte 0b10100001
    let mut e = Emu::new();
    e.load_rom(&[0xA2, 0x06, 0xD0, 0x01, 0x00, 0x00, 0xA1]).unwrap();
    assert_eq!(e.tick(), Ok(()));
    assert_eq!(e.tick(), Ok(()));
    let want = [true, false, true, false, false, false, false, true];
    for x in 0..8 {
        assert_eq!(pixel(&e, x, 0), want[x]);
    }
}

#[test]
fn draw_at_an_offset_row_and_column() {
    // draw two rows at (2, 5): 0x80 then 0x01
    let mut e = Emu::new();
    e.load_rom(&[0xA2, 0x06, 0xD2, 0x52, 0x00, 0x00, 0x80, 0x01]).unwrap();
    assert_eq!(e.tick(), Ok(()));
    assert_eq!(e.tick(), Ok(()));
    assert!(pixel(&e, 2, 5));
    assert!(!pixel(&e, 3, 5));
    assert!(pixel(&e, 9, 6));
    assert!(!pixel(&e, 2, 6));
}

#[test]
fn draw_wraps_columns_around_the_right_edge() {
    // a single 0xFF row at column 60 lands in 60..=63 and wraps into 0..=3
    let mut e = Emu::new();
    e.load_rom(&[0xFF]).unwrap();
    e.execute_opcode(Opcode::SetIndex(0x200)).unwrap();
    e.execute_opcode(Opcode::DrawSprite(60, 0, 1)).unwrap();
    for x in 60..64 {
        assert!(pixel(&e, x, 0));
    }
    for x in 0..4 {
        assert!(pixel(&e, x, 0));
    }
    for x in 4..60 {
        assert!(!pixel(&e, x, 0));
    }
    assert_eq!(e.register(15), 0);
}

#[test]
fn draw_wraps_rows_around_the_bottom_edge() {
    let mut e = Emu::new();
    e.load_rom(&[0x80, 0x80]).unwrap();
    e.execute_opcode(Opcode::SetIndex(0x200)).unwrap();
    e.execute_opcode(Opcode::DrawSprite(0, 31, 2)).unwrap();
    assert!(pixel(&e, 0, 31));
    assert!(pixel(&e, 0, 0));
}

#[test]
fn drawing_twice_restores_the_screen_and_reports_collision() {
    let mut e = Emu::new();
    e.load_rom(&[0xFF]).unwrap();
    e.execute_opcode(Opcode::SetIndex(0x200)).unwrap();
    e.execute_opcode(Opcode::DrawSprite(60, 0, 1)).unwrap();
    assert_eq!(e.register(15), 0);
    e.execute_opcode(Opcode::DrawSprite(60, 0, 1)).unwrap();
    assert_eq!(e.register(15), 1);
    assert!(e.framebuffer().iter().all(|p| !p));
}

#[test]
fn partial_overlap_still_reports_collision() {
    // 0xFF at (0,0), then 0xFF at (4,0): pixels 4..=7 toggle off
    let mut e = Emu::new();
    e.load_rom(&[0xFF]).unwrap();
    e.execute_opcode(Opcode::SetIndex(0x200)).unwrap();
    e.execute_opcode(Opcode::DrawSprite(0, 0, 1)).unwrap();
    e.execute_opcode(Opcode::DrawSprite(4, 0, 1)).unwrap();
    assert_eq!(e.register(15), 1);
    for x in 0..4 {
        assert!(pixel(&e, x, 0));
    }
    for x in 4..8 {
        assert!(!pixel(&e, x, 0));
    }
    for x in 8..12 {
        assert!(pixel(&e, x, 0));
    }
}

#[test]
fn multi_row_collision_on_a_later_row_sets_vf() {
    // first lay down one row at (0, 1); then draw a two-row sprite at
    // (0, 0) whose second row collides with it
    let mut e = Emu::new();
    e.load_rom(&[0xF0, 0xF0]).unwrap();
    e.execute_opcode(Opcode::SetIndex(0x200)).unwrap();
    e.execute_opcode(Opcode::DrawSprite(0, 1, 1)).unwrap();
    assert_eq!(e.register(15), 0);
    e.execute_opcode(Opcode::DrawSprite(0, 0, 2)).unwrap();
    assert_eq!(e.register(15), 1);
    for x in 0..4 {
        assert!(pixel(&e, x, 0));
        assert!(!pixel(&e, x, 1));
    }
}

#[test]
fn draw_of_height_zero_changes_nothing() {
    let mut e = Emu::new();
    e.load_rom(&[0xA2, 0x00, 0xD0, 0x00]).unwrap();
    assert_eq!(e.tick(), Ok(()));
    assert_eq!(e.tick(), Ok(()));
    assert!(e.framebuffer().iter().all(|p| !p));
    assert_eq!(e.register(15), 0);
}

#[test]
fn draw_with_sprite_data_past_the_end_fails() {
    let mut e = Emu::new();
    // I := 0xFFF, two rows would read 0xFFF and 0x1000
    e.load_rom(&[0xAF, 0xFF, 0xD0, 0x02]).unwrap();
    assert_eq!(e.tick(), Ok(()));
    assert_eq!(e.tick(), Err(Chip8Error::AddressOutOfRange));
}

#[test]
fn clear_screen_blanks_everything() {
    let mut e = Emu::new();
    e.load_rom(&[0xA2, 0x06, 0xD0, 0x01, 0x00, 0xE0, 0xFF]).unwrap();
    assert_eq!(e.tick(), Ok(()));
    assert_eq!(e.tick(), Ok(()));
    assert!(e.framebuffer().iter().any(|p| *p));
    assert_eq!(e.tick(), Ok(()));
    assert!(e.framebuffer().iter().all(|p| !p));
}
