//! The machine around the instruction engine: construction, loading, keys,
//! timers, and the framebuffer view.

use chip8_core::{Chip8Error, Emu};

#[test]
fn new_machine_starts_at_load_address() {
    let e = Emu::new();
    assert_eq!(e.program_counter(), 0x200);
    assert_eq!(e.index_register(), 0);
    assert_eq!(e.stack_pointer(), 0);
    assert_eq!(e.delay_timer(), 0);
    assert_eq!(e.sound_timer(), 0);
    for i in 0..16 {
        assert_eq!(e.register(i), 0);
    }
}

#[test]
fn new_machine_has_font_loaded() {
    let e = Emu::new();
    // glyph 0 starts with 0xF0, glyph 1 with 0x20
    assert_eq!(e.ram_byte(0), 0xF0);
    assert_eq!(e.ram_byte(4), 0xF0);
    assert_eq!(e.ram_byte(5), 0x20);
    // glyph A (offset 50) starts with 0xF0, glyph F ends with 0x80
    assert_eq!(e.ram_byte(50), 0xF0);
    assert_eq!(e.ram_byte(79), 0x80);
    // past the table everything is zero
    assert_eq!(e.ram_byte(80), 0);
    assert_eq!(e.ram_byte(0x200), 0);
    assert_eq!(e.ram_byte(4095), 0);
}

#[test]
fn new_machine_screen_is_blank() {
    let e = Emu::new();
    let fb = e.framebuffer();
    assert_eq!(fb.len(), 64 * 32);
    assert!(fb.iter().all(|p| !p));
}

#[test]
fn default_matches_new() {
    let d = Emu::default();
    assert_eq!(d.program_counter(), 0x200);
    assert_eq!(d.ram_byte(0), 0xF0);
}

#[test]
fn load_rom_copies_bytes_from_load_address() {
    let mut e = Emu::new();
    assert_eq!(e.load_rom(&[0xAB, 0xCD, 0xEF]), Ok(()));
    assert_eq!(e.ram_byte(0x200), 0xAB);
    assert_eq!(e.ram_byte(0x201), 0xCD);
    assert_eq!(e.ram_byte(0x202), 0xEF);
    assert_eq!(e.ram_byte(0x203), 0);
    // the font below stays
    assert_eq!(e.ram_byte(0), 0xF0);
}

#[test]
fn load_rom_fills_memory_exactly() {
    let mut e = Emu::new();
    let rom = vec![0x7Eu8; 3584];
    assert_eq!(e.load_rom(&rom), Ok(()));
    assert_eq!(e.ram_byte(0x200), 0x7E);
    assert_eq!(e.ram_byte(4095), 0x7E);
}

#[test]
fn load_rom_one_byte_over_fails() {
    let mut e = Emu::new();
    let rom = vec![0x7Eu8; 3585];
    assert_eq!(e.load_rom(&rom), Err(Chip8Error::RomTooLarge));
    // nothing was written
    assert_eq!(e.ram_byte(0x200), 0);
    assert_eq!(e.ram_byte(4095), 0);
}

#[test]
fn load_rom_empty_is_fine() {
    let mut e = Emu::new();
    assert_eq!(e.load_rom(&[]), Ok(()));
    assert_eq!(e.ram_byte(0x200), 0);
}

#[test]
fn keypress_out_of_range_is_ignored() {
    let mut e = Emu::new();
    e.keypress(16, true);
    e.keypress(1000, true);
    // a waiting instruction still sees no key
    e.load_rom(&[0xF0, 0x0A]).unwrap();
    assert_eq!(e.tick(), Ok(()));
    assert_eq!(e.program_counter(), 0x200);
}

#[test]
fn sound_timer_signals_once_on_its_last_step() {
    let mut e = Emu::new();
    // V0 := 1; sound timer := V0
    e.load_rom(&[0x60, 0x01, 0xF0, 0x18]).unwrap();
    assert_eq!(e.tick(), Ok(()));
    assert_eq!(e.tick(), Ok(()));
    assert_eq!(e.sound_timer(), 1);
    assert_eq!(e.tick_timers(), true);
    assert_eq!(e.sound_timer(), 0);
    assert_eq!(e.tick_timers(), false);
    assert_eq!(e.sound_timer(), 0);
}

#[test]
fn delay_timer_counts_down_and_stops_at_zero() {
    let mut e = Emu::new();
    // V0 := 2; delay timer := V0
    e.load_rom(&[0x60, 0x02, 0xF0, 0x15]).unwrap();
    assert_eq!(e.tick(), Ok(()));
    assert_eq!(e.tick(), Ok(()));
    assert_eq!(e.delay_timer(), 2);
    assert_eq!(e.tick_timers(), false);
    assert_eq!(e.delay_timer(), 1);
    assert_eq!(e.tick_timers(), false);
    assert_eq!(e.delay_timer(), 0);
    assert_eq!(e.tick_timers(), false);
    assert_eq!(e.delay_timer(), 0);
}

#[test]
fn timers_with_both_running_age_together() {
    let mut e = Emu::new();
    // V0 := 3; delay := V0; V1 := 1; sound := V1
    e.load_rom(&[0x60, 0x03, 0xF0, 0x15, 0x61, 0x01, 0xF1, 0x18]).unwrap();
    for _ in 0..4 {
        assert_eq!(e.tick(), Ok(()));
    }
    assert_eq!(e.tick_timers(), true);
    assert_eq!(e.delay_timer(), 2);
    assert_eq!(e.sound_timer(), 0);
}

#[test]
fn get_delay_timer_reads_it_back() {
    let mut e = Emu::new();
    // V0 := 7; delay := V0; V5 := delay
    e.load_rom(&[0x60, 0x07, 0xF0, 0x15, 0xF5, 0x07]).unwrap();
    for _ in 0..3 {
        assert_eq!(e.tick(), Ok(()));
    }
    assert_eq!(e.register(5), 7);
}

#[test]
fn fetch_past_end_of_memory_fails() {
    let mut e = Emu::new();
    // jump to 0xFFE; the word there is 0x0000, a Nop; then the counter sits
    // at 0x1000 and the next fetch is out of range
    e.load_rom(&[0x1F, 0xFE]).unwrap();
    assert_eq!(e.tick(), Ok(()));
    assert_eq!(e.program_counter(), 0xFFE);
    assert_eq!(e.tick(), Ok(()));
    assert_eq!(e.program_counter(), 0x1000);
    assert_eq!(e.tick(), Err(Chip8Error::AddressOutOfRange));
    assert_eq!(e.program_counter(), 0x1000);
}

#[test]
fn undecodable_word_is_fatal_and_carries_the_word() {
    let mut e = Emu::new();
    e.load_rom(&[0xFF, 0xFF]).unwrap();
    assert_eq!(e.tick(), Err(Chip8Error::DecodeError(0xFFFF)));
    // the counter had already advanced past the bad word
    assert_eq!(e.program_counter(), 0x202);
}
