//! A CHIP-8 virtual machine core: registers, memory, call stack, timers,
//! keypad and monochrome framebuffer, with an instruction engine whose
//! behaviour is stated in contracts and verified.

pub mod constants;
mod emu;

pub use emu::Emu;
pub use emu::EmuView;
pub use emu::cpu::any_pressed;
pub use emu::cpu::draw_row_upto;
pub use emu::cpu::draw_upto;
pub use emu::cpu::exec_pre;
pub use emu::cpu::fetch_word;
pub use emu::cpu::first_pressed;
pub use emu::cpu::flag_byte;
pub use emu::cpu::lemma_any_pressed;
pub use emu::cpu::lemma_draw_row_upto_len;
pub use emu::cpu::lemma_draw_upto_len;
pub use emu::cpu::lemma_first_pressed;
pub use emu::cpu::lemma_step_op_wf;
pub use emu::cpu::pixel_index;
pub use emu::cpu::sprite_bit;
pub use emu::cpu::step_op;
pub use emu::cpu::tick_spec;
pub use emu::cpu::tick_uses_rng;
pub use emu::cpu::wrap16;
pub use emu::cpu::wrap8;
pub use emu::error::Chip8Error;
pub use emu::initial_state;
pub use emu::laws::lemma_add_reg_wraps;
pub use emu::laws::lemma_add_val_wraps;
pub use emu::laws::lemma_call_overflow;
pub use emu::laws::lemma_call_then_return;
pub use emu::laws::lemma_clear_screen;
pub use emu::laws::lemma_draw_sprite_twice_collides;
pub use emu::laws::lemma_draw_sprite_twice_restores;
pub use emu::laws::lemma_draw_twice_collides;
pub use emu::laws::lemma_draw_twice_restores;
pub use emu::laws::lemma_return_underflow;
pub use emu::laws::lemma_shift_left_wraps;
pub use emu::laws::lemma_wait_key_reads_key;
pub use emu::laws::lemma_wait_key_stalls;
pub use emu::opcode::addr12;
pub use emu::opcode::decode_spec;
pub use emu::opcode::imm_byte;
pub use emu::opcode::lemma_decode_wf;
pub use emu::opcode::nib0;
pub use emu::opcode::nib1;
pub use emu::opcode::nib2;
pub use emu::opcode::nib3;
pub use emu::opcode::op_wf;
pub use emu::opcode::Opcode;
pub use emu::resource_loader::font_seq;
pub use emu::resource_loader::FONTSET_SIZE;
pub use emu::wf;

