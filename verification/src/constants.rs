//! Fixed sizes of the emulated hardware, and the software load addresses.

use vstd::prelude::*;

verus! {

// Ram
pub const RAM_SIZE: usize = 4096;

// Registers
pub const NUM_REGS: usize = 16;

// Stack
pub const STACK_SIZE: usize = 16;

// Keys
pub const NUM_KEYS: usize = 16;

// Screen
pub const SCREEN_WIDTH: usize = 64;
pub const SCREEN_HEIGHT: usize = 32;

// Load addresses: the font glyphs sit at the bottom of memory, ROM code
// starts at 0x200.
pub const FONT_START_ADDR: u16 = 0x0;
pub const START_ADDR: u16 = 0x200;

} // verus!
