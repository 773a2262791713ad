//! The machine state: program counter, RAM, general registers, index
//! register, call stack, keypad, timers and framebuffer, together with its
//! mathematical view.

pub(crate) mod cpu;
pub(crate) mod error;
pub(crate) mod keys;
pub(crate) mod laws;
pub(crate) mod opcode;
pub(crate) mod resource_loader;
pub(crate) mod rng;
pub(crate) mod stack;
pub(crate) mod timers;

use crate::constants::{
    NUM_KEYS, NUM_REGS, RAM_SIZE, SCREEN_HEIGHT, SCREEN_WIDTH, STACK_SIZE, START_ADDR,
};
use resource_loader::{font_seq, FONTSET_SIZE};
use vstd::prelude::*;

verus! {

/// The mathematical value of a machine: every component as a plain number or
/// a sequence. Contracts of the executable methods are stated over this view.
pub struct EmuView {
    /// Address of the next instruction.
    pub pc: u16,
    /// The 4 KB address space.
    pub ram: Seq<u8>,
    /// The 16 general registers `V0`..`VF`.
    pub v_reg: Seq<u8>,
    /// The index register `I`.
    pub i_reg: u16,
    /// Number of return addresses currently on the stack.
    pub sp: u16,
    /// The call stack slots.
    pub stack: Seq<u16>,
    /// Press state of the 16 logical keys.
    pub keys: Seq<bool>,
    /// The delay timer.
    pub dt: u8,
    /// The sound timer.
    pub st: u8,
    /// The 64 x 32 framebuffer, row-major: index = 64 * y + x.
    pub screen: Seq<bool>,
}

/// The machine state is well formed: every component has its hardware size
/// and the stack pointer stays within the stack.
pub open spec fn wf(s: EmuView) -> bool {
    &&& s.ram.len() == RAM_SIZE
    &&& s.v_reg.len() == NUM_REGS
    &&& s.stack.len() == STACK_SIZE
    &&& s.keys.len() == NUM_KEYS
    &&& s.screen.len() == SCREEN_WIDTH * SCREEN_HEIGHT
    &&& s.sp <= STACK_SIZE
}

/// A freshly constructed machine: everything zeroed except the program
/// counter, which starts at the ROM load address, and the bottom of memory,
/// which holds the font glyph table.
pub open spec fn initial_state(s: EmuView) -> bool {
    &&& s.pc == START_ADDR
    &&& s.i_reg == 0
    &&& s.sp == 0
    &&& s.dt == 0
    &&& s.st == 0
    &&& forall|i: int| 0 <= i < FONTSET_SIZE ==> s.ram[i] == font_seq()[i]
    &&& forall|i: int| FONTSET_SIZE <= i < RAM_SIZE ==> s.ram[i] == 0
    &&& forall|i: int| 0 <= i < NUM_REGS ==> s.v_reg[i] == 0
    &&& forall|i: int| 0 <= i < STACK_SIZE ==> s.stack[i] == 0
    &&& forall|i: int| 0 <= i < NUM_KEYS ==> !s.keys[i]
    &&& forall|i: int| 0 <= i < SCREEN_WIDTH * SCREEN_HEIGHT ==> !s.screen[i]
}

#[derive(Debug)]
pub struct Emu {
    pub(crate) pc: u16, // Program counter
    pub(crate) ram: [u8; 4096], // Main RAM
    pub(crate) v_reg: [u8; 16], // Main registers
    pub(crate) i_reg: u16, // Used for indexing into RAM for reading/writing
    pub(crate) sp: u16, // Stack pointer
    pub(crate) stack: [u16; 16], // The stack itself
    pub(crate) keys: [bool; 16], // Keys
    pub(crate) dt: u8, // Delay timer
    pub(crate) st: u8, // Sound timer

    pub(crate) screen: [bool; 2048], // Screen data
}

impl Emu {
    /// The machine as a mathematical value.
    pub open(crate) spec fn view(&self) -> EmuView {
        EmuView {
            pc: self.pc,
            ram: self.ram@,
            v_reg: self.v_reg@,
            i_reg: self.i_reg,
            sp: self.sp,
            stack: self.stack@,
            keys: self.keys@,
            dt: self.dt,
            st: self.st,
            screen: self.screen@,
        }
    }

    /// Construct a machine in its initial state: zeroed, program counter at
    /// the ROM load address, font loaded into low memory.
    pub fn new() -> (r: Self)
        ensures
            wf(r.view()),
            initial_state(r.view()),
    {
        let mut emu = Self {
            pc: START_ADDR,
            ram: [0; 4096],
            screen: [false; 2048],
            v_reg: [0; 16],
            i_reg: 0,
            sp: 0,
            stack: [0; 16],
            keys: [false; 16],
            dt: 0,
            st: 0,
        };
        emu.load_font();
        emu
    }

    /// The screen as the host renders it: one boolean per pixel, row-major,
    /// 64 x 32.
    pub fn framebuffer(&self) -> (r: &[bool; 2048])
        ensures
            r@ == self.view().screen,
    {
        &self.screen
    }

    /// Read one general register.
    pub fn register(&self, idx: usize) -> (r: u8)
        requires
            idx < NUM_REGS,
        ensures
            r == self.view().v_reg[idx as int],
    {
        self.v_reg[idx]
    }

    /// Read the program counter.
    pub fn program_counter(&self) -> (r: u16)
        ensures
            r == self.view().pc,
    {
        self.pc
    }

    /// Read the index register.
    pub fn index_register(&self) -> (r: u16)
        ensures
            r == self.view().i_reg,
    {
        self.i_reg
    }

    /// Read the stack pointer: how many return addresses are on the stack.
    pub fn stack_pointer(&self) -> (r: u16)
        ensures
            r == self.view().sp,
    {
        self.sp
    }

    /// Read the delay timer.
    pub fn delay_timer(&self) -> (r: u8)
        ensures
            r == self.view().dt,
    {
        self.dt
    }

    /// Read the sound timer.
    pub fn sound_timer(&self) -> (r: u8)
        ensures
            r == self.view().st,
    {
        self.st
    }

    /// Read one byte of memory.
    pub fn ram_byte(&self, addr: usize) -> (r: u8)
        requires
            addr < RAM_SIZE,
        ensures
            r == self.view().ram[addr as int],
    {
        self.ram[addr]
    }
}

impl Default for Emu {
    /// The default machine is the initial one.
    fn default() -> (r: Self)
        ensures
            wf(r.view()),
            initial_state(r.view()),
    {
        return Self::new();
    }
}

} // verus!
