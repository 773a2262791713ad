//! The execution engine: one fetch-decode-execute cycle per tick, and the
//! state transition each operation denotes.
//!
//! The whole instruction semantics is the spec function [`step_op`]: given a
//! machine state, a decoded operation and the byte the random source would
//! hand back, it yields the next state and whether the operation failed.
//! [`tick_spec`] composes it with the fetch and the decode. The executable
//! engine is proved to follow these functions exactly.

use super::error::Chip8Error;
use super::opcode::{decode_spec, lemma_decode_wf, op_wf, Opcode};
use super::rng::random_byte;
use super::{wf, Emu, EmuView};
use crate::constants::{FONT_START_ADDR, NUM_KEYS, RAM_SIZE, SCREEN_HEIGHT, SCREEN_WIDTH, STACK_SIZE};
use vstd::prelude::*;

verus! {

/// A flag register value: 1 for a condition that holds, 0 otherwise.
pub open spec fn flag_byte(b: bool) -> u8 {
    if b {
        1
    } else {
        0
    }
}

/// An 8-bit register value after wraparound.
pub open spec fn wrap8(n: int) -> u8 {
    (n % 256) as u8
}

/// A 16-bit register value after wraparound.
pub open spec fn wrap16(n: int) -> u16 {
    (n % 0x10000) as u16
}

/// Bit `col` of a sprite row byte, most significant bit first.
pub open spec fn sprite_bit(pixels: u8, col: int) -> bool {
    pixels & (0x80u8 >> (col as u8)) != 0
}

/// Framebuffer index of a sprite pixel: both coordinates wrap around the
/// screen edges.
pub open spec fn pixel_index(x: u16, y: u16, row: int, col: int) -> int {
    64 * ((y + row) % 32) + ((x + col) % 64)
}

/// Screen and collision flag after drawing the first `k` bits of one sprite
/// row. A set sprite bit toggles its pixel; a pixel toggled from set to
/// unset raises the collision flag.
pub open spec fn draw_row_upto(
    screen: Seq<bool>,
    flipped: bool,
    x: u16,
    y: u16,
    row: int,
    pixels: u8,
    k: int,
) -> (Seq<bool>, bool)
    decreases k,
{
    if k <= 0 {
        (screen, flipped)
    } else {
        let prev = draw_row_upto(screen, flipped, x, y, row, pixels, k - 1);
        let col = k - 1;
        if sprite_bit(pixels, col) {
            let idx = pixel_index(x, y, row, col);
            (prev.0.update(idx, !prev.0[idx]), prev.1 || prev.0[idx])
        } else {
            prev
        }
    }
}

/// Screen and collision flag after drawing the first `k` rows of a sprite
/// whose data starts at address `i_reg`. The flag accumulates over the whole
/// draw and never falls back to 0, so writing it after every row and writing
/// it once at the end come to the same value; this machine writes `VF` once,
/// after the last row, and a draw of zero rows leaves `VF` alone.
pub open spec fn draw_upto(
    screen: Seq<bool>,
    ram: Seq<u8>,
    i_reg: u16,
    x: u16,
    y: u16,
    k: int,
) -> (Seq<bool>, bool)
    decreases k,
{
    if k <= 0 {
        (screen, false)
    } else {
        let prev = draw_upto(screen, ram, i_reg, x, y, k - 1);
        let row = k - 1;
        draw_row_upto(prev.0, prev.1, x, y, row, ram[i_reg + row], 8)
    }
}

/// The lowest pressed key index at or above `i`, or 16 when none is.
pub open spec fn first_pressed(keys: Seq<bool>, i: int) -> int
    decreases 16 - i,
{
    if i < 0 || i >= 16 {
        16
    } else if keys[i] {
        i
    } else {
        first_pressed(keys, i + 1)
    }
}

/// Some key of the keypad is pressed.
pub open spec fn any_pressed(keys: Seq<bool>) -> bool {
    exists|k: int| 0 <= k < 16 && keys[k]
}

/// What `first_pressed` finds: the first index whose key is down, every key
/// below it being up.
pub proof fn lemma_first_pressed(keys: Seq<bool>, i: int)
    requires
        0 <= i <= 16,
    ensures
        i <= first_pressed(keys, i) <= 16,
        first_pressed(keys, i) < 16 ==> keys[first_pressed(keys, i)],
        forall|k: int| i <= k < first_pressed(keys, i) ==> !keys[k],
    decreases 16 - i,
{
    if i < 16 && !keys[i] {
        lemma_first_pressed(keys, i + 1);
    }
}

/// A key is pressed exactly when the scan finds one.
pub proof fn lemma_any_pressed(keys: Seq<bool>)
    ensures
        any_pressed(keys) <==> first_pressed(keys, 0) < 16,
{
    lemma_first_pressed(keys, 0);
}

/// The effect of one decoded operation on a machine whose program counter
/// has already advanced past the instruction: the state after the operation,
/// and the failure if it has one. `rnd` is the byte the random source hands
/// back; only `Rand` reads it.
pub open spec fn step_op(s: EmuView, op: Opcode, rnd: u8) -> (EmuView, Result<(), Chip8Error>) {
    match op {
        Opcode::Nop => (s, Ok(())),
        Opcode::ClearScreen => (
            EmuView { screen: Seq::new((SCREEN_WIDTH * SCREEN_HEIGHT) as nat, |i: int| false), ..s },
            Ok(()),
        ),
        Opcode::Return => {
            if s.sp == 0 {
                (s, Err(Chip8Error::StackUnderflow))
            } else {
                (EmuView { pc: s.stack[s.sp - 1], sp: (s.sp - 1) as u16, ..s }, Ok(()))
            }
        },
        Opcode::Jump(addr) => (EmuView { pc: addr, ..s }, Ok(())),
        Opcode::Call(addr) => {
            if s.sp >= STACK_SIZE {
                (s, Err(Chip8Error::StackOverflow))
            } else {
                (
                    EmuView {
                        stack: s.stack.update(s.sp as int, s.pc),
                        sp: (s.sp + 1) as u16,
                        pc: addr,
                        ..s
                    },
                    Ok(()),
                )
            }
        },
        Opcode::SkipIfValEQ(x, v) => {
            if s.v_reg[x as int] == v {
                (EmuView { pc: (s.pc + 2) as u16, ..s }, Ok(()))
            } else {
                (s, Ok(()))
            }
        },
        Opcode::SkipIfValNE(x, v) => {
            if s.v_reg[x as int] != v {
                (EmuView { pc: (s.pc + 2) as u16, ..s }, Ok(()))
            } else {
                (s, Ok(()))
            }
        },
        Opcode::SkipIfRegEQ(x, y) => {
            if s.v_reg[x as int] == s.v_reg[y as int] {
                (EmuView { pc: (s.pc + 2) as u16, ..s }, Ok(()))
            } else {
                (s, Ok(()))
            }
        },
        Opcode::SetToVal(x, v) => (EmuView { v_reg: s.v_reg.update(x as int, v), ..s }, Ok(())),
        Opcode::AddVal(x, v) => (
            EmuView { v_reg: s.v_reg.update(x as int, wrap8(s.v_reg[x as int] + v)), ..s },
            Ok(()),
        ),
        Opcode::SetToReg(x, y) => (
            EmuView { v_reg: s.v_reg.update(x as int, s.v_reg[y as int]), ..s },
            Ok(()),
        ),
        Opcode::BitwiseOr(x, y) => (
            EmuView { v_reg: s.v_reg.update(x as int, s.v_reg[x as int] | s.v_reg[y as int]), ..s },
            Ok(()),
        ),
        Opcode::BitwiseAnd(x, y) => (
            EmuView { v_reg: s.v_reg.update(x as int, s.v_reg[x as int] & s.v_reg[y as int]), ..s },
            Ok(()),
        ),
        Opcode::BitwiseXor(x, y) => (
            EmuView { v_reg: s.v_reg.update(x as int, s.v_reg[x as int] ^ s.v_reg[y as int]), ..s },
            Ok(()),
        ),
        Opcode::AddReg(x, y) => {
            let sum = s.v_reg[x as int] + s.v_reg[y as int];
            (
                EmuView {
                    v_reg: s.v_reg.update(x as int, wrap8(sum)).update(15, flag_byte(sum > 255)),
                    ..s
                },
                Ok(()),
            )
        },
        Opcode::SubReg(x, y) => {
            let diff = s.v_reg[x as int] - s.v_reg[y as int];
            (
                EmuView {
                    v_reg: s.v_reg.update(x as int, wrap8(diff)).update(
                        15,
                        flag_byte(s.v_reg[x as int] >= s.v_reg[y as int]),
                    ),
                    ..s
                },
                Ok(()),
            )
        },
        Opcode::ShiftRight(x) => {
            let vx = s.v_reg[x as int];
            (
                EmuView { v_reg: s.v_reg.update(x as int, vx / 2).update(15, vx % 2), ..s },
                Ok(()),
            )
        },
        Opcode::SubFromReg(x, y) => {
            let diff = s.v_reg[y as int] - s.v_reg[x as int];
            (
                EmuView {
                    v_reg: s.v_reg.update(x as int, wrap8(diff)).update(
                        15,
                        flag_byte(s.v_reg[y as int] >= s.v_reg[x as int]),
                    ),
                    ..s
                },
                Ok(()),
            )
        },
        Opcode::ShiftLeft(x) => {
            let vx = s.v_reg[x as int];
            (
                EmuView { v_reg: s.v_reg.update(x as int, wrap8(2 * vx)).update(15, vx / 128), ..s },
                Ok(()),
            )
        },
        Opcode::SkipIfRegNE(x, y) => {
            if s.v_reg[x as int] != s.v_reg[y as int] {
                (EmuView { pc: (s.pc + 2) as u16, ..s }, Ok(()))
            } else {
                (s, Ok(()))
            }
        },
        Opcode::SetIndex(addr) => (EmuView { i_reg: addr, ..s }, Ok(())),
        Opcode::JumpV0Distance(distance) => (
            EmuView { pc: (s.v_reg[0] + distance) as u16, ..s },
            Ok(()),
        ),
        Opcode::Rand(x, mask) => (
            EmuView { v_reg: s.v_reg.update(x as int, rnd & mask), ..s },
            Ok(()),
        ),
        Opcode::DrawSprite(x, y, height) => {
            if height == 0 {
                (s, Ok(()))
            } else if s.i_reg + height > RAM_SIZE {
                (s, Err(Chip8Error::AddressOutOfRange))
            } else {
                let drawn = draw_upto(s.screen, s.ram, s.i_reg, x, y, height as int);
                (
                    EmuView {
                        screen: drawn.0,
                        v_reg: s.v_reg.update(15, flag_byte(drawn.1)),
                        ..s
                    },
                    Ok(()),
                )
            }
        },
        Opcode::SkipIfKeyPressed(x) => {
            let key = s.v_reg[x as int];
            if key >= NUM_KEYS {
                (s, Err(Chip8Error::AddressOutOfRange))
            } else if s.keys[key as int] {
                (EmuView { pc: (s.pc + 2) as u16, ..s }, Ok(()))
            } else {
                (s, Ok(()))
            }
        },
        Opcode::SkipIfKeyNotPressed(x) => {
            let key = s.v_reg[x as int];
            if key >= NUM_KEYS {
                (s, Err(Chip8Error::AddressOutOfRange))
            } else if !s.keys[key as int] {
                (EmuView { pc: (s.pc + 2) as u16, ..s }, Ok(()))
            } else {
                (s, Ok(()))
            }
        },
        Opcode::GetDelayTimer(x) => (EmuView { v_reg: s.v_reg.update(x as int, s.dt), ..s }, Ok(())),
        Opcode::WaitKey(x) => {
            if any_pressed(s.keys) {
                (
                    EmuView {
                        v_reg: s.v_reg.update(x as int, first_pressed(s.keys, 0) as u8),
                        ..s
                    },
                    Ok(()),
                )
            } else {
                (EmuView { pc: (s.pc - 2) as u16, ..s }, Ok(()))
            }
        },
        Opcode::SetDelayTimer(x) => (EmuView { dt: s.v_reg[x as int], ..s }, Ok(())),
        Opcode::SetSoundTimer(x) => (EmuView { st: s.v_reg[x as int], ..s }, Ok(())),
        Opcode::IncrementI(x) => (
            EmuView { i_reg: wrap16(s.i_reg + s.v_reg[x as int]), ..s },
            Ok(()),
        ),
        Opcode::LoadFontChar(x) => (
            EmuView { i_reg: (FONT_START_ADDR + s.v_reg[x as int] * 5) as u16, ..s },
            Ok(()),
        ),
        Opcode::BCD(x) => {
            if s.i_reg + 2 >= RAM_SIZE {
                (s, Err(Chip8Error::AddressOutOfRange))
            } else {
                let num = s.v_reg[x as int] as int;
                (
                    EmuView {
                        ram: s.ram.update(s.i_reg as int, (num / 100) as u8).update(
                            s.i_reg + 1,
                            ((num / 10) % 10) as u8,
                        ).update(s.i_reg + 2, (num % 10) as u8),
                        ..s
                    },
                    Ok(()),
                )
            }
        },
        Opcode::LoadIntoRam(x) => {
            if s.i_reg + x >= RAM_SIZE {
                (s, Err(Chip8Error::AddressOutOfRange))
            } else {
                (
                    EmuView {
                        ram: Seq::new(
                            s.ram.len(),
                            |j: int|
                                if s.i_reg <= j <= s.i_reg + x {
                                    s.v_reg[j - s.i_reg]
                                } else {
                                    s.ram[j]
                                },
                        ),
                        ..s
                    },
                    Ok(()),
                )
            }
        },
        Opcode::LoadFromRam(x) => {
            if s.i_reg + x >= RAM_SIZE {
                (s, Err(Chip8Error::AddressOutOfRange))
            } else {
                (
                    EmuView {
                        v_reg: Seq::new(
                            s.v_reg.len(),
                            |j: int|
                                if 0 <= j <= x {
                                    s.ram[s.i_reg + j]
                                } else {
                                    s.v_reg[j]
                                },
                        ),
                        ..s
                    },
                    Ok(()),
                )
            }
        },
    }
}

/// What the executable engine asks of a caller handing it an operation
/// directly: the program counter can take the skips and rewinds the
/// operation may make. A tick always meets this: it advances the counter by
/// two first, and a fetch succeeds only below the end of memory.
pub open spec fn exec_pre(s: EmuView, op: Opcode) -> bool {
    match op {
        Opcode::SkipIfValEQ(_, _) => s.pc + 2 <= 0xFFFF,
        Opcode::SkipIfValNE(_, _) => s.pc + 2 <= 0xFFFF,
        Opcode::SkipIfRegEQ(_, _) => s.pc + 2 <= 0xFFFF,
        Opcode::SkipIfRegNE(_, _) => s.pc + 2 <= 0xFFFF,
        Opcode::SkipIfKeyPressed(_) => s.pc + 2 <= 0xFFFF,
        Opcode::SkipIfKeyNotPressed(_) => s.pc + 2 <= 0xFFFF,
        Opcode::WaitKey(_) => !any_pressed(s.keys) ==> s.pc >= 2,
        _ => true,
    }
}

/// The instruction word at the program counter: two bytes, big-endian.
pub open spec fn fetch_word(s: EmuView) -> u16 {
    (s.ram[s.pc as int] * 256 + s.ram[s.pc + 1]) as u16
}

/// One whole cycle: fetch the word at the program counter (failing when the
/// counter is at the end of memory), advance the counter by two, decode,
/// execute. On a failure the state so far is kept: a fetch failure changes
/// nothing, a decode or execute failure leaves the counter advanced.
pub open spec fn tick_spec(s: EmuView, rnd: u8) -> (EmuView, Result<(), Chip8Error>) {
    if s.pc + 1 >= RAM_SIZE {
        (s, Err(Chip8Error::AddressOutOfRange))
    } else {
        let s1 = EmuView { pc: (s.pc + 2) as u16, ..s };
        match decode_spec(fetch_word(s)) {
            Ok(op) => step_op(s1, op, rnd),
            Err(e) => (s1, Err(e)),
        }
    }
}

/// Whether the cycle ahead draws from the random source: its outcome is then
/// not a function of the state alone.
pub open spec fn tick_uses_rng(s: EmuView) -> bool {
    &&& s.pc + 1 < RAM_SIZE
    &&& decode_spec(fetch_word(s)) matches Ok(op) && op is Rand
}


/// Drawing one sprite row touches no pixel outside the framebuffer's length.
pub proof fn lemma_draw_row_upto_len(
    screen: Seq<bool>,
    flipped: bool,
    x: u16,
    y: u16,
    row: int,
    pixels: u8,
    k: int,
)
    requires
        screen.len() == SCREEN_WIDTH * SCREEN_HEIGHT,
    ensures
        draw_row_upto(screen, flipped, x, y, row, pixels, k).0.len() == screen.len(),
    decreases k,
{
    if k > 0 {
        lemma_draw_row_upto_len(screen, flipped, x, y, row, pixels, k - 1);
    }
}

/// Drawing a sprite keeps the framebuffer's length.
pub proof fn lemma_draw_upto_len(screen: Seq<bool>, ram: Seq<u8>, i_reg: u16, x: u16, y: u16, k: int)
    requires
        screen.len() == SCREEN_WIDTH * SCREEN_HEIGHT,
    ensures
        draw_upto(screen, ram, i_reg, x, y, k).0.len() == screen.len(),
    decreases k,
{
    if k > 0 {
        let prev = draw_upto(screen, ram, i_reg, x, y, k - 1);
        lemma_draw_upto_len(screen, ram, i_reg, x, y, k - 1);
        lemma_draw_row_upto_len(prev.0, prev.1, x, y, k - 1, ram[i_reg + k - 1], 8);
    }
}

/// Every operation leaves a well-formed machine well formed, whatever byte
/// the random source hands back.
pub proof fn lemma_step_op_wf(s: EmuView, op: Opcode)
    requires
        wf(s),
        op_wf(op),
    ensures
        forall|rnd: u8| wf(#[trigger] step_op(s, op, rnd).0),
{
    assert forall|rnd: u8| wf(#[trigger] step_op(s, op, rnd).0) by {
        let s2 = step_op(s, op, rnd).0;
        match op {
            Opcode::Call(addr) => {
                assert(s2.stack.len() == s.stack.len());
            },
            Opcode::LoadIntoRam(x) => {
                assert(s2.ram.len() == s.ram.len());
            },
            Opcode::LoadFromRam(x) => {
                assert(s2.v_reg.len() == s.v_reg.len());
            },
            Opcode::DrawSprite(x, y, height) => {
                lemma_draw_upto_len(s.screen, s.ram, s.i_reg, x, y, height as int);
            },
            _ => {},
        }
    }
}

impl Emu {
    /// One fetch-decode-execute cycle.
    pub fn tick(&mut self) -> (r: Result<(), Chip8Error>)
        requires
            wf(old(self).view()),
        ensures
            wf(final(self).view()),
            !tick_uses_rng(old(self).view()) ==> (final(self).view(), r) == tick_spec(
                old(self).view(),
                0,
            ),
            exists|b: u8| (final(self).view(), r) == #[trigger] tick_spec(old(self).view(), b),
    {
        let fetched = self.fetch_opcode();
        let w = match fetched {
            Ok(w) => w,
            Err(e) => {
                return Err(e);
            },
        };
        let ghost mid = self.view();
        let decoded = Self::decode_opcode(w);
        let op = match decoded {
            Ok(op) => op,
            Err(e) => {
                return Err(e);
            },
        };
        proof {
            lemma_decode_wf(w);
        }
        let r = self.execute_opcode(op);
        proof {
            if op is Rand {
                let b = choose|b: u8| (self.view(), r) == #[trigger] step_op(mid, op, b);
                assert((self.view(), r) == tick_spec(old(self).view(), b));
            } else {
                assert((self.view(), r) == tick_spec(old(self).view(), 0));
            }
        }
        r
    }

    /// Read the instruction word at the program counter and advance the
    /// counter past it. Fails with `AddressOutOfRange`, changing nothing,
    /// when the word would reach past the end of memory.
    pub(crate) fn fetch_opcode(&mut self) -> (r: Result<u16, Chip8Error>)
        requires
            wf(old(self).view()),
        ensures
            wf(final(self).view()),
            old(self).view().pc + 1 < RAM_SIZE ==> r == Ok::<u16, Chip8Error>(
                fetch_word(old(self).view()),
            ) && final(self).view() == (EmuView {
                pc: (old(self).view().pc + 2) as u16,
                ..old(self).view()
            }),
            old(self).view().pc + 1 >= RAM_SIZE ==> r == Err::<u16, Chip8Error>(
                Chip8Error::AddressOutOfRange,
            ) && final(self).view() == old(self).view(),
    {
        if self.pc as usize + 1 >= RAM_SIZE {
            return Err(Chip8Error::AddressOutOfRange);
        }
        let higher_byte = self.ram[self.pc as usize] as u16;
        let lower_byte = self.ram[self.pc as usize + 1] as u16;
        // Combine the two bytes into one big-endian opcode word
        let opcode = higher_byte * 256 + lower_byte;
        self.skip();
        return Ok(opcode);
    }

    /// Decode a fetched word.
    pub(crate) fn decode_opcode(opcode: u16) -> (r: Result<Opcode, Chip8Error>)
        ensures
            r == decode_spec(opcode),
    {
        return Opcode::new(opcode);
    }

    /// Apply one decoded operation to the machine. The outcome is exactly
    /// what [`step_op`] states, for some byte from the random source; for
    /// every operation but `Rand` the byte plays no part.
    pub fn execute_opcode(&mut self, op: Opcode) -> (r: Result<(), Chip8Error>)
        requires
            wf(old(self).view()),
            op_wf(op),
            exec_pre(old(self).view(), op),
        ensures
            wf(final(self).view()),
            !(op is Rand) ==> (final(self).view(), r) == step_op(old(self).view(), op, 0),
            exists|b: u8| (final(self).view(), r) == #[trigger] step_op(old(self).view(), op, b),
    {
        proof {
            lemma_step_op_wf(old(self).view(), op);
        }
        match op {
            Opcode::Nop => {
                proof {
                    assert((self.view(), Result::<(), Chip8Error>::Ok(())) == step_op(
                        old(self).view(),
                        op,
                        0,
                    ));
                }
                Ok(())
            },
            Opcode::ClearScreen => self.op_clear_screen(),
            Opcode::Return => self.op_return(),
            Opcode::Jump(addr) => self.op_jump(addr),
            Opcode::Call(addr) => self.op_call(addr),
            Opcode::SkipIfValEQ(reg, val) => self.op_skip_if_val_eq(reg, val),
            Opcode::SkipIfValNE(reg, val) => self.op_skip_if_val_ne(reg, val),
            Opcode::SkipIfRegEQ(reg1, reg2) => self.op_skip_if_reg_eq(reg1, reg2),
            Opcode::SetToVal(reg, val) => self.op_set_to_val(reg, val),
            Opcode::AddVal(reg, val) => self.op_add_val(reg, val),
            Opcode::SetToReg(reg, src) => self.op_set_to_reg(reg, src),
            Opcode::BitwiseOr(reg1, reg2) => self.op_bitwise_or(reg1, reg2),
            Opcode::BitwiseAnd(reg1, reg2) => self.op_bitwise_and(reg1, reg2),
            Opcode::BitwiseXor(reg1, reg2) => self.op_bitwise_xor(reg1, reg2),
            Opcode::AddReg(reg1, reg2) => self.op_add_reg(reg1, reg2),
            Opcode::SubReg(reg1, reg2) => self.op_sub_reg(reg1, reg2),
            Opcode::ShiftRight(reg) => self.op_shift_right(reg),
            Opcode::SubFromReg(reg1, reg2) => self.op_sub_from_reg(reg1, reg2),
            Opcode::ShiftLeft(reg) => self.op_shift_left(reg),
            Opcode::SkipIfRegNE(reg1, reg2) => self.op_skip_if_reg_ne(reg1, reg2),
            Opcode::SetIndex(addr) => self.op_set_index(addr),
            Opcode::JumpV0Distance(distance) => self.op_jump_v0_distance(distance),
            Opcode::Rand(reg, mask) => self.op_rand(reg, mask),
            Opcode::DrawSprite(x_coord, y_coord, height) => self.op_draw_sprite(
                x_coord,
                y_coord,
                height,
            ),
            Opcode::SkipIfKeyPressed(reg) => self.op_skip_if_key_pressed(reg),
            Opcode::SkipIfKeyNotPressed(reg) => self.op_skip_if_key_not_pressed(reg),
            Opcode::GetDelayTimer(reg) => self.op_get_delay_timer(reg),
            Opcode::WaitKey(reg) => self.op_wait_key(reg),
            Opcode::SetDelayTimer(reg) => self.op_set_delay_timer(reg),
            Opcode::SetSoundTimer(reg) => self.op_set_sound_timer(reg),
            Opcode::IncrementI(reg) => self.op_increment_i(reg),
            Opcode::LoadFontChar(reg) => self.op_load_font_char(reg),
            Opcode::BCD(reg) => self.op_bcd(reg),
            Opcode::LoadIntoRam(reg) => self.op_load_into_ram(reg),
            Opcode::LoadFromRam(reg) => self.op_load_from_ram(reg),
        }
    }

    /// Turn every pixel off.
    fn op_clear_screen(&mut self) -> (r: Result<(), Chip8Error>)
        ensures
            (final(self).view(), r) == step_op(old(self).view(), Opcode::ClearScreen, 0),
    {
        self.screen = [false; 2048];
        proof {
            assert(self.view().screen =~= Seq::new(
                (SCREEN_WIDTH * SCREEN_HEIGHT) as nat,
                |i: int| false,
            ));
        }
        Ok(())
    }

    /// Pop the return address into the program counter.
    fn op_return(&mut self) -> (r: Result<(), Chip8Error>)
        requires
            wf(old(self).view()),
        ensures
            (final(self).view(), r) == step_op(old(self).view(), Opcode::Return, 0),
    {
        let popped = self.pop();
        match popped {
            Ok(ret) => {
                self.pc = ret;
                Ok(())
            },
            Err(e) => Err(e),
        }
    }

    /// Set the program counter to an absolute address.
    fn op_jump(&mut self, addr: u16) -> (r: Result<(), Chip8Error>)
        ensures
            (final(self).view(), r) == step_op(old(self).view(), Opcode::Jump(addr), 0),
    {
        self.pc = addr;
        Ok(())
    }

    /// Push the current program counter, then jump to the subroutine.
    fn op_call(&mut self, addr: u16) -> (r: Result<(), Chip8Error>)
        requires
            wf(old(self).view()),
        ensures
            (final(self).view(), r) == step_op(old(self).view(), Opcode::Call(addr), 0),
    {
        let here = self.pc;
        let pushed = self.push(here);
        match pushed {
            Ok(()) => {
                self.pc = addr;
                Ok(())
            },
            Err(e) => Err(e),
        }
    }

    /// Skip the next instruction when `Vx` equals the immediate byte.
    fn op_skip_if_val_eq(&mut self, reg: usize, val: u8) -> (r: Result<(), Chip8Error>)
        requires
            reg < 16,
            old(self).view().pc + 2 <= 0xFFFF,
        ensures
            (final(self).view(), r) == step_op(old(self).view(), Opcode::SkipIfValEQ(reg, val), 0),
    {
        if self.v_reg[reg] == val {
            self.skip();
        }
        Ok(())
    }

    /// Skip the next instruction when `Vx` differs from the immediate byte.
    fn op_skip_if_val_ne(&mut self, reg: usize, val: u8) -> (r: Result<(), Chip8Error>)
        requires
            reg < 16,
            old(self).view().pc + 2 <= 0xFFFF,
        ensures
            (final(self).view(), r) == step_op(old(self).view(), Opcode::SkipIfValNE(reg, val), 0),
    {
        if self.v_reg[reg] != val {
            self.skip();
        }
        Ok(())
    }

    /// Skip the next instruction when `Vx` equals `Vy`.
    fn op_skip_if_reg_eq(&mut self, reg1: usize, reg2: usize) -> (r: Result<(), Chip8Error>)
        requires
            reg1 < 16,
            reg2 < 16,
            old(self).view().pc + 2 <= 0xFFFF,
        ensures
            (final(self).view(), r) == step_op(
                old(self).view(),
                Opcode::SkipIfRegEQ(reg1, reg2),
                0,
            ),
    {
        if self.v_reg[reg1] == self.v_reg[reg2] {
            self.skip();
        }
        Ok(())
    }

    /// Skip the next instruction when `Vx` differs from `Vy`.
    fn op_skip_if_reg_ne(&mut self, reg1: usize, reg2: usize) -> (r: Result<(), Chip8Error>)
        requires
            reg1 < 16,
            reg2 < 16,
            old(self).view().pc + 2 <= 0xFFFF,
        ensures
            (final(self).view(), r) == step_op(
                old(self).view(),
                Opcode::SkipIfRegNE(reg1, reg2),
                0,
            ),
    {
        if self.v_reg[reg1] != self.v_reg[reg2] {
            self.skip();
        }
        Ok(())
    }

    /// Load an immediate byte into `Vx`.
    fn op_set_to_val(&mut self, reg: usize, val: u8) -> (r: Result<(), Chip8Error>)
        requires
            reg < 16,
        ensures
            (final(self).view(), r) == step_op(old(self).view(), Opcode::SetToVal(reg, val), 0),
    {
        self.v_reg[reg] = val;
        Ok(())
    }

    /// Add an immediate byte to `Vx` with 8-bit wraparound; no flag effect.
    fn op_add_val(&mut self, reg: usize, val: u8) -> (r: Result<(), Chip8Error>)
        requires
            reg < 16,
        ensures
            (final(self).view(), r) == step_op(old(self).view(), Opcode::AddVal(reg, val), 0),
    {
        let sum = self.v_reg[reg] as u16 + val as u16;
        self.v_reg[reg] = (sum % 256) as u8;
        Ok(())
    }

    /// Copy `Vy` into `Vx`.
    fn op_set_to_reg(&mut self, reg: usize, src: usize) -> (r: Result<(), Chip8Error>)
        requires
            reg < 16,
            src < 16,
        ensures
            (final(self).view(), r) == step_op(old(self).view(), Opcode::SetToReg(reg, src), 0),
    {
        self.v_reg[reg] = self.v_reg[src];
        Ok(())
    }

    /// `Vx |= Vy`.
    fn op_bitwise_or(&mut self, reg1: usize, reg2: usize) -> (r: Result<(), Chip8Error>)
        requires
            reg1 < 16,
            reg2 < 16,
        ensures
            (final(self).view(), r) == step_op(old(self).view(), Opcode::BitwiseOr(reg1, reg2), 0),
    {
        self.v_reg[reg1] = self.v_reg[reg1] | self.v_reg[reg2];
        Ok(())
    }

    /// `Vx &= Vy`.
    fn op_bitwise_and(&mut self, reg1: usize, reg2: usize) -> (r: Result<(), Chip8Error>)
        requires
            reg1 < 16,
            reg2 < 16,
        ensures
            (final(self).view(), r) == step_op(old(self).view(), Opcode::BitwiseAnd(reg1, reg2), 0),
    {
        self.v_reg[reg1] = self.v_reg[reg1] & self.v_reg[reg2];
        Ok(())
    }

    /// `Vx ^= Vy`.
    fn op_bitwise_xor(&mut self, reg1: usize, reg2: usize) -> (r: Result<(), Chip8Error>)
        requires
            reg1 < 16,
            reg2 < 16,
        ensures
            (final(self).view(), r) == step_op(old(self).view(), Opcode::BitwiseXor(reg1, reg2), 0),
    {
        self.v_reg[reg1] = self.v_reg[reg1] ^ self.v_reg[reg2];
        Ok(())
    }

    /// `Vx += Vy` with 8-bit wraparound; `VF` records the carry.
    fn op_add_reg(&mut self, reg1: usize, reg2: usize) -> (r: Result<(), Chip8Error>)
        requires
            reg1 < 16,
            reg2 < 16,
        ensures
            (final(self).view(), r) == step_op(old(self).view(), Opcode::AddReg(reg1, reg2), 0),
    {
        let sum = self.v_reg[reg1] as u16 + self.v_reg[reg2] as u16;
        let carry = sum > 255;
        self.v_reg[reg1] = (sum % 256) as u8;
        self.v_reg[15] = if carry {
            1
        } else {
            0
        };
        Ok(())
    }


    /// One wrapped 8-bit difference: adding one modulus first changes
    /// nothing, and keeps the executable subtraction in unsigned range.
    proof fn lemma_wrapped_diff(vx: u8, vy: u8)
        ensures
            ((256 + vx as u16 - vy as u16) % 256) as u8 == wrap8(vx - vy),
    {
        vstd::arithmetic::div_mod::lemma_mod_multiples_vanish(1, vx - vy, 256);
    }

    /// `Vx -= Vy` with 8-bit wraparound; `VF` is 1 exactly when no borrow
    /// was needed.
    fn op_sub_reg(&mut self, reg1: usize, reg2: usize) -> (r: Result<(), Chip8Error>)
        requires
            reg1 < 16,
            reg2 < 16,
        ensures
            (final(self).view(), r) == step_op(old(self).view(), Opcode::SubReg(reg1, reg2), 0),
    {
        let vx = self.v_reg[reg1];
        let vy = self.v_reg[reg2];
        proof {
            Self::lemma_wrapped_diff(vx, vy);
        }
        let borrow = vx < vy;
        self.v_reg[reg1] = ((256 + vx as u16 - vy as u16) % 256) as u8;
        self.v_reg[15] = if borrow {
            0
        } else {
            1
        };
        Ok(())
    }

    /// Halve `Vx`; `VF` keeps the dropped bit.
    fn op_shift_right(&mut self, reg: usize) -> (r: Result<(), Chip8Error>)
        requires
            reg < 16,
        ensures
            (final(self).view(), r) == step_op(old(self).view(), Opcode::ShiftRight(reg), 0),
    {
        let vx = self.v_reg[reg];
        let lsb = vx % 2;  // Dropped bit
        self.v_reg[reg] = vx / 2;
        self.v_reg[15] = lsb;
        Ok(())
    }

    /// `Vx = Vy - Vx` with 8-bit wraparound; `VF` is 1 exactly when no
    /// borrow was needed.
    fn op_sub_from_reg(&mut self, reg1: usize, reg2: usize) -> (r: Result<(), Chip8Error>)
        requires
            reg1 < 16,
            reg2 < 16,
        ensures
            (final(self).view(), r) == step_op(old(self).view(), Opcode::SubFromReg(reg1, reg2), 0),
    {
        let vx = self.v_reg[reg1];
        let vy = self.v_reg[reg2];
        proof {
            Self::lemma_wrapped_diff(vy, vx);
        }
        let borrow = vy < vx;
        self.v_reg[reg1] = ((256 + vy as u16 - vx as u16) % 256) as u8;
        self.v_reg[15] = if borrow {
            0
        } else {
            1
        };
        Ok(())
    }

    /// Double `Vx` with 8-bit wraparound; `VF` keeps the overflowed bit.
    fn op_shift_left(&mut self, reg: usize) -> (r: Result<(), Chip8Error>)
        requires
            reg < 16,
        ensures
            (final(self).view(), r) == step_op(old(self).view(), Opcode::ShiftLeft(reg), 0),
    {
        let vx = self.v_reg[reg];
        let msb = vx / 128;  // Overflowed bit
        self.v_reg[reg] = ((2 * vx as u16) % 256) as u8;
        self.v_reg[15] = msb;
        Ok(())
    }

    /// Load an absolute address into the index register.
    fn op_set_index(&mut self, addr: u16) -> (r: Result<(), Chip8Error>)
        ensures
            (final(self).view(), r) == step_op(old(self).view(), Opcode::SetIndex(addr), 0),
    {
        self.i_reg = addr;
        Ok(())
    }

    /// Jump to `V0` plus a twelve-bit distance.
    fn op_jump_v0_distance(&mut self, distance: u16) -> (r: Result<(), Chip8Error>)
        requires
            distance < 0x1000,
        ensures
            (final(self).view(), r) == step_op(
                old(self).view(),
                Opcode::JumpV0Distance(distance),
                0,
            ),
    {
        self.pc = (self.v_reg[0] as u16) + distance;
        Ok(())
    }

    /// Draw a random byte from the random source, mask it, store it in `Vx`.
    fn op_rand(&mut self, reg: usize, mask: u8) -> (r: Result<(), Chip8Error>)
        requires
            reg < 16,
        ensures
            exists|b: u8| (final(self).view(), r) == #[trigger] step_op(
                old(self).view(),
                Opcode::Rand(reg, mask),
                b,
            ),
    {
        let rnd = random_byte();
        self.v_reg[reg] = rnd & mask;
        proof {
            assert((self.view(), Result::<(), Chip8Error>::Ok(())) == step_op(
                old(self).view(),
                Opcode::Rand(reg, mask),
                rnd,
            ));
        }
        Ok(())
    }

    /// Skip the next instruction when the key indexed by `Vx` is pressed.
    /// A `Vx` outside the keypad is a fatal range violation.
    fn op_skip_if_key_pressed(&mut self, reg: usize) -> (r: Result<(), Chip8Error>)
        requires
            reg < 16,
            old(self).view().pc + 2 <= 0xFFFF,
        ensures
            (final(self).view(), r) == step_op(old(self).view(), Opcode::SkipIfKeyPressed(reg), 0),
    {
        let key = self.v_reg[reg];
        if key as usize >= NUM_KEYS {
            return Err(Chip8Error::AddressOutOfRange);
        }
        if self.keys[key as usize] {
            self.skip();
        }
        Ok(())
    }

    /// Skip the next instruction when the key indexed by `Vx` is not
    /// pressed. A `Vx` outside the keypad is a fatal range violation.
    fn op_skip_if_key_not_pressed(&mut self, reg: usize) -> (r: Result<(), Chip8Error>)
        requires
            reg < 16,
            old(self).view().pc + 2 <= 0xFFFF,
        ensures
            (final(self).view(), r) == step_op(
                old(self).view(),
                Opcode::SkipIfKeyNotPressed(reg),
                0,
            ),
    {
        let key = self.v_reg[reg];
        if key as usize >= NUM_KEYS {
            return Err(Chip8Error::AddressOutOfRange);
        }
        if !self.keys[key as usize] {
            self.skip();
        }
        Ok(())
    }

    /// Copy the delay timer into `Vx`.
    fn op_get_delay_timer(&mut self, reg: usize) -> (r: Result<(), Chip8Error>)
        requires
            reg < 16,
        ensures
            (final(self).view(), r) == step_op(old(self).view(), Opcode::GetDelayTimer(reg), 0),
    {
        self.v_reg[reg] = self.dt;
        Ok(())
    }

    /// Copy `Vx` into the delay timer.
    fn op_set_delay_timer(&mut self, reg: usize) -> (r: Result<(), Chip8Error>)
        requires
            reg < 16,
        ensures
            (final(self).view(), r) == step_op(old(self).view(), Opcode::SetDelayTimer(reg), 0),
    {
        self.dt = self.v_reg[reg];
        Ok(())
    }

    /// Copy `Vx` into the sound timer.
    fn op_set_sound_timer(&mut self, reg: usize) -> (r: Result<(), Chip8Error>)
        requires
            reg < 16,
        ensures
            (final(self).view(), r) == step_op(old(self).view(), Opcode::SetSoundTimer(reg), 0),
    {
        self.st = self.v_reg[reg];
        Ok(())
    }

    /// Add `Vx` to the index register with 16-bit wraparound.
    fn op_increment_i(&mut self, reg: usize) -> (r: Result<(), Chip8Error>)
        requires
            reg < 16,
        ensures
            (final(self).view(), r) == step_op(old(self).view(), Opcode::IncrementI(reg), 0),
    {
        let sum = self.i_reg as u32 + self.v_reg[reg] as u32;
        self.i_reg = (sum % 0x10000) as u16;
        Ok(())
    }

    /// Point the index register at the font glyph for the digit in `Vx`.
    fn op_load_font_char(&mut self, reg: usize) -> (r: Result<(), Chip8Error>)
        requires
            reg < 16,
        ensures
            (final(self).view(), r) == step_op(old(self).view(), Opcode::LoadFontChar(reg), 0),
    {
        let character = self.v_reg[reg] as u16;
        // Move the `I` register to the start address of the font
        // and then increment it by the character offset
        // multiplied by the amount of rows in a character (5)
        self.i_reg = FONT_START_ADDR + character * 5;
        Ok(())
    }

    /// Store the three decimal digits of `Vx` at the index register.
    fn op_bcd(&mut self, reg: usize) -> (r: Result<(), Chip8Error>)
        requires
            reg < 16,
        ensures
            (final(self).view(), r) == step_op(old(self).view(), Opcode::BCD(reg), 0),
    {
        let base_addr = self.i_reg as usize;
        if base_addr + 2 >= RAM_SIZE {
            return Err(Chip8Error::AddressOutOfRange);
        }
        let num = self.v_reg[reg];
        let hundreds = num / 100;
        let tens = (num / 10) % 10;
        let ones = num % 10;
        self.ram[base_addr] = hundreds;
        self.ram[base_addr + 1] = tens;
        self.ram[base_addr + 2] = ones;
        Ok(())
    }

    /// Draw a sprite of `height` rows read from memory at the index
    /// register, XOR-toggling pixels, then record in `VF` whether any pixel
    /// was toggled off.
    #[verifier::loop_isolation(false)]
    fn op_draw_sprite(&mut self, x_coord: u16, y_coord: u16, height: u8) -> (r: Result<
        (),
        Chip8Error,
    >)
        ensures
            (final(self).view(), r) == step_op(
                old(self).view(),
                Opcode::DrawSprite(x_coord, y_coord, height),
                0,
            ),
    {
        if height == 0 {
            return Ok(());
        }
        let base = self.i_reg as usize;
        if base + height as usize > RAM_SIZE {
            return Err(Chip8Error::AddressOutOfRange);
        }
        let mut flipped = false;
        let mut row: usize = 0;
        while row < height as usize
            invariant
                row <= height,
                (self.view().screen, flipped) == draw_upto(
                    old(self).view().screen,
                    old(self).view().ram,
                    old(self).view().i_reg,
                    x_coord,
                    y_coord,
                    row as int,
                ),
                self.view() == (EmuView { screen: self.view().screen, ..old(self).view() }),
            decreases height as int - row,
        {
            let pixels = self.ram[base + row];  // Sprite data for the row
            let ghost row_start = draw_upto(
                old(self).view().screen,
                old(self).view().ram,
                old(self).view().i_reg,
                x_coord,
                y_coord,
                row as int,
            );
            let mut col: usize = 0;
            while col < 8
                invariant
                    col <= 8,
                    row < height,
                    pixels == old(self).view().ram[old(self).view().i_reg + row],
                    row_start == draw_upto(
                        old(self).view().screen,
                        old(self).view().ram,
                        old(self).view().i_reg,
                        x_coord,
                        y_coord,
                        row as int,
                    ),
                    (self.view().screen, flipped) == draw_row_upto(
                        row_start.0,
                        row_start.1,
                        x_coord,
                        y_coord,
                        row as int,
                        pixels,
                        col as int,
                    ),
                    self.view() == (EmuView { screen: self.view().screen, ..old(self).view() }),
                decreases 8 - col,
            {
                let mask = 0x80u8 >> (col as u8);  // mask for the current bit
                let sprite_pixel = pixels & mask;
                if sprite_pixel != 0 {  // If the pixel is on
                    // Position of pixel on the screen; overflows wrap using the modulo
                    let x = (x_coord as usize + col) % SCREEN_WIDTH;
                    let y = (y_coord as usize + row) % SCREEN_HEIGHT;
                    // Memory index for the screen pixel
                    let index = SCREEN_WIDTH * y + x;
                    proof {
                        assert(index == pixel_index(x_coord, y_coord, row as int, col as int));
                    }
                    let screen_pixel = self.screen[index];
                    if screen_pixel {
                        self.screen[index] = false;
                        flipped = true;
                    } else {
                        self.screen[index] = true;
                    }
                }
                col = col + 1;
            }
            row = row + 1;
        }
        self.v_reg[15] = if flipped {
            1
        } else {
            0
        };
        Ok(())
    }

    /// Scan the keypad for the lowest pressed key: store it, or rewind the
    /// program counter so that the instruction runs again next tick.
    #[verifier::loop_isolation(false)]
    fn op_wait_key(&mut self, reg: usize) -> (r: Result<(), Chip8Error>)
        requires
            wf(old(self).view()),
            reg < 16,
            exec_pre(old(self).view(), Opcode::WaitKey(reg)),
        ensures
            (final(self).view(), r) == step_op(old(self).view(), Opcode::WaitKey(reg), 0),
    {
        let mut found: usize = NUM_KEYS;
        let mut i: usize = 0;
        while i < NUM_KEYS
            invariant
                i <= NUM_KEYS,
                found <= NUM_KEYS,
                found == NUM_KEYS ==> forall|k: int| 0 <= k < i ==> !self.view().keys[k],
                found < NUM_KEYS ==> found < i && self.view().keys[found as int] && (forall|k: int|
                    0 <= k < found ==> !self.view().keys[k]),
            decreases NUM_KEYS - i,
        {
            if found == NUM_KEYS && self.keys[i] {
                found = i;
            }
            i = i + 1;
        }
        proof {
            lemma_first_pressed(self.view().keys, 0);
        }
        if found < NUM_KEYS {
            self.v_reg[reg] = found as u8;
            Ok(())
        } else {
            // Redo the instruction
            self.pc = self.pc - 2;
            Ok(())
        }
    }

    /// Copy registers `V0` through `Vx` into memory at the index register.
    #[verifier::loop_isolation(false)]
    fn op_load_into_ram(&mut self, reg: usize) -> (r: Result<(), Chip8Error>)
        requires
            wf(old(self).view()),
            reg < 16,
        ensures
            (final(self).view(), r) == step_op(old(self).view(), Opcode::LoadIntoRam(reg), 0),
    {
        let base = self.i_reg as usize;
        if base + reg >= RAM_SIZE {
            return Err(Chip8Error::AddressOutOfRange);
        }
        let mut idx: usize = 0;
        while idx < reg + 1
            invariant
                idx <= reg + 1,
                forall|j: int| base <= j < base + idx ==> self.view().ram[j] == old(
                    self,
                ).view().v_reg[j - base],
                forall|j: int|
                    (0 <= j < base || base + idx <= j < RAM_SIZE) ==> self.view().ram[j] == old(
                        self,
                    ).view().ram[j],
                self.view() == (EmuView { ram: self.view().ram, ..old(self).view() }),
            decreases reg + 1 - idx,
        {
            self.ram[base + idx] = self.v_reg[idx];
            idx = idx + 1;
        }
        proof {
            assert(self.view().ram =~= Seq::new(
                old(self).view().ram.len(),
                |j: int|
                    if old(self).view().i_reg <= j <= old(self).view().i_reg + reg {
                        old(self).view().v_reg[j - old(self).view().i_reg]
                    } else {
                        old(self).view().ram[j]
                    },
            ));
        }
        Ok(())
    }

    /// Fill registers `V0` through `Vx` from memory at the index register.
    #[verifier::loop_isolation(false)]
    fn op_load_from_ram(&mut self, reg: usize) -> (r: Result<(), Chip8Error>)
        requires
            wf(old(self).view()),
            reg < 16,
        ensures
            (final(self).view(), r) == step_op(old(self).view(), Opcode::LoadFromRam(reg), 0),
    {
        let base = self.i_reg as usize;
        if base + reg >= RAM_SIZE {
            return Err(Chip8Error::AddressOutOfRange);
        }
        let mut idx: usize = 0;
        while idx < reg + 1
            invariant
                idx <= reg + 1,
                forall|j: int| 0 <= j < idx ==> self.view().v_reg[j] == old(self).view().ram[base
                    + j],
                forall|j: int| idx <= j < 16 ==> self.view().v_reg[j] == old(self).view().v_reg[j],
                self.view() == (EmuView { v_reg: self.view().v_reg, ..old(self).view() }),
            decreases reg + 1 - idx,
        {
            self.v_reg[idx] = self.ram[base + idx];
            idx = idx + 1;
        }
        proof {
            assert(self.view().v_reg =~= Seq::new(
                old(self).view().v_reg.len(),
                |j: int|
                    if 0 <= j <= reg {
                        old(self).view().ram[old(self).view().i_reg + j]
                    } else {
                        old(self).view().v_reg[j]
                    },
            ));
        }
        Ok(())
    }

    /// Advance the program counter over one instruction.
    pub(crate) fn skip(&mut self)
        requires
            old(self).view().pc + 2 <= 0xFFFF,
        ensures
            final(self).view() == (EmuView {
                pc: (old(self).view().pc + 2) as u16,
                ..old(self).view()
            }),
    {
        self.pc = self.pc + 2;
    }
}

} // verus!
