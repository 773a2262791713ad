//! General properties of the machine, stated once for all inputs and proved
//! against the instruction semantics.

use super::cpu::{
    any_pressed, draw_row_upto, draw_upto, fetch_word, first_pressed, flag_byte,
    lemma_draw_row_upto_len, lemma_draw_upto_len, pixel_index, sprite_bit, step_op, tick_spec,
    wrap8,
};
use crate::constants::{SCREEN_HEIGHT, SCREEN_WIDTH, STACK_SIZE};
use super::error::Chip8Error;
use super::opcode::{decode_spec, lemma_decode_wf, Opcode};
use super::{wf, EmuView};
use vstd::prelude::*;

verus! {

/// Adding an immediate byte wraps modulo 256 in every general register and
/// never fails: the target register takes the wrapped sum, nothing else
/// changes, and no flag is touched.
pub proof fn lemma_add_val_wraps(s: EmuView, x: usize, v: u8, rnd: u8)
    requires
        wf(s),
        x < 16,
    ensures
        ({
            let (s2, r) = step_op(s, Opcode::AddVal(x, v), rnd);
            &&& r is Ok
            &&& s2.v_reg[x as int] == (s.v_reg[x as int] + v) % 256
            &&& s2 == (EmuView {
                v_reg: s.v_reg.update(x as int, wrap8(s.v_reg[x as int] + v)),
                ..s
            })
        }),
{
}

/// Adding register to register wraps modulo 256 in every general register
/// and never fails; `VF` then records the carry.
pub proof fn lemma_add_reg_wraps(s: EmuView, x: usize, y: usize, rnd: u8)
    requires
        wf(s),
        x < 16,
        y < 16,
    ensures
        ({
            let (s2, r) = step_op(s, Opcode::AddReg(x, y), rnd);
            let sum = s.v_reg[x as int] + s.v_reg[y as int];
            &&& r is Ok
            &&& s2.v_reg == s.v_reg.update(x as int, wrap8(sum)).update(15, flag_byte(sum > 255))
            &&& x != 15 ==> s2.v_reg[x as int] == sum % 256
            &&& s2.v_reg[15] == flag_byte(sum > 255)
            &&& s2 == (EmuView { v_reg: s2.v_reg, ..s })
        }),
{
}

/// Doubling a register wraps modulo 256 in every general register and never
/// fails; `VF` then keeps the dropped high bit.
pub proof fn lemma_shift_left_wraps(s: EmuView, x: usize, rnd: u8)
    requires
        wf(s),
        x < 16,
    ensures
        ({
            let (s2, r) = step_op(s, Opcode::ShiftLeft(x), rnd);
            let vx = s.v_reg[x as int];
            &&& r is Ok
            &&& s2.v_reg == s.v_reg.update(x as int, wrap8(2 * vx)).update(15, vx / 128)
            &&& x != 15 ==> s2.v_reg[x as int] == (2 * vx) % 256
            &&& s2 == (EmuView { v_reg: s2.v_reg, ..s })
        }),
{
}

/// A call followed by a return comes back: the counter is restored to what
/// it was when the call executed (the engine has already advanced it past
/// the call instruction), the stack pointer is balanced, and registers,
/// memory and screen are untouched.
pub proof fn lemma_call_then_return(s: EmuView, addr: u16, rnd1: u8, rnd2: u8)
    requires
        wf(s),
        s.sp < STACK_SIZE,
    ensures
        ({
            let (s1, r1) = step_op(s, Opcode::Call(addr), rnd1);
            let (s2, r2) = step_op(s1, Opcode::Return, rnd2);
            &&& r1 is Ok
            &&& s1.pc == addr
            &&& r2 is Ok
            &&& s2.pc == s.pc
            &&& s2.sp == s.sp
            &&& s2.v_reg == s.v_reg
            &&& s2.ram == s.ram
            &&& s2.screen == s.screen
            &&& s2.keys == s.keys
        }),
{
}

/// A call succeeds exactly while the stack has room; on a full stack it
/// fails with `StackOverflow` and changes nothing.
pub proof fn lemma_call_overflow(s: EmuView, addr: u16, rnd: u8)
    requires
        wf(s),
    ensures
        ({
            let (s2, r) = step_op(s, Opcode::Call(addr), rnd);
            &&& (r is Ok <==> s.sp < STACK_SIZE)
            &&& s.sp >= STACK_SIZE ==> r == Err::<(), Chip8Error>(Chip8Error::StackOverflow)
                && s2 == s
        }),
{
}

/// A return succeeds exactly when the stack is not empty; on an empty stack
/// it fails with `StackUnderflow` and changes nothing.
pub proof fn lemma_return_underflow(s: EmuView, rnd: u8)
    requires
        wf(s),
    ensures
        ({
            let (s2, r) = step_op(s, Opcode::Return, rnd);
            &&& (r is Ok <==> s.sp > 0)
            &&& s.sp == 0 ==> r == Err::<(), Chip8Error>(Chip8Error::StackUnderflow) && s2 == s
        }),
{
}

/// Clearing the screen never fails and leaves every pixel off, touching
/// nothing else.
pub proof fn lemma_clear_screen(s: EmuView, rnd: u8)
    requires
        wf(s),
    ensures
        ({
            let (s2, r) = step_op(s, Opcode::ClearScreen, rnd);
            &&& r is Ok
            &&& s2.screen.len() == s.screen.len()
            &&& forall|i: int| 0 <= i < s2.screen.len() ==> !s2.screen[i]
            &&& s2 == (EmuView { screen: s2.screen, ..s })
        }),
{
}

/// A machine waiting for a key with none pressed stalls: the whole cycle,
/// fetch and rewind included, leaves the state exactly as it was, so the
/// instruction runs again next tick.
pub proof fn lemma_wait_key_stalls(s: EmuView, x: usize, rnd: u8)
    requires
        wf(s),
        s.pc + 1 < 4096,
        decode_spec(fetch_word(s)) == Ok::<Opcode, Chip8Error>(Opcode::WaitKey(x)),
        forall|k: int| 0 <= k < 16 ==> !s.keys[k],
    ensures
        tick_spec(s, rnd) == (s, Ok::<(), Chip8Error>(())),
{
    assert(!any_pressed(s.keys));
    let s1 = EmuView { pc: (s.pc + 2) as u16, ..s };
    assert(step_op(s1, Opcode::WaitKey(x), rnd).0 == s);
}

/// Once some key is pressed, the waiting instruction completes: the lowest
/// pressed key index lands in `Vx` and the counter moves on.
pub proof fn lemma_wait_key_reads_key(s: EmuView, x: usize, rnd: u8)
    requires
        wf(s),
        s.pc + 1 < 4096,
        decode_spec(fetch_word(s)) == Ok::<Opcode, Chip8Error>(Opcode::WaitKey(x)),
        any_pressed(s.keys),
    ensures
        ({
            let (s2, r) = tick_spec(s, rnd);
            &&& r is Ok
            &&& s2.pc == s.pc + 2
            &&& s2.v_reg == s.v_reg.update(x as int, first_pressed(s.keys, 0) as u8)
            &&& s2.v_reg[x as int] == first_pressed(s.keys, 0)
            &&& 0 <= first_pressed(s.keys, 0) < 16
            &&& s.keys[first_pressed(s.keys, 0)]
        }),
{
    lemma_decode_wf(fetch_word(s));
    super::cpu::lemma_any_pressed(s.keys);
    super::cpu::lemma_first_pressed(s.keys, 0);
}

/// Whether a pixel is toggled by one sprite row does not depend on what the
/// screen held: two screens run through the same row change at the same
/// places.
proof fn lemma_draw_row_upto_toggle(
    s: Seq<bool>,
    t: Seq<bool>,
    fs: bool,
    ft: bool,
    x: u16,
    y: u16,
    row: int,
    pixels: u8,
    k: int,
)
    requires
        s.len() == SCREEN_WIDTH * SCREEN_HEIGHT,
        t.len() == SCREEN_WIDTH * SCREEN_HEIGHT,
    ensures
        forall|i: int|
            0 <= i < s.len() ==> ((draw_row_upto(s, fs, x, y, row, pixels, k).0[i] == s[i]) <==> (
            draw_row_upto(t, ft, x, y, row, pixels, k).0[i] == t[i])),
    decreases k,
{
    if k > 0 {
        lemma_draw_row_upto_toggle(s, t, fs, ft, x, y, row, pixels, k - 1);
        lemma_draw_row_upto_len(s, fs, x, y, row, pixels, k - 1);
        lemma_draw_row_upto_len(t, ft, x, y, row, pixels, k - 1);
    }
}

/// Whether a pixel is toggled by a whole sprite does not depend on what the
/// screen held.
proof fn lemma_draw_upto_toggle(
    s: Seq<bool>,
    t: Seq<bool>,
    ram: Seq<u8>,
    i_reg: u16,
    x: u16,
    y: u16,
    k: int,
)
    requires
        s.len() == SCREEN_WIDTH * SCREEN_HEIGHT,
        t.len() == SCREEN_WIDTH * SCREEN_HEIGHT,
    ensures
        forall|i: int|
            0 <= i < s.len() ==> ((draw_upto(s, ram, i_reg, x, y, k).0[i] == s[i]) <==> (draw_upto(
                t,
                ram,
                i_reg,
                x,
                y,
                k,
            ).0[i] == t[i])),
    decreases k,
{
    if k > 0 {
        let prev_s = draw_upto(s, ram, i_reg, x, y, k - 1);
        let prev_t = draw_upto(t, ram, i_reg, x, y, k - 1);
        lemma_draw_upto_toggle(s, t, ram, i_reg, x, y, k - 1);
        lemma_draw_upto_len(s, ram, i_reg, x, y, k - 1);
        lemma_draw_upto_len(t, ram, i_reg, x, y, k - 1);
        lemma_draw_row_upto_toggle(
            prev_s.0,
            prev_t.0,
            prev_s.1,
            prev_t.1,
            x,
            y,
            k - 1,
            ram[i_reg + k - 1],
            8,
        );
    }
}

/// Drawing is an involution on the screen: the same sprite drawn twice at
/// the same position toggles every touched pixel back, whatever the screen
/// held before.
pub proof fn lemma_draw_twice_restores(
    screen: Seq<bool>,
    ram: Seq<u8>,
    i_reg: u16,
    x: u16,
    y: u16,
    k: int,
)
    requires
        screen.len() == SCREEN_WIDTH * SCREEN_HEIGHT,
    ensures
        draw_upto(draw_upto(screen, ram, i_reg, x, y, k).0, ram, i_reg, x, y, k).0 == screen,
{
    let first = draw_upto(screen, ram, i_reg, x, y, k);
    let second = draw_upto(first.0, ram, i_reg, x, y, k);
    lemma_draw_upto_len(screen, ram, i_reg, x, y, k);
    lemma_draw_upto_len(first.0, ram, i_reg, x, y, k);
    lemma_draw_upto_toggle(screen, first.0, ram, i_reg, x, y, k);
    assert(second.0 =~= screen);
}

/// At the machine level: a sprite drawn twice in a row leaves the screen as
/// it was, and everything but the screen and the collision flag untouched.
pub proof fn lemma_draw_sprite_twice_restores(
    s: EmuView,
    x: u16,
    y: u16,
    n: u8,
    rnd1: u8,
    rnd2: u8,
)
    requires
        wf(s),
        n == 0 || s.i_reg + n <= 4096,
    ensures
        ({
            let (s1, r1) = step_op(s, Opcode::DrawSprite(x, y, n), rnd1);
            let (s2, r2) = step_op(s1, Opcode::DrawSprite(x, y, n), rnd2);
            &&& r1 is Ok
            &&& r2 is Ok
            &&& s2.screen == s.screen
            &&& s2.ram == s.ram
            &&& s2.pc == s.pc
            &&& s2.i_reg == s.i_reg
            &&& forall|j: int| 0 <= j < 15 ==> s2.v_reg[j] == s.v_reg[j]
        }),
{
    if n > 0 {
        lemma_draw_twice_restores(s.screen, s.ram, s.i_reg, x, y, n as int);
    }
}

/// Shifting a number by less than the modulus moves it to another residue.
proof fn lemma_mod_shift_distinct(a: int, d: int, m: int)
    requires
        0 <= a,
        0 < d < m,
    ensures
        a % m != (a + d) % m,
{
    vstd::arithmetic::div_mod::lemma_add_mod_noop(a, d, m);
    vstd::arithmetic::div_mod::lemma_small_mod(d as nat, m as nat);
    let am = a % m;
    if am + d < m {
        vstd::arithmetic::div_mod::lemma_small_mod((am + d) as nat, m as nat);
    } else {
        vstd::arithmetic::div_mod::lemma_mod_multiples_vanish(-1, am + d, m);
        vstd::arithmetic::div_mod::lemma_small_mod((am + d - m) as nat, m as nat);
    }
}

/// Within one sprite of at most 32 rows, two different sprite bits land on
/// two different pixels: the wrapped rows stay distinct, and so do the
/// wrapped columns of one row.
proof fn lemma_pixel_index_injective(x: u16, y: u16, r1: int, c1: int, r2: int, c2: int)
    requires
        0 <= r1 < 32,
        0 <= r2 < 32,
        0 <= c1 < 8,
        0 <= c2 < 8,
        r1 != r2 || c1 != c2,
    ensures
        pixel_index(x, y, r1, c1) != pixel_index(x, y, r2, c2),
{
    let py1 = (y + r1) % 32;
    let py2 = (y + r2) % 32;
    let px1 = (x + c1) % 64;
    let px2 = (x + c2) % 64;
    assert(0 <= py1 < 32 && 0 <= py2 < 32 && 0 <= px1 < 64 && 0 <= px2 < 64);
    if r1 != r2 {
        if r1 < r2 {
            lemma_mod_shift_distinct(y + r1, r2 - r1, 32);
        } else {
            lemma_mod_shift_distinct(y + r2, r1 - r2, 32);
        }
        assert(py1 != py2);
    } else {
        if c1 < c2 {
            lemma_mod_shift_distinct(x + c1, c2 - c1, 64);
        } else {
            lemma_mod_shift_distinct(x + c2, c1 - c2, 64);
        }
        assert(px1 != px2);
    }
}

/// One sprite row in full: the collision flag rises exactly when a set bit's
/// pixel was already on, every set bit's pixel is toggled, and no other pixel
/// moves. Within one row each bit has its own pixel, so the row reads every
/// pixel at its value before the row.
proof fn lemma_draw_row_full(
    screen: Seq<bool>,
    fl: bool,
    x: u16,
    y: u16,
    row: int,
    pixels: u8,
    k: int,
)
    requires
        screen.len() == SCREEN_WIDTH * SCREEN_HEIGHT,
        0 <= k <= 8,
    ensures
        ({
            let d = draw_row_upto(screen, fl, x, y, row, pixels, k);
            &&& d.1 == (fl || exists|c: int|
                0 <= c < k && #[trigger] sprite_bit(pixels, c) && screen[pixel_index(
                    x,
                    y,
                    row,
                    c,
                )])
            &&& forall|c: int|
                0 <= c < k && #[trigger] sprite_bit(pixels, c) ==> d.0[pixel_index(x, y, row, c)]
                    == !screen[pixel_index(x, y, row, c)]
            &&& forall|i: int|
                0 <= i < screen.len() && #[trigger] d.0[i] != screen[i] ==> exists|c: int|
                    0 <= c < k && #[trigger] sprite_bit(pixels, c) && pixel_index(x, y, row, c)
                        == i
        }),
    decreases k,
{
    if k > 0 {
        lemma_draw_row_full(screen, fl, x, y, row, pixels, k - 1);
        lemma_draw_row_upto_len(screen, fl, x, y, row, pixels, k - 1);
        let prev = draw_row_upto(screen, fl, x, y, row, pixels, k - 1);
        let d = draw_row_upto(screen, fl, x, y, row, pixels, k);
        let col = k - 1;
        if sprite_bit(pixels, col) {
            let idx = pixel_index(x, y, row, col);
            assert(0 <= idx < screen.len());
            // no earlier bit of this row shares the pixel: the columns stay
            // distinct under the wrap
            assert forall|c: int| 0 <= c < col && #[trigger] sprite_bit(pixels, c) implies
                pixel_index(x, y, row, c) != idx by {
                lemma_mod_shift_distinct(x + c, col - c, 64);
            }
            assert(prev.0[idx] == screen[idx]);
            assert(d.1 == (fl || exists|c: int|
                0 <= c < k && #[trigger] sprite_bit(pixels, c) && screen[pixel_index(
                    x,
                    y,
                    row,
                    c,
                )]));
        }
    }
}

/// A whole sprite of at most 32 rows in full: the collision flag rises
/// exactly when some set bit's pixel was already on, every set bit's pixel
/// is toggled, and no other pixel moves. With so few rows no two bits share
/// a pixel, so every bit reads its pixel at its value before the draw.
proof fn lemma_draw_full(
    screen: Seq<bool>,
    ram: Seq<u8>,
    i_reg: u16,
    x: u16,
    y: u16,
    k: int,
)
    requires
        screen.len() == SCREEN_WIDTH * SCREEN_HEIGHT,
        0 <= k <= 32,
    ensures
        ({
            let d = draw_upto(screen, ram, i_reg, x, y, k);
            &&& d.1 == exists|r: int, c: int|
                0 <= r < k && 0 <= c < 8 && #[trigger] sprite_bit(ram[i_reg + r], c)
                    && screen[pixel_index(x, y, r, c)]
            &&& forall|r: int, c: int|
                0 <= r < k && 0 <= c < 8 && #[trigger] sprite_bit(ram[i_reg + r], c)
                    ==> d.0[pixel_index(x, y, r, c)] == !screen[pixel_index(x, y, r, c)]
            &&& forall|i: int|
                0 <= i < screen.len() && #[trigger] d.0[i] != screen[i] ==> exists|r: int, c: int|
                    0 <= r < k && 0 <= c < 8 && #[trigger] sprite_bit(ram[i_reg + r], c)
                        && pixel_index(x, y, r, c) == i
        }),
    decreases k,
{
    if k > 0 {
        lemma_draw_full(screen, ram, i_reg, x, y, k - 1);
        lemma_draw_upto_len(screen, ram, i_reg, x, y, k - 1);
        let prev = draw_upto(screen, ram, i_reg, x, y, k - 1);
        let d = draw_upto(screen, ram, i_reg, x, y, k);
        let row = k - 1;
        let pixels = ram[i_reg + row];
        lemma_draw_row_full(prev.0, prev.1, x, y, row, pixels, 8);

        // the last row's pixels were untouched by the earlier rows
        assert forall|c: int| 0 <= c < 8 && #[trigger] sprite_bit(pixels, c) implies
            prev.0[pixel_index(x, y, row, c)] == screen[pixel_index(x, y, row, c)] by {
            let i = pixel_index(x, y, row, c);
            assert(0 <= i < screen.len());
            if prev.0[i] != screen[i] {
                let (r2, c2) = choose|r2: int, c2: int|
                    0 <= r2 < k - 1 && 0 <= c2 < 8 && #[trigger] sprite_bit(ram[i_reg + r2], c2)
                        && pixel_index(x, y, r2, c2) == i;
                lemma_pixel_index_injective(x, y, row, c, r2, c2);
            }
        }

        // the earlier rows' pixels are untouched by the last row
        assert forall|r: int, c: int|
            0 <= r < k - 1 && 0 <= c < 8 && #[trigger] sprite_bit(ram[i_reg + r], c) implies
            d.0[pixel_index(x, y, r, c)] == prev.0[pixel_index(x, y, r, c)] by {
            let i = pixel_index(x, y, r, c);
            assert(0 <= i < screen.len());
            if d.0[i] != prev.0[i] {
                let c2 = choose|c2: int|
                    0 <= c2 < 8 && #[trigger] sprite_bit(pixels, c2) && pixel_index(x, y, row, c2)
                        == i;
                lemma_pixel_index_injective(x, y, r, c, row, c2);
            }
        }

        // the flag after the last row speaks of the original screen
        assert(d.1 == (prev.1 || exists|c: int|
            0 <= c < 8 && #[trigger] sprite_bit(pixels, c) && screen[pixel_index(x, y, row, c)]));
        assert(d.1 == exists|r: int, c: int|
            0 <= r < k && 0 <= c < 8 && #[trigger] sprite_bit(ram[i_reg + r], c)
                && screen[pixel_index(x, y, r, c)]) by {
            if d.1 {
                if prev.1 {
                    let (r2, c2) = choose|r2: int, c2: int|
                        0 <= r2 < k - 1 && 0 <= c2 < 8 && #[trigger] sprite_bit(
                            ram[i_reg + r2],
                            c2,
                        ) && screen[pixel_index(x, y, r2, c2)];
                    assert(0 <= r2 < k && 0 <= c2 < 8 && sprite_bit(ram[i_reg + r2], c2)
                        && screen[pixel_index(x, y, r2, c2)]);
                } else {
                    let c2 = choose|c2: int|
                        0 <= c2 < 8 && #[trigger] sprite_bit(pixels, c2) && screen[pixel_index(
                            x,
                            y,
                            row,
                            c2,
                        )];
                    assert(0 <= row < k && 0 <= c2 < 8 && sprite_bit(ram[i_reg + row], c2)
                        && screen[pixel_index(x, y, row, c2)]);
                }
            } else {
                if exists|r: int, c: int|
                    0 <= r < k && 0 <= c < 8 && #[trigger] sprite_bit(ram[i_reg + r], c)
                        && screen[pixel_index(x, y, r, c)] {
                    let (r2, c2) = choose|r2: int, c2: int|
                        0 <= r2 < k && 0 <= c2 < 8 && #[trigger] sprite_bit(ram[i_reg + r2], c2)
                            && screen[pixel_index(x, y, r2, c2)];
                    if r2 < k - 1 {
                        assert(prev.1);
                    } else {
                        assert(sprite_bit(pixels, c2) && screen[pixel_index(x, y, row, c2)]);
                    }
                }
            }
        }
    }
}

/// Drawing a sprite of at most 32 rows on a region that is clear reports no
/// collision and turns its pixels on; the identical draw straight after
/// reports a collision, provided any sprite bit is set at all, and returns
/// every pixel to false.
pub proof fn lemma_draw_twice_collides(
    screen: Seq<bool>,
    ram: Seq<u8>,
    i_reg: u16,
    x: u16,
    y: u16,
    k: int,
)
    requires
        screen.len() == SCREEN_WIDTH * SCREEN_HEIGHT,
        0 <= k <= 32,
        forall|r: int, c: int|
            0 <= r < k && 0 <= c < 8 && #[trigger] sprite_bit(ram[i_reg + r], c)
                ==> !screen[pixel_index(x, y, r, c)],
        exists|r: int, c: int|
            0 <= r < k && 0 <= c < 8 && #[trigger] sprite_bit(ram[i_reg + r], c),
    ensures
        ({
            let first = draw_upto(screen, ram, i_reg, x, y, k);
            let second = draw_upto(first.0, ram, i_reg, x, y, k);
            &&& !first.1
            &&& second.1
            &&& second.0 == screen
        }),
{
    let first = draw_upto(screen, ram, i_reg, x, y, k);
    lemma_draw_full(screen, ram, i_reg, x, y, k);
    lemma_draw_upto_len(screen, ram, i_reg, x, y, k);
    lemma_draw_full(first.0, ram, i_reg, x, y, k);
    let (r0, c0) = choose|r: int, c: int|
        0 <= r < k && 0 <= c < 8 && #[trigger] sprite_bit(ram[i_reg + r], c);
    assert(first.0[pixel_index(x, y, r0, c0)]);
    lemma_draw_twice_restores(screen, ram, i_reg, x, y, k);
}

/// At the machine level, the second half of the double-draw story: a sprite
/// of at most 32 rows with some bit set, drawn twice on a clear region,
/// leaves `VF` at 0 after the first draw and at 1 after the second, with the
/// screen restored and everything else untouched.
pub proof fn lemma_draw_sprite_twice_collides(
    s: EmuView,
    x: u16,
    y: u16,
    n: u8,
    rnd1: u8,
    rnd2: u8,
)
    requires
        wf(s),
        0 < n <= 32,
        s.i_reg + n <= 4096,
        forall|r: int, c: int|
            0 <= r < n && 0 <= c < 8 && #[trigger] sprite_bit(s.ram[s.i_reg + r], c)
                ==> !s.screen[pixel_index(x, y, r, c)],
        exists|r: int, c: int|
            0 <= r < n && 0 <= c < 8 && #[trigger] sprite_bit(s.ram[s.i_reg + r], c),
    ensures
        ({
            let (s1, r1) = step_op(s, Opcode::DrawSprite(x, y, n), rnd1);
            let (s2, r2) = step_op(s1, Opcode::DrawSprite(x, y, n), rnd2);
            &&& r1 is Ok
            &&& s1.v_reg[15] == 0
            &&& r2 is Ok
            &&& s2.v_reg[15] == 1
            &&& s2.screen == s.screen
            &&& s2.ram == s.ram
            &&& s2.pc == s.pc
            &&& s2.i_reg == s.i_reg
            &&& forall|j: int| 0 <= j < 15 ==> s2.v_reg[j] == s.v_reg[j]
        }),
{
    lemma_draw_twice_collides(s.screen, s.ram, s.i_reg, x, y, n as int);
}

} // verus!
