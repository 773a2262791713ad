//! The resource loader: copies the built-in font glyph table and an
//! externally supplied ROM image into memory at their fixed offsets.

use super::error::Chip8Error;
use super::{Emu, EmuView};
use crate::constants::{RAM_SIZE, START_ADDR};
use vstd::prelude::*;

verus! {

/// 16 glyphs of 5 bytes each.
pub const FONTSET_SIZE: usize = 80;

/// The built-in glyph table: one 8x5 bitmap per hexadecimal digit, 5 bytes
/// per glyph, digit 0 first.
pub open spec fn font_seq() -> Seq<u8> {
    seq![
        0xF0u8, 0x90, 0x90, 0x90, 0xF0, // 0
        0x20, 0x60, 0x20, 0x20, 0x70, // 1
        0xF0, 0x10, 0xF0, 0x80, 0xF0, // 2
        0xF0, 0x10, 0xF0, 0x10, 0xF0, // 3
        0x90, 0x90, 0xF0, 0x10, 0x10, // 4
        0xF0, 0x80, 0xF0, 0x10, 0xF0, // 5
        0xF0, 0x80, 0xF0, 0x90, 0xF0, // 6
        0xF0, 0x10, 0x20, 0x40, 0x40, // 7
        0xF0, 0x90, 0xF0, 0x90, 0xF0, // 8
        0xF0, 0x90, 0xF0, 0x10, 0xF0, // 9
        0xF0, 0x90, 0xF0, 0x90, 0x90, // A
        0xE0, 0x90, 0xE0, 0x90, 0xE0, // B
        0xF0, 0x80, 0x80, 0x80, 0xF0, // C
        0xE0, 0x90, 0x90, 0x90, 0xE0, // D
        0xF0, 0x80, 0xF0, 0x80, 0xF0, // E
        0xF0, 0x80, 0xF0, 0x80, 0x80, // F
    ]
}

/// The glyph table as bytes in memory order.
fn fontset() -> (r: [u8; 80])
    ensures
        r@ == font_seq(),
{
    let r: [u8; 80] = [
        0xF0, 0x90, 0x90, 0x90, 0xF0, // 0
        0x20, 0x60, 0x20, 0x20, 0x70, // 1
        0xF0, 0x10, 0xF0, 0x80, 0xF0, // 2
        0xF0, 0x10, 0xF0, 0x10, 0xF0, // 3
        0x90, 0x90, 0xF0, 0x10, 0x10, // 4
        0xF0, 0x80, 0xF0, 0x10, 0xF0, // 5
        0xF0, 0x80, 0xF0, 0x90, 0xF0, // 6
        0xF0, 0x10, 0x20, 0x40, 0x40, // 7
        0xF0, 0x90, 0xF0, 0x90, 0xF0, // 8
        0xF0, 0x90, 0xF0, 0x10, 0xF0, // 9
        0xF0, 0x90, 0xF0, 0x90, 0x90, // A
        0xE0, 0x90, 0xE0, 0x90, 0xE0, // B
        0xF0, 0x80, 0x80, 0x80, 0xF0, // C
        0xE0, 0x90, 0x90, 0x90, 0xE0, // D
        0xF0, 0x80, 0xF0, 0x80, 0xF0, // E
        0xF0, 0x80, 0xF0, 0x80, 0x80, // F
    ];
    assert(r@ =~= font_seq());
    r
}

impl Emu {
    /// Copy the glyph table into the bottom of memory; the rest is kept.
    #[verifier::loop_isolation(false)]
    pub(crate) fn load_font(&mut self)
        ensures
            final(self).view() == (EmuView {
                ram: Seq::new(
                    old(self).view().ram.len(),
                    |j: int|
                        if 0 <= j < FONTSET_SIZE {
                            font_seq()[j]
                        } else {
                            old(self).view().ram[j]
                        },
                ),
                ..old(self).view()
            }),
    {
        let font = fontset();
        let mut i: usize = 0;
        while i < FONTSET_SIZE
            invariant
                i <= FONTSET_SIZE,
                self.view() == (EmuView { ram: self.view().ram, ..old(self).view() }),
                forall|j: int| 0 <= j < i ==> self.view().ram[j] == font_seq()[j],
                forall|j: int|
                    i <= j < RAM_SIZE ==> self.view().ram[j] == old(self).view().ram[j],
            decreases FONTSET_SIZE - i,
        {
            self.ram[i] = font[i];
            i = i + 1;
        }
        proof {
            assert(self.view().ram =~= Seq::new(
                old(self).view().ram.len(),
                |j: int|
                    if 0 <= j < FONTSET_SIZE {
                        font_seq()[j]
                    } else {
                        old(self).view().ram[j]
                    },
            ));
        }
    }

    /// Copy a ROM image into memory from the load address up. Fails with
    /// `RomTooLarge`, changing nothing, exactly when the image would reach
    /// past the end of memory.
    #[verifier::loop_isolation(false)]
    pub fn load_rom(&mut self, data: &[u8]) -> (r: Result<(), Chip8Error>)
        ensures
            START_ADDR + data@.len() <= RAM_SIZE ==> r == Ok::<(), Chip8Error>(())
                && final(self).view() == (EmuView {
                ram: Seq::new(
                    old(self).view().ram.len(),
                    |j: int|
                        if START_ADDR <= j < START_ADDR + data@.len() {
                            data@[j - START_ADDR]
                        } else {
                            old(self).view().ram[j]
                        },
                ),
                ..old(self).view()
            }),
            START_ADDR + data@.len() > RAM_SIZE ==> r == Err::<(), Chip8Error>(
                Chip8Error::RomTooLarge,
            ) && final(self).view() == old(self).view(),
    {
        let start = START_ADDR as usize;
        if data.len() > RAM_SIZE - start {
            return Err(Chip8Error::RomTooLarge);
        }
        let mut i: usize = 0;
        while i < data.len()
            invariant
                i <= data@.len(),
                data@.len() <= RAM_SIZE - START_ADDR,
                self.view() == (EmuView { ram: self.view().ram, ..old(self).view() }),
                forall|j: int|
                    START_ADDR <= j < START_ADDR + i ==> self.view().ram[j] == data@[j
                        - START_ADDR],
                forall|j: int|
                    (0 <= j < START_ADDR || START_ADDR + i <= j < RAM_SIZE)
                        ==> self.view().ram[j] == old(self).view().ram[j],
            decreases data@.len() - i,
        {
            self.ram[start + i] = data[i];
            i = i + 1;
        }
        proof {
            assert(self.view().ram =~= Seq::new(
                old(self).view().ram.len(),
                |j: int|
                    if START_ADDR <= j < START_ADDR + data@.len() {
                        data@[j - START_ADDR]
                    } else {
                        old(self).view().ram[j]
                    },
            ));
        }
        Ok(())
    }
}

} // verus!
