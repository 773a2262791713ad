//! The opcode taxonomy and its binary decoding rules: a 16-bit instruction
//! word is split into four nibbles and mapped to one tagged operation.

use super::error::Chip8Error;
use vstd::prelude::*;

verus! {

/// One decoded operation. Register operands are indices into `V0`..`VF`.
#[derive(Clone, Copy, Debug, PartialEq, Eq, Structural)]
pub enum Opcode {
    /// Do nothing
    /// Opcode: `0000`
    Nop,
    /// Clear the screen
    ///
    /// Opcode: `00E0`
    ClearScreen,
    /// Return from subroutine
    ///
    /// Opcode: `00EE`
    Return,
    /// Jump to address `0xNNN`
    ///
    /// Arguments: `(NNN)`
    /// Opcode: `1NNN`
    Jump(u16),
    /// Call subroutine at `0xNNN`
    /// Adds current PC to the stack as a return pointer for later
    ///
    /// Arguments: `(NNN)`
    /// Opcode: `2NNN`
    Call(u16),
    /// Skip an instruction if `VX == 0xNN`
    ///
    /// Arguments: `(VX, NN)`
    /// Opcode: `3XNN`
    SkipIfValEQ(usize, u8),
    /// Skip an instruction if `VX != 0xNN`
    ///
    /// Arguments: `(VX, NN)`
    /// Opcode: `4XNN`
    SkipIfValNE(usize, u8),
    /// Skip an instruction if `VX == VY`
    ///
    /// Arguments: `(VX, VY)`
    /// Opcode: `5XY0`
    SkipIfRegEQ(usize, usize),
    /// Set `VX = NN`
    ///
    /// Arguments: `(VX, NN)`
    /// Opcode: `6XNN`
    SetToVal(usize, u8),
    /// Add `NN` to `VX`
    /// Does not affect the carry flag.
    ///
    /// Arguments: `(VX, NN)`
    /// Opcode: `7XNN`
    AddVal(usize, u8),
    /// Set `VX = VY`
    ///
    /// Arguments: `(VX, VY)`
    /// Opcode: `8XY0`
    SetToReg(usize, usize),
    /// Bitwise OR (`VX |= VY`)
    ///
    /// Arguments: `(VX, VY)`
    /// Opcode: `8XY1`
    BitwiseOr(usize, usize),
    /// Bitwise AND (`VX &= VY`)
    ///
    /// Arguments: `(VX, VY)`
    /// Opcode: `8XY2`
    BitwiseAnd(usize, usize),
    /// Bitwise XOR (`VX ^= VY`)
    ///
    /// Arguments: `(VX, VY)`
    /// Opcode: `8XY3`
    BitwiseXor(usize, usize),
    /// Add `VY` to `VX` (`VX += VY`)
    /// Sets `VF` if carry
    ///
    /// Arguments: `(VX, VY)`
    /// Opcode: `8XY4`
    AddReg(usize, usize),
    /// Subtract `VY` from `VX` (`VX -= VY`)
    /// Clears `VF` if borrow
    ///
    /// Arguments: `(VX, VY)`
    /// Opcode: `8XY5`
    SubReg(usize, usize),
    /// Perform a single right shift on `VX`
    /// Dropped bit is stored in `VF`
    ///
    /// Arguments: `(VX)`
    /// Opcode: `8XY6`
    ShiftRight(usize),
    /// Subtract `VX` from `VY` and store it in `VX` (`VX = VY - VX`)
    ///
    /// Arguments: `(VX, VY)`
    /// Opcode: `8XY7`
    SubFromReg(usize, usize),
    /// Perform a single left shift on `VX`
    /// Overflowed bit is stored in `VF`
    ///
    /// Arguments: `(VX)`
    /// Opcode: `8XYE`
    ShiftLeft(usize),
    /// Skip an instruction if `VX != VY`
    ///
    /// Arguments: `(VX, VY)`
    /// Opcode: `9XY0`
    SkipIfRegNE(usize, usize),
    /// Set the `I` register to `NNN`
    ///
    /// Arguments: `(NNN)`
    /// Opcode: `ANNN`
    SetIndex(u16),
    /// Move the `I` register to `V0` + `NNN`
    ///
    /// Arguments: `NNN`
    /// Opcode: `BNNN`
    JumpV0Distance(u16),
    /// Set `VX` to a random number
    /// The number is then AND'ed with `NN`
    ///
    /// Arguments: `(VX, NN)`
    /// Opcode: `CXNN`
    Rand(usize, u8),
    /// Draw a sprite to the screen
    /// Sprite data begins at the `I` register's value
    /// The sprite will be drawn at coordinates (`X`, `Y`)
    /// The sprite should have `N` rows
    ///
    /// Arguments: `(X, Y, N)`
    /// Opcode: `DXYN`
    DrawSprite(u16, u16, u8),
    /// Skip an instruction if the key index in `VX` is pressed
    ///
    /// Arguments: `(VX)`
    /// Opcode: `EX9E`
    SkipIfKeyPressed(usize),
    /// Skip an instruction if the key index in `VX` is not pressed
    ///
    /// Arguments: `(VX)`
    /// Opcode: `EXA1`
    SkipIfKeyNotPressed(usize),
    /// Set `VX` to the delay timer's current value
    ///
    /// Arguments: `(VX)`
    /// Opcode: `FX07`
    GetDelayTimer(usize),
    /// Wait until a key is pressed
    /// Once a key is pressed, it is stored in `VX`
    /// If multiple keys are pressed, the lowest-indexed key is stored
    ///
    /// Arguments: `(VX)`
    /// Opcode: `FX0A`
    WaitKey(usize),
    /// Set the delay timer's current value to `VX`
    ///
    /// Arguments: `(VX)`
    /// Opcode: `FX15`
    SetDelayTimer(usize),
    /// Set the sound timer's current value to `VX`
    ///
    /// Arguments: `(VX)`
    /// Opcode: `FX18`
    SetSoundTimer(usize),
    /// Increment the `I` register by `VX`
    /// Wraps if the value overflows
    ///
    /// Arguments: `(VX)`
    /// Opcode: `FX1E`
    IncrementI(usize),
    /// Sets the `I` register to the address of a font character
    /// for a number (`0x1` to `0xF`)
    /// The desired character is loaded from `VX`
    ///
    /// Arguments: `(VX)`
    /// Opcode: `FX29`
    LoadFontChar(usize),
    /// Load BCD (binary-encoded decimal) of `VX` into RAM
    /// The start address of this storage is the current value of the `I` register
    /// Will always store 3 bytes for the 3 digits
    ///
    /// Arguments: `(VX)`
    /// Opcode: `FX33`
    BCD(usize),
    /// Store `V0` -> `VX` into RAM
    /// Begins at the address stored in the `I` register
    ///
    /// Arguments: `(VX)`
    /// Opcode: `FX55`
    LoadIntoRam(usize),
    /// Store RAM into `V0` -> `VX`
    /// Begins from the address stored in the `I` register
    ///
    /// Arguments: `(VX)`
    /// Opcode: `FX65`
    LoadFromRam(usize),
}

/// Most significant nibble of an instruction word.
pub open spec fn nib0(w: u16) -> int {
    w as int / 0x1000
}

/// Second nibble; binds the register operand `X`.
pub open spec fn nib1(w: u16) -> int {
    (w as int / 0x100) % 16
}

/// Third nibble; binds the register operand `Y`.
pub open spec fn nib2(w: u16) -> int {
    (w as int / 16) % 16
}

/// Least significant nibble.
pub open spec fn nib3(w: u16) -> int {
    w as int % 16
}

/// The immediate byte `NN`: the low byte of the word.
pub open spec fn imm_byte(w: u16) -> u8 {
    (w as int % 256) as u8
}

/// The immediate address `NNN`: the low twelve bits of the word.
pub open spec fn addr12(w: u16) -> u16 {
    (w as int % 0x1000) as u16
}

/// The decoding table: which operation a word denotes, row by row, first
/// match winning; words outside the table decode to `DecodeError` carrying
/// the raw word.
pub open spec fn decode_spec(w: u16) -> Result<Opcode, Chip8Error> {
    let n0 = nib0(w);
    let n1 = nib1(w);
    let n2 = nib2(w);
    let n3 = nib3(w);
    if n0 == 0 && n1 == 0 && n2 == 0 && n3 == 0 {
        Ok(Opcode::Nop)
    } else if n0 == 0 && n1 == 0 && n2 == 0xE && n3 == 0 {
        Ok(Opcode::ClearScreen)
    } else if n0 == 0 && n1 == 0 && n2 == 0xE && n3 == 0xE {
        Ok(Opcode::Return)
    } else if n0 == 1 {
        Ok(Opcode::Jump(addr12(w)))
    } else if n0 == 2 {
        Ok(Opcode::Call(addr12(w)))
    } else if n0 == 3 {
        Ok(Opcode::SkipIfValEQ(n1 as usize, imm_byte(w)))
    } else if n0 == 4 {
        Ok(Opcode::SkipIfValNE(n1 as usize, imm_byte(w)))
    } else if n0 == 5 && n3 == 0 {
        Ok(Opcode::SkipIfRegEQ(n1 as usize, n2 as usize))
    } else if n0 == 6 {
        Ok(Opcode::SetToVal(n1 as usize, imm_byte(w)))
    } else if n0 == 7 {
        Ok(Opcode::AddVal(n1 as usize, imm_byte(w)))
    } else if n0 == 8 && n3 == 0 {
        Ok(Opcode::SetToReg(n1 as usize, n2 as usize))
    } else if n0 == 8 && n3 == 1 {
        Ok(Opcode::BitwiseOr(n1 as usize, n2 as usize))
    } else if n0 == 8 && n3 == 2 {
        Ok(Opcode::BitwiseAnd(n1 as usize, n2 as usize))
    } else if n0 == 8 && n3 == 3 {
        Ok(Opcode::BitwiseXor(n1 as usize, n2 as usize))
    } else if n0 == 8 && n3 == 4 {
        Ok(Opcode::AddReg(n1 as usize, n2 as usize))
    } else if n0 == 8 && n3 == 5 {
        Ok(Opcode::SubReg(n1 as usize, n2 as usize))
    } else if n0 == 8 && n3 == 6 {
        Ok(Opcode::ShiftRight(n1 as usize))
    } else if n0 == 8 && n3 == 7 {
        Ok(Opcode::SubFromReg(n1 as usize, n2 as usize))
    } else if n0 == 8 && n3 == 0xE {
        Ok(Opcode::ShiftLeft(n1 as usize))
    } else if n0 == 9 && n3 == 0 {
        Ok(Opcode::SkipIfRegNE(n1 as usize, n2 as usize))
    } else if n0 == 0xA {
        Ok(Opcode::SetIndex(addr12(w)))
    } else if n0 == 0xB {
        Ok(Opcode::JumpV0Distance(addr12(w)))
    } else if n0 == 0xC {
        Ok(Opcode::Rand(n1 as usize, imm_byte(w)))
    } else if n0 == 0xD {
        Ok(Opcode::DrawSprite(n1 as u16, n2 as u16, n3 as u8))
    } else if n0 == 0xE && n2 == 9 && n3 == 0xE {
        Ok(Opcode::SkipIfKeyPressed(n1 as usize))
    } else if n0 == 0xE && n2 == 0xA && n3 == 1 {
        Ok(Opcode::SkipIfKeyNotPressed(n1 as usize))
    } else if n0 == 0xF && n2 == 0 && n3 == 7 {
        Ok(Opcode::GetDelayTimer(n1 as usize))
    } else if n0 == 0xF && n2 == 0 && n3 == 0xA {
        Ok(Opcode::WaitKey(n1 as usize))
    } else if n0 == 0xF && n2 == 1 && n3 == 5 {
        Ok(Opcode::SetDelayTimer(n1 as usize))
    } else if n0 == 0xF && n2 == 1 && n3 == 8 {
        Ok(Opcode::SetSoundTimer(n1 as usize))
    } else if n0 == 0xF && n2 == 1 && n3 == 0xE {
        Ok(Opcode::IncrementI(n1 as usize))
    } else if n0 == 0xF && n2 == 2 && n3 == 9 {
        Ok(Opcode::LoadFontChar(n1 as usize))
    } else if n0 == 0xF && n2 == 3 && n3 == 3 {
        Ok(Opcode::BCD(n1 as usize))
    } else if n0 == 0xF && n2 == 5 && n3 == 5 {
        Ok(Opcode::LoadIntoRam(n1 as usize))
    } else if n0 == 0xF && n2 == 6 && n3 == 5 {
        Ok(Opcode::LoadFromRam(n1 as usize))
    } else {
        Err(Chip8Error::DecodeError(w))
    }
}

/// Every register operand a decoded operation carries is a valid index into
/// the 16 general registers, and a jump distance fits in twelve bits.
pub open spec fn op_wf(op: Opcode) -> bool {
    match op {
        Opcode::JumpV0Distance(a) => a < 0x1000,
        Opcode::SkipIfValEQ(x, _) => x < 16,
        Opcode::SkipIfValNE(x, _) => x < 16,
        Opcode::SkipIfRegEQ(x, y) => x < 16 && y < 16,
        Opcode::SetToVal(x, _) => x < 16,
        Opcode::AddVal(x, _) => x < 16,
        Opcode::SetToReg(x, y) => x < 16 && y < 16,
        Opcode::BitwiseOr(x, y) => x < 16 && y < 16,
        Opcode::BitwiseAnd(x, y) => x < 16 && y < 16,
        Opcode::BitwiseXor(x, y) => x < 16 && y < 16,
        Opcode::AddReg(x, y) => x < 16 && y < 16,
        Opcode::SubReg(x, y) => x < 16 && y < 16,
        Opcode::ShiftRight(x) => x < 16,
        Opcode::SubFromReg(x, y) => x < 16 && y < 16,
        Opcode::ShiftLeft(x) => x < 16,
        Opcode::SkipIfRegNE(x, y) => x < 16 && y < 16,
        Opcode::Rand(x, _) => x < 16,
        Opcode::SkipIfKeyPressed(x) => x < 16,
        Opcode::SkipIfKeyNotPressed(x) => x < 16,
        Opcode::GetDelayTimer(x) => x < 16,
        Opcode::WaitKey(x) => x < 16,
        Opcode::SetDelayTimer(x) => x < 16,
        Opcode::SetSoundTimer(x) => x < 16,
        Opcode::IncrementI(x) => x < 16,
        Opcode::LoadFontChar(x) => x < 16,
        Opcode::BCD(x) => x < 16,
        Opcode::LoadIntoRam(x) => x < 16,
        Opcode::LoadFromRam(x) => x < 16,
        _ => true,
    }
}

/// Whatever a word decodes to is a well-formed operation: its operands come
/// out of single nibbles.
pub proof fn lemma_decode_wf(w: u16)
    ensures
        decode_spec(w) matches Ok(op) ==> op_wf(op),
{
}

/// The four nibbles as the executable decoder extracts them, by mask and
/// shift, agree with the arithmetic fields the table is stated over.
proof fn lemma_split_fields(w: u16)
    by (bit_vector)
    ensures
        (w & 0xF000) >> 12 == w / 0x1000,
        (w & 0x0F00) >> 8 == (w / 0x100) % 16,
        (w & 0x00F0) >> 4 == (w / 16) % 16,
        w & 0x000F == w % 16,
        w & 0x00FF == w % 256,
        w & 0x0FFF == w % 0x1000,
{
}

impl Opcode {
    /// Decode one instruction word, or report it as invalid.
    pub fn new(opcode: u16) -> (r: Result<Self, Chip8Error>)
        ensures
            r == decode_spec(opcode),
    {
        proof {
            lemma_split_fields(opcode);
        }
        let parts = Opcode::split(opcode);
        let (n0, n1, n2, n3) = parts;
        let x = n1 as usize;
        let y = n2 as usize;
        let nn = (opcode & 0x00FF) as u8;
        let nnn = opcode & 0x0FFF;

        if n0 == 0 && n1 == 0 && n2 == 0 && n3 == 0 {
            Ok(Opcode::Nop)
        } else if n0 == 0 && n1 == 0 && n2 == 0xE && n3 == 0 {
            Ok(Opcode::ClearScreen)
        } else if n0 == 0 && n1 == 0 && n2 == 0xE && n3 == 0xE {
            Ok(Opcode::Return)
        } else if n0 == 1 {
            Ok(Opcode::Jump(nnn))
        } else if n0 == 2 {
            Ok(Opcode::Call(nnn))
        } else if n0 == 3 {
            Ok(Opcode::SkipIfValEQ(x, nn))
        } else if n0 == 4 {
            Ok(Opcode::SkipIfValNE(x, nn))
        } else if n0 == 5 && n3 == 0 {
            Ok(Opcode::SkipIfRegEQ(x, y))
        } else if n0 == 6 {
            Ok(Opcode::SetToVal(x, nn))
        } else if n0 == 7 {
            Ok(Opcode::AddVal(x, nn))
        } else if n0 == 8 && n3 == 0 {
            Ok(Opcode::SetToReg(x, y))
        } else if n0 == 8 && n3 == 1 {
            Ok(Opcode::BitwiseOr(x, y))
        } else if n0 == 8 && n3 == 2 {
            Ok(Opcode::BitwiseAnd(x, y))
        } else if n0 == 8 && n3 == 3 {
            Ok(Opcode::BitwiseXor(x, y))
        } else if n0 == 8 && n3 == 4 {
            Ok(Opcode::AddReg(x, y))
        } else if n0 == 8 && n3 == 5 {
            Ok(Opcode::SubReg(x, y))
        } else if n0 == 8 && n3 == 6 {
            Ok(Opcode::ShiftRight(x))
        } else if n0 == 8 && n3 == 7 {
            Ok(Opcode::SubFromReg(x, y))
        } else if n0 == 8 && n3 == 0xE {
            Ok(Opcode::ShiftLeft(x))
        } else if n0 == 9 && n3 == 0 {
            Ok(Opcode::SkipIfRegNE(x, y))
        } else if n0 == 0xA {
            Ok(Opcode::SetIndex(nnn))
        } else if n0 == 0xB {
            Ok(Opcode::JumpV0Distance(nnn))
        } else if n0 == 0xC {
            Ok(Opcode::Rand(x, nn))
        } else if n0 == 0xD {
            Ok(Opcode::DrawSprite(n1, n2, n3 as u8))
        } else if n0 == 0xE && n2 == 9 && n3 == 0xE {
            Ok(Opcode::SkipIfKeyPressed(x))
        } else if n0 == 0xE && n2 == 0xA && n3 == 1 {
            Ok(Opcode::SkipIfKeyNotPressed(x))
        } else if n0 == 0xF && n2 == 0 && n3 == 7 {
            Ok(Opcode::GetDelayTimer(x))
        } else if n0 == 0xF && n2 == 0 && n3 == 0xA {
            Ok(Opcode::WaitKey(x))
        } else if n0 == 0xF && n2 == 1 && n3 == 5 {
            Ok(Opcode::SetDelayTimer(x))
        } else if n0 == 0xF && n2 == 1 && n3 == 8 {
            Ok(Opcode::SetSoundTimer(x))
        } else if n0 == 0xF && n2 == 1 && n3 == 0xE {
            Ok(Opcode::IncrementI(x))
        } else if n0 == 0xF && n2 == 2 && n3 == 9 {
            Ok(Opcode::LoadFontChar(x))
        } else if n0 == 0xF && n2 == 3 && n3 == 3 {
            Ok(Opcode::BCD(x))
        } else if n0 == 0xF && n2 == 5 && n3 == 5 {
            Ok(Opcode::LoadIntoRam(x))
        } else if n0 == 0xF && n2 == 6 && n3 == 5 {
            Ok(Opcode::LoadFromRam(x))
        } else {
            Err(Chip8Error::DecodeError(opcode))
        }
    }

    /// Split a word into its four nibbles, most significant first.
    fn split(opcode: u16) -> (r: (u16, u16, u16, u16))
        ensures
            r.0 == nib0(opcode),
            r.1 == nib1(opcode),
            r.2 == nib2(opcode),
            r.3 == nib3(opcode),
    {
        proof {
            lemma_split_fields(opcode);
        }
        return (
            (opcode & 0xF000) >> 12,
            (opcode & 0x0F00) >> 8,
            (opcode & 0x00F0) >> 4,
            (opcode & 0x000F),
        );
    }
}

} // verus!
