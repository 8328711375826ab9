//! The typed instruction set and the decoding of 16-bit instruction words.

use vstd::prelude::*;

verus! {

/// One of the machine's recognized instructions, with its operand fields
/// extracted from the instruction word.
#[derive(Debug, Clone, Copy, PartialEq, Eq, Structural)]
pub enum OpCode {
    /// Clear the display.
    CLS,
    /// Return from a subroutine.
    RET,
    /// Jump to a machine code routine at nnn.
    SYSADDR(u16),
    /// Jump to location nnn.
    JP(u16),
    /// Call subroutine at nnn.
    CALL(u16),
    /// Skip next instruction if Vx = kk.
    SEVxByte(u8, u8),
    /// Skip next instruction if Vx != kk.
    SNEVxByte(u8, u8),
    /// Skip next instruction if Vx = Vy.
    SEVxVy(u8, u8),
    /// Set Vx = kk.
    LDVxByte(u8, u8),
    /// Set Vx = Vx + kk, without carry.
    ADDVxByte(u8, u8),
    /// Set Vx = Vy.
    LDVxVy(u8, u8),
    /// Set Vx = Vx OR Vy, clearing the flag register first.
    ORVxVy(u8, u8),
    /// Set Vx = Vx AND Vy, clearing the flag register first.
    ANDVxVy(u8, u8),
    /// Set Vx = Vx XOR Vy, clearing the flag register first.
    XORVxVy(u8, u8),
    /// Set Vx = Vx + Vy, set the flag register to the carry.
    ADDVxVy(u8, u8),
    /// Set Vx = Vx - Vy, set the flag register to NOT borrow.
    SUBVxVy(u8, u8),
    /// Shift right by one; the source is Vy unless the shift quirk is on.
    SHRVyVx(u8, u8),
    /// Set Vx = Vy - Vx, set the flag register to NOT borrow.
    SUBNVyVx(u8, u8),
    /// Shift left by one; the source is Vy unless the shift quirk is on.
    SHLVyVx(u8, u8),
    /// Skip next instruction if Vx != Vy.
    SNEVxVy(u8, u8),
    /// Set the index register to nnn.
    LDI(u16),
    /// Jump to location nnn + V0.
    JP0(u16),
    /// Set Vx to a random byte masked by kk.
    RND(u8, u8),
    /// Draw an n-byte sprite from the index register at (Vx, Vy); the flag
    /// register reports a collision.
    DRW(u8, u8, u8),
    /// Skip next instruction if the key with the value of Vx is pressed.
    SKPVx(u8),
    /// Skip next instruction if the key with the value of Vx is not pressed.
    SKNPVx(u8),
    /// Set the delay timer to Vx.
    LDDTVx(u8),
    /// Set Vx to the delay timer value.
    LDVxDT(u8),
    /// Set the sound timer to Vx.
    LDSTVx(u8),
    /// Set the index register to I + Vx.
    ADDIVx(u8),
    /// Set the index register to the font sprite for digit Vx.
    LDFVx(u8),
    /// Store the decimal digits of Vx at I, I+1 and I+2.
    LDBVx(u8),
    /// Store registers V0 through Vx in memory starting at I.
    LDIVx(u8),
    /// Read registers V0 through Vx from memory starting at I.
    LDVxI(u8),
    /// Wait for a key press and store the key's index in Vx.
    LDVxK(u8),
    /// Scroll down n lines (extended mode, decodable but not implemented).
    SCD(u8),
    /// Scroll right (extended mode, decodable but not implemented).
    SCR,
    /// Scroll left (extended mode, decodable but not implemented).
    SCL,
    /// Exit the interpreter (extended mode, decodable but not implemented).
    EXIT,
    /// Disable extended screen mode (decodable but not implemented).
    LOW,
    /// Enable extended screen mode (decodable but not implemented).
    HIGH,
    /// Draw an extended 16x16 sprite (decodable but not implemented).
    DRWVxVy0(u8, u8),
    /// Point I at an extended font sprite (not reachable from the decoder).
    LDHFVx(u8),
    /// Persist registers to storage (not reachable from the decoder).
    LDRVx(u8),
    /// Restore registers from storage (not reachable from the decoder).
    LDVxR(u8),
}

/// A fatal decoding failure: the instruction word matches no recognized
/// pattern.
#[derive(Debug, Clone, Copy, PartialEq, Eq, Structural)]
pub enum ChipError {
    InvalidOpcode(u16),
}

impl ChipError {
    /// A human-readable description of the failure.
    pub fn describe(&self) -> (r: String)
        ensures
            r@ == "invalid opcode"@,
    {
        match self {
            ChipError::InvalidOpcode(_) => String::from_str("invalid opcode"),
        }
    }
}

/// Bounds on the operand fields that decoding guarantees: register indices
/// are nibbles, addresses are 12 bits, sprite heights are nibbles.
pub open spec fn op_wf(op: OpCode) -> bool {
    match op {
        OpCode::CLS => true,
        OpCode::RET => true,
        OpCode::SYSADDR(addr) => addr < 4096,
        OpCode::JP(addr) => addr < 4096,
        OpCode::CALL(addr) => addr < 4096,
        OpCode::SEVxByte(x, _kk) => x < 16,
        OpCode::SNEVxByte(x, _kk) => x < 16,
        OpCode::SEVxVy(x, y) => x < 16 && y < 16,
        OpCode::LDVxByte(x, _kk) => x < 16,
        OpCode::ADDVxByte(x, _kk) => x < 16,
        OpCode::LDVxVy(x, y) => x < 16 && y < 16,
        OpCode::ORVxVy(x, y) => x < 16 && y < 16,
        OpCode::ANDVxVy(x, y) => x < 16 && y < 16,
        OpCode::XORVxVy(x, y) => x < 16 && y < 16,
        OpCode::ADDVxVy(x, y) => x < 16 && y < 16,
        OpCode::SUBVxVy(x, y) => x < 16 && y < 16,
        OpCode::SHRVyVx(x, y) => x < 16 && y < 16,
        OpCode::SUBNVyVx(x, y) => x < 16 && y < 16,
        OpCode::SHLVyVx(x, y) => x < 16 && y < 16,
        OpCode::SNEVxVy(x, y) => x < 16 && y < 16,
        OpCode::LDI(addr) => addr < 4096,
        OpCode::JP0(addr) => addr < 4096,
        OpCode::RND(x, _kk) => x < 16,
        OpCode::DRW(x, y, n) => x < 16 && y < 16 && n < 16,
        OpCode::SKPVx(x) => x < 16,
        OpCode::SKNPVx(x) => x < 16,
        OpCode::LDDTVx(x) => x < 16,
        OpCode::LDVxDT(x) => x < 16,
        OpCode::LDSTVx(x) => x < 16,
        OpCode::ADDIVx(x) => x < 16,
        OpCode::LDFVx(x) => x < 16,
        OpCode::LDBVx(x) => x < 16,
        OpCode::LDIVx(x) => x < 16,
        OpCode::LDVxI(x) => x < 16,
        OpCode::LDVxK(x) => x < 16,
        OpCode::SCD(n) => n < 16,
        OpCode::SCR => true,
        OpCode::SCL => true,
        OpCode::EXIT => true,
        OpCode::LOW => true,
        OpCode::HIGH => true,
        OpCode::DRWVxVy0(x, y) => x < 16 && y < 16,
        OpCode::LDHFVx(x) => x < 16,
        OpCode::LDRVx(x) => x < 16,
        OpCode::LDVxR(x) => x < 16,
    }
}

/// The second register nibble of an instruction word.
pub open spec fn spec_x(w: u16) -> u8 {
    ((w & 0x0F00) >> 8) as u8
}

/// The third register nibble of an instruction word.
pub open spec fn spec_y(w: u16) -> u8 {
    ((w & 0x00F0) >> 4) as u8
}

/// The low byte of an instruction word.
pub open spec fn spec_kk(w: u16) -> u8 {
    (w & 0x00FF) as u8
}

/// The low 12 bits of an instruction word.
pub open spec fn spec_nnn(w: u16) -> u16 {
    w & 0x0FFF
}

/// The low nibble of an instruction word.
pub open spec fn spec_n(w: u16) -> u8 {
    (w & 0x000F) as u8
}

/// Bounds on the extracted operand fields.
pub proof fn lemma_field_bounds(w: u16)
    by (bit_vector)
    ensures
        (w & 0x0F00) >> 8 < 16,
        (w & 0x00F0) >> 4 < 16,
        w & 0x00FF < 256,
        w & 0x0FFF < 4096,
        w & 0x000F < 16,
{
}

/// Decoding as a pure, total function of the instruction word: the first
/// nibble selects a family; families 0x0, 0x8, 0xD, 0xE and 0xF dispatch
/// further on the low byte or low nibble; anything else is a failure.
pub open spec fn spec_decode(w: u16) -> Result<OpCode, ChipError> {
    if w <= 0x00FF {
        if w & 0x00FF == 0xE0 {
            Ok(OpCode::CLS)
        } else if w & 0x00FF == 0xEE {
            Ok(OpCode::RET)
        } else if 0xC0 <= w & 0x00FF && w & 0x00FF <= 0xCF {
            Ok(OpCode::SCD(spec_n(w)))
        } else if w & 0x00FF == 0xFB {
            Ok(OpCode::SCR)
        } else if w & 0x00FF == 0xFC {
            Ok(OpCode::SCL)
        } else if w & 0x00FF == 0xFD {
            Ok(OpCode::EXIT)
        } else if w & 0x00FF == 0xFE {
            Ok(OpCode::LOW)
        } else if w & 0x00FF == 0xFF {
            Ok(OpCode::HIGH)
        } else {
            Ok(OpCode::SYSADDR(spec_nnn(w)))
        }
    } else if 0x1000 <= w && w <= 0x1FFF {
        Ok(OpCode::JP(spec_nnn(w)))
    } else if 0x2000 <= w && w <= 0x2FFF {
        Ok(OpCode::CALL(spec_nnn(w)))
    } else if 0x3000 <= w && w <= 0x3FFF {
        Ok(OpCode::SEVxByte(spec_x(w), spec_kk(w)))
    } else if 0x4000 <= w && w <= 0x4FFF {
        Ok(OpCode::SNEVxByte(spec_x(w), spec_kk(w)))
    } else if 0x5000 <= w && w <= 0x5FFF {
        Ok(OpCode::SEVxVy(spec_x(w), spec_y(w)))
    } else if 0x6000 <= w && w <= 0x6FFF {
        Ok(OpCode::LDVxByte(spec_x(w), spec_kk(w)))
    } else if 0x7000 <= w && w <= 0x7FFF {
        Ok(OpCode::ADDVxByte(spec_x(w), spec_kk(w)))
    } else if 0x8000 <= w && w <= 0x8FFF {
        if w & 0x000F == 0x0 {
            Ok(OpCode::LDVxVy(spec_x(w), spec_y(w)))
        } else if w & 0x000F == 0x1 {
            Ok(OpCode::ORVxVy(spec_x(w), spec_y(w)))
        } else if w & 0x000F == 0x2 {
            Ok(OpCode::ANDVxVy(spec_x(w), spec_y(w)))
        } else if w & 0x000F == 0x3 {
            Ok(OpCode::XORVxVy(spec_x(w), spec_y(w)))
        } else if w & 0x000F == 0x4 {
            Ok(OpCode::ADDVxVy(spec_x(w), spec_y(w)))
        } else if w & 0x000F == 0x5 {
            Ok(OpCode::SUBVxVy(spec_x(w), spec_y(w)))
        } else if w & 0x000F == 0x6 {
            Ok(OpCode::SHRVyVx(spec_x(w), spec_y(w)))
        } else if w & 0x000F == 0x7 {
            Ok(OpCode::SUBNVyVx(spec_x(w), spec_y(w)))
        } else if w & 0x000F == 0xE {
            Ok(OpCode::SHLVyVx(spec_x(w), spec_y(w)))
        } else {
            Err(ChipError::InvalidOpcode(w))
        }
    } else if 0x9000 <= w && w <= 0x9FFF {
        Ok(OpCode::SNEVxVy(spec_x(w), spec_y(w)))
    } else if 0xA000 <= w && w <= 0xAFFF {
        Ok(OpCode::LDI(spec_nnn(w)))
    } else if 0xB000 <= w && w <= 0xBFFF {
        Ok(OpCode::JP0(spec_nnn(w)))
    } else if 0xC000 <= w && w <= 0xCFFF {
        Ok(OpCode::RND(spec_x(w), spec_kk(w)))
    } else if 0xD000 <= w && w <= 0xDFFF {
        if w & 0x000F == 0x0 {
            Ok(OpCode::DRWVxVy0(spec_x(w), spec_y(w)))
        } else {
            Ok(OpCode::DRW(spec_x(w), spec_y(w), spec_n(w)))
        }
    } else if 0xE000 <= w && w <= 0xEFFF {
        if w & 0x00FF == 0x9E {
            Ok(OpCode::SKPVx(spec_x(w)))
        } else if w & 0x00FF == 0xA1 {
            Ok(OpCode::SKNPVx(spec_x(w)))
        } else {
            Err(ChipError::InvalidOpcode(w))
        }
    } else if 0xF000 <= w {
        if w & 0x00FF == 0x07 {
            Ok(OpCode::LDVxDT(spec_x(w)))
        } else if w & 0x00FF == 0x0A {
            Ok(OpCode::LDVxK(spec_x(w)))
        } else if w & 0x00FF == 0x15 {
            Ok(OpCode::LDDTVx(spec_x(w)))
        } else if w & 0x00FF == 0x18 {
            Ok(OpCode::LDSTVx(spec_x(w)))
        } else if w & 0x00FF == 0x1E {
            Ok(OpCode::ADDIVx(spec_x(w)))
        } else if w & 0x00FF == 0x29 {
            Ok(OpCode::LDFVx(spec_x(w)))
        } else if w & 0x00FF == 0x33 {
            Ok(OpCode::LDBVx(spec_x(w)))
        } else if w & 0x00FF == 0x55 {
            Ok(OpCode::LDIVx(spec_x(w)))
        } else if w & 0x00FF == 0x65 {
            Ok(OpCode::LDVxI(spec_x(w)))
        } else {
            Err(ChipError::InvalidOpcode(w))
        }
    } else {
        Err(ChipError::InvalidOpcode(w))
    }
}

/// Whatever decoding returns satisfies the operand-field bounds.
pub proof fn lemma_decode_wf(w: u16)
    ensures
        spec_decode(w) matches Ok(op) ==> op_wf(op),
{
    lemma_field_bounds(w);
}

} // verus!
