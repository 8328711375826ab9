//! Decoding: every instruction family, the sub-dispatched families, and the
//! words that no pattern matches.

use chip8::chip::Chip;
use chip8::opcode::{ChipError, OpCode};

fn decoder() -> Chip {
    Chip::new(500, false)
}

#[test]
fn decode_clear_and_return() {
    let c = decoder();
    assert_eq!(c.decode_opcode(0x00E0), Ok(OpCode::CLS));
    assert_eq!(c.decode_opcode(0x00EE), Ok(OpCode::RET));
}

#[test]
fn decode_extended_family_zero() {
    let c = decoder();
    assert_eq!(c.decode_opcode(0x00C5), Ok(OpCode::SCD(5)));
    assert_eq!(c.decode_opcode(0x00CF), Ok(OpCode::SCD(15)));
    assert_eq!(c.decode_opcode(0x00FB), Ok(OpCode::SCR));
    assert_eq!(c.decode_opcode(0x00FC), Ok(OpCode::SCL));
    assert_eq!(c.decode_opcode(0x00FD), Ok(OpCode::EXIT));
    assert_eq!(c.decode_opcode(0x00FE), Ok(OpCode::LOW));
    assert_eq!(c.decode_opcode(0x00FF), Ok(OpCode::HIGH));
}

#[test]
fn decode_sys_addr_only_low_byte() {
    let c = decoder();
    assert_eq!(c.decode_opcode(0x0012), Ok(OpCode::SYSADDR(0x012)));
    // A system address past the low byte matches no pattern.
    assert_eq!(c.decode_opcode(0x0100), Err(ChipError::InvalidOpcode(0x0100)));
    assert_eq!(c.decode_opcode(0x0FFF), Err(ChipError::InvalidOpcode(0x0FFF)));
}

#[test]
fn decode_jumps_and_calls() {
    let c = decoder();
    assert_eq!(c.decode_opcode(0x1ABC), Ok(OpCode::JP(0xABC)));
    assert_eq!(c.decode_opcode(0x2123), Ok(OpCode::CALL(0x123)));
    assert_eq!(c.decode_opcode(0xA999), Ok(OpCode::LDI(0x999)));
    assert_eq!(c.decode_opcode(0xB321), Ok(OpCode::JP0(0x321)));
}

#[test]
fn decode_immediate_forms() {
    let c = decoder();
    assert_eq!(c.decode_opcode(0x3A42), Ok(OpCode::SEVxByte(0xA, 0x42)));
    assert_eq!(c.decode_opcode(0x4B7F), Ok(OpCode::SNEVxByte(0xB, 0x7F)));
    assert_eq!(c.decode_opcode(0x5C30), Ok(OpCode::SEVxVy(0xC, 3)));
    assert_eq!(c.decode_opcode(0x6D55), Ok(OpCode::LDVxByte(0xD, 0x55)));
    assert_eq!(c.decode_opcode(0x7E01), Ok(OpCode::ADDVxByte(0xE, 1)));
    assert_eq!(c.decode_opcode(0x9120), Ok(OpCode::SNEVxVy(1, 2)));
    assert_eq!(c.decode_opcode(0xC3AA), Ok(OpCode::RND(3, 0xAA)));
}

#[test]
fn decode_arithmetic_family() {
    let c = decoder();
    assert_eq!(c.decode_opcode(0x8120), Ok(OpCode::LDVxVy(1, 2)));
    assert_eq!(c.decode_opcode(0x8121), Ok(OpCode::ORVxVy(1, 2)));
    assert_eq!(c.decode_opcode(0x8122), Ok(OpCode::ANDVxVy(1, 2)));
    assert_eq!(c.decode_opcode(0x8123), Ok(OpCode::XORVxVy(1, 2)));
    assert_eq!(c.decode_opcode(0x8124), Ok(OpCode::ADDVxVy(1, 2)));
    assert_eq!(c.decode_opcode(0x8125), Ok(OpCode::SUBVxVy(1, 2)));
    assert_eq!(c.decode_opcode(0x8126), Ok(OpCode::SHRVyVx(1, 2)));
    assert_eq!(c.decode_opcode(0x8127), Ok(OpCode::SUBNVyVx(1, 2)));
    assert_eq!(c.decode_opcode(0x812E), Ok(OpCode::SHLVyVx(1, 2)));
    assert_eq!(c.decode_opcode(0x8128), Err(ChipError::InvalidOpcode(0x8128)));
    assert_eq!(c.decode_opcode(0x812F), Err(ChipError::InvalidOpcode(0x812F)));
}

#[test]
fn decode_draw_family() {
    let c = decoder();
    assert_eq!(c.decode_opcode(0xD125), Ok(OpCode::DRW(1, 2, 5)));
    assert_eq!(c.decode_opcode(0xD120), Ok(OpCode::DRWVxVy0(1, 2)));
}

#[test]
fn decode_key_skips() {
    let c = decoder();
    assert_eq!(c.decode_opcode(0xE29E), Ok(OpCode::SKPVx(2)));
    assert_eq!(c.decode_opcode(0xE3A1), Ok(OpCode::SKNPVx(3)));
    assert_eq!(c.decode_opcode(0xE300), Err(ChipError::InvalidOpcode(0xE300)));
}

#[test]
fn decode_timer_and_memory_family() {
    let c = decoder();
    assert_eq!(c.decode_opcode(0xF107), Ok(OpCode::LDVxDT(1)));
    assert_eq!(c.decode_opcode(0xF20A), Ok(OpCode::LDVxK(2)));
    assert_eq!(c.decode_opcode(0xF315), Ok(OpCode::LDDTVx(3)));
    assert_eq!(c.decode_opcode(0xF418), Ok(OpCode::LDSTVx(4)));
    assert_eq!(c.decode_opcode(0xF51E), Ok(OpCode::ADDIVx(5)));
    assert_eq!(c.decode_opcode(0xF629), Ok(OpCode::LDFVx(6)));
    assert_eq!(c.decode_opcode(0xF733), Ok(OpCode::LDBVx(7)));
    assert_eq!(c.decode_opcode(0xF855), Ok(OpCode::LDIVx(8)));
    assert_eq!(c.decode_opcode(0xF965), Ok(OpCode::LDVxI(9)));
    assert_eq!(c.decode_opcode(0xF075), Err(ChipError::InvalidOpcode(0xF075)));
}

#[test]
fn invalid_opcode_describes_itself() {
    let err = ChipError::InvalidOpcode(0x8128);
    assert_eq!(err.describe(), "invalid opcode");
}
