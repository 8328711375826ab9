//! The whole machine: sprite drawing, the cycle engine, program loading,
//! the key-wait state machine, timers and program-counter wraparound.

use chip8::chip::{Chip, TIMER_INTERVAL_NANOS};
use chip8::functions;
use chip8::opcode::ChipError;
use chip8::semantics::ExecError;
use chip8::state::{ChipState, KeyboardHalt};

fn keys_with(pressed: &[usize]) -> Vec<bool> {
    let mut keys = vec![false; 16];
    for &k in pressed {
        keys[k] = true;
    }
    keys
}

/// Write one instruction word at an address, big-endian.
fn poke_word(c: &mut Chip, addr: usize, word: u16) {
    c.state.memory[addr] = (word >> 8) as u8;
    c.state.memory[addr + 1] = (word & 0xFF) as u8;
}

#[test]
fn draw_sets_pixels_and_reports_no_collision() {
    let mut s = ChipState::new();
    s.memory[0x300] = 0b1010_0000;
    s.i = 0x300;
    s.v[0] = 4; // x
    s.v[1] = 2; // y
    assert_eq!(functions::drw(&mut s, 0, 1, 1), Ok(()));
    assert_eq!(s.v[15], 0);
    assert!(s.draw_flag);
    assert_eq!(s.display[2 * 64 + 4], 1);
    assert_eq!(s.display[2 * 64 + 5], 0);
    assert_eq!(s.display[2 * 64 + 6], 1);
}

#[test]
fn draw_twice_restores_and_collides() {
    let mut s = ChipState::new();
    s.memory[0x300] = 0xFF;
    s.memory[0x301] = 0x81;
    s.i = 0x300;
    s.v[0] = 10;
    s.v[1] = 5;
    assert_eq!(functions::drw(&mut s, 0, 1, 2), Ok(()));
    assert_eq!(s.v[15], 0);
    let after_first = s.display.clone();
    assert!(after_first.iter().any(|&p| p == 1));
    assert_eq!(functions::drw(&mut s, 0, 1, 2), Ok(()));
    assert_eq!(s.v[15], 1); // every pixel it set went out again
    assert!(s.display.iter().all(|&p| p == 0)); // the region is restored
    assert_ne!(after_first, s.display);
}

#[test]
fn draw_wraps_per_pixel_at_the_right_edge() {
    let mut s = ChipState::new();
    s.memory[0x300] = 0b1100_0000;
    s.i = 0x300;
    s.v[0] = 63;
    s.v[1] = 0;
    assert_eq!(functions::drw(&mut s, 0, 1, 1), Ok(()));
    assert_eq!(s.display[63], 1); // first column at the edge
    assert_eq!(s.display[0], 1); // second column wrapped to x = 0
    assert_eq!(s.display[64], 0); // nothing spilled into the next row
}

#[test]
fn draw_wraps_vertically() {
    let mut s = ChipState::new();
    s.memory[0x300] = 0x80;
    s.memory[0x301] = 0x80;
    s.i = 0x300;
    s.v[0] = 0;
    s.v[1] = 31;
    assert_eq!(functions::drw(&mut s, 0, 1, 2), Ok(()));
    assert_eq!(s.display[31 * 64], 1); // first row at the bottom
    assert_eq!(s.display[0], 1); // second row wrapped to the top
}

#[test]
fn draw_collision_only_where_pixels_meet() {
    let mut s = ChipState::new();
    s.memory[0x300] = 0b1000_0000;
    s.i = 0x300;
    s.v[0] = 0;
    s.v[1] = 0;
    s.v[2] = 1; // x for the second, shifted draw
    assert_eq!(functions::drw(&mut s, 0, 1, 1), Ok(()));
    assert_eq!(s.v[15], 0);
    assert_eq!(functions::drw(&mut s, 2, 1, 1), Ok(()));
    assert_eq!(s.v[15], 0); // disjoint pixels: no collision
    assert_eq!(functions::drw(&mut s, 0, 1, 1), Ok(()));
    assert_eq!(s.v[15], 1); // same pixel again: collision
}

#[test]
fn load_rom_places_program_and_fonts() {
    let mut c = Chip::new(500, false);
    c.load_rom(vec![0xAB, 0xCD]);
    assert_eq!(c.state.memory[0x200], 0xAB);
    assert_eq!(c.state.memory[0x201], 0xCD);
    assert_eq!(c.state.memory[0x202], 0);
    // The font table: digit 0 starts with 0xF0, digit F ends with 0x80.
    assert_eq!(c.state.memory[0], 0xF0);
    assert_eq!(c.state.memory[79], 0x80);
    assert_eq!(c.state.pc, 0x200);
}

#[test]
fn load_rom_truncates_an_oversize_image() {
    let mut c = Chip::new(500, false);
    let rom = vec![7u8; 4000]; // more than the 3584 bytes left past 0x200
    c.load_rom(rom);
    assert_eq!(c.state.memory[0x200], 7);
    assert_eq!(c.state.memory[4095], 7);
    assert_eq!(c.state.memory[0x1FF], 0); // nothing written below the start
}

#[test]
fn reset_reconstructs_from_scratch() {
    let mut c = Chip::new(500, true);
    c.load_rom(vec![0x12, 0x34]);
    c.state.v[3] = 9;
    c.state.draw_flag = true;
    c.state.keyboard_halt = KeyboardHalt::Halt(3);
    c.reset();
    assert_eq!(c.state.pc, 0x200);
    assert_eq!(c.state.v[3], 0);
    assert!(!c.state.draw_flag);
    assert_eq!(c.state.keyboard_halt, KeyboardHalt::Resume);
    assert_eq!(c.state.memory[0x200], 0); // the program is gone
    assert_eq!(c.state.memory[0], 0xF0); // but the font table is pre-seeded
    assert_eq!(c.state.memory[79], 0x80);
    assert_eq!(c.state.memory[80], 0);
    assert!(c.shift_quirk); // configuration survives a reset
}

#[test]
fn fetch_reads_big_endian() {
    let mut c = Chip::new(500, false);
    poke_word(&mut c, 0x200, 0x1ABC);
    assert!(c.cycle_ready());
    assert_eq!(c.fetch_opcode(), 0x1ABC);
}

#[test]
fn cycle_advances_pc_by_one_instruction() {
    let mut c = Chip::new(500, false);
    poke_word(&mut c, 0x200, 0x6A42); // V10 = 0x42
    assert!(c.cycle_ready());
    assert_eq!(c.cycle(), Ok(None));
    assert_eq!(c.state.v[10], 0x42);
    assert_eq!(c.state.pc, 0x202);
    assert!(!c.state.jump_flag);
}

#[test]
fn cycle_reports_an_invalid_opcode_and_leaves_state_alone() {
    let mut c = Chip::new(500, false);
    poke_word(&mut c, 0x200, 0x8128);
    assert!(c.cycle_ready());
    assert_eq!(c.cycle(), Err(ChipError::InvalidOpcode(0x8128)));
    assert_eq!(c.state.pc, 0x200);
}

#[test]
fn cycle_reports_not_implemented_and_continues() {
    let mut c = Chip::new(500, false);
    poke_word(&mut c, 0x200, 0x00FB); // scroll right: decodable, unimplemented
    assert!(c.cycle_ready());
    assert_eq!(c.cycle(), Ok(Some(ExecError::NotImplemented)));
    assert_eq!(c.state.pc, 0x202); // execution continues past it
}

#[test]
fn call_then_ret_returns_past_the_call() {
    let mut c = Chip::new(500, false);
    poke_word(&mut c, 0x200, 0x2ABC); // CALL 0xABC
    poke_word(&mut c, 0xABC, 0x00EE); // RET
    assert!(c.cycle_ready());
    assert_eq!(c.cycle(), Ok(None));
    assert_eq!(c.state.pc, 0xABC);
    assert_eq!(c.state.sp, 1);
    assert!(c.cycle_ready());
    assert_eq!(c.cycle(), Ok(None));
    assert_eq!(c.state.pc, 0x202); // the instruction after the call
    assert_eq!(c.state.sp, 0);
}

#[test]
fn jump_past_memory_wraps_pc() {
    let mut c = Chip::new(500, false);
    poke_word(&mut c, 0x200, 0xBFFF); // JP0 0xFFF
    c.state.v[0] = 5;
    assert!(c.cycle_ready());
    assert_eq!(c.cycle(), Ok(None));
    assert_eq!(c.state.pc, (0xFFF + 5) % 4096);
}

#[test]
fn cycle_ready_refuses_an_out_of_range_draw() {
    let mut c = Chip::new(500, false);
    poke_word(&mut c, 0x200, 0xD015); // 5-row sprite
    c.state.i = 4094; // sprite bytes would run past memory
    assert!(!c.cycle_ready());
    c.state.i = 4091;
    assert!(c.cycle_ready());
}

#[test]
fn key_wait_round_trip() {
    let mut c = Chip::new(500, false);
    poke_word(&mut c, 0x200, 0xF30A); // wait for a key into V3
    assert!(c.cycle_ready());
    assert_eq!(c.cycle(), Ok(None));
    assert_eq!(c.state.keyboard_halt, KeyboardHalt::Halt(3));
    assert!(!c.can_execute());

    // No key pressed: still halted.
    c.advance_key_wait();
    assert_eq!(c.state.keyboard_halt, KeyboardHalt::Halt(3));

    // Keys 9 and 12 down: the lowest-indexed one is latched.
    c.set_key(keys_with(&[9, 12]));
    c.advance_key_wait();
    assert_eq!(c.state.keyboard_halt, KeyboardHalt::WaitForRelease(3));
    assert_eq!(c.state.v[3], 9);
    assert!(!c.can_execute());

    // Releasing a different key must not resume: 9 is still down.
    c.set_key(keys_with(&[9]));
    c.advance_key_wait();
    assert_eq!(c.state.keyboard_halt, KeyboardHalt::WaitForRelease(3));

    // Releasing the latched key resumes, even with another key down.
    c.set_key(keys_with(&[12]));
    c.advance_key_wait();
    assert_eq!(c.state.keyboard_halt, KeyboardHalt::Resume);
    assert!(c.can_execute());
    assert_eq!(c.state.v[3], 9); // the latched index stays
}

#[test]
fn timers_count_down_to_zero() {
    let mut c = Chip::new(500, false);
    c.state.delay_timer = 3;
    c.state.sound_timer = 1;
    // An interval short of 1/60 s does nothing.
    assert!(!c.update_timers(TIMER_INTERVAL_NANOS - 1));
    assert_eq!(c.state.delay_timer, 3);
    // Five full intervals: down by five, clamped at zero.
    for _ in 0..5 {
        assert!(c.update_timers(TIMER_INTERVAL_NANOS));
    }
    assert_eq!(c.state.delay_timer, 0);
    assert_eq!(c.state.sound_timer, 0);
}

#[test]
fn sound_and_draw_flags_reach_the_caller() {
    let mut c = Chip::new(500, false);
    assert!(!c.sound_active());
    c.state.sound_timer = 2;
    assert!(c.sound_active());

    assert!(!c.take_draw_flag());
    c.state.memory[0x300] = 0x80;
    c.state.i = 0x300;
    assert_eq!(functions::drw(&mut c.state, 0, 1, 1), Ok(()));
    assert!(c.take_draw_flag()); // the draw owed a redraw
    assert!(!c.take_draw_flag()); // and taking it cleared it
}

#[test]
fn shift_quirk_configuration_reaches_execution() {
    let mut quirky = Chip::new(500, true);
    poke_word(&mut quirky, 0x200, 0x8126); // shift right
    quirky.state.v[1] = 8;
    quirky.state.v[2] = 2;
    assert!(quirky.cycle_ready());
    assert_eq!(quirky.cycle(), Ok(None));
    assert_eq!(quirky.state.v[1], 4); // quirk on: Vx shifted in place

    let mut plain = Chip::new(500, false);
    poke_word(&mut plain, 0x200, 0x8126);
    plain.state.v[1] = 8;
    plain.state.v[2] = 2;
    assert!(plain.cycle_ready());
    assert_eq!(plain.cycle(), Ok(None));
    assert_eq!(plain.state.v[1], 1); // quirk off: Vy shifted
}

#[test]
fn cycle_runs_a_small_program() {
    let mut c = Chip::new(500, false);
    // V1 = 3; V2 = 4; V1 = V1 + V2; skip if V1 == 7; (skipped word); V1 = 99
    c.load_rom(vec![0x61, 0x03, 0x62, 0x04, 0x81, 0x24, 0x31, 0x07, 0x00, 0xE0, 0x61, 0x63]);
    for _ in 0..5 {
        assert!(c.cycle_ready());
        assert_eq!(c.cycle(), Ok(None));
    }
    assert_eq!(c.state.v[1], 99);
    assert_eq!(c.state.v[15], 0); // the add did not carry
    assert_eq!(c.state.pc, 0x20C);
}
