//! Per-instruction semantics: flag behaviour of arithmetic, logic and
//! shifts, memory transfers, decimal decomposition, and the failures the
//! recognized-but-unimplemented instructions report.

use chip8::functions;
use chip8::semantics::ExecError;
use chip8::state::ChipState;

#[test]
fn carry_add_with_overflow() {
    let mut s = ChipState::new();
    s.v[1] = 200;
    s.v[2] = 100;
    assert_eq!(functions::add_vx_vy(&mut s, 1, 2), Ok(()));
    assert_eq!(s.v[1], 44); // (200 + 100) mod 256
    assert_eq!(s.v[15], 1);
}

#[test]
fn carry_add_without_overflow() {
    let mut s = ChipState::new();
    s.v[1] = 200;
    s.v[2] = 55;
    s.v[15] = 7; // a stale flag must be overwritten
    assert_eq!(functions::add_vx_vy(&mut s, 1, 2), Ok(()));
    assert_eq!(s.v[1], 255);
    assert_eq!(s.v[15], 0);
}

#[test]
fn borrow_subtract_no_borrow() {
    let mut s = ChipState::new();
    s.v[3] = 80;
    s.v[4] = 80;
    assert_eq!(functions::sub_vx_vy(&mut s, 3, 4), Ok(()));
    assert_eq!(s.v[3], 0);
    assert_eq!(s.v[15], 1); // no borrow: flag is 1
}

#[test]
fn borrow_subtract_with_borrow() {
    let mut s = ChipState::new();
    s.v[3] = 10;
    s.v[4] = 20;
    assert_eq!(functions::sub_vx_vy(&mut s, 3, 4), Ok(()));
    assert_eq!(s.v[3], 246); // (10 - 20) mod 256
    assert_eq!(s.v[15], 0);
}

#[test]
fn reverse_subtract_both_cases() {
    let mut s = ChipState::new();
    s.v[3] = 10;
    s.v[4] = 20;
    assert_eq!(functions::subn_vy_vx(&mut s, 3, 4), Ok(()));
    assert_eq!(s.v[3], 10); // 20 - 10
    assert_eq!(s.v[15], 1);
    s.v[5] = 30;
    s.v[6] = 20;
    assert_eq!(functions::subn_vy_vx(&mut s, 5, 6), Ok(()));
    assert_eq!(s.v[5], 246); // (20 - 30) mod 256
    assert_eq!(s.v[15], 0);
}

#[test]
fn logic_ops_zero_the_flag() {
    let mut s = ChipState::new();
    s.v[15] = 9;
    s.v[1] = 0xF0;
    s.v[2] = 0x0F;
    assert_eq!(functions::or_vx_vy(&mut s, 1, 2), Ok(()));
    assert_eq!(s.v[1], 0xFF); // the result itself is nonzero
    assert_eq!(s.v[15], 0);

    s.v[15] = 9;
    s.v[3] = 0xFF;
    s.v[4] = 0x3C;
    assert_eq!(functions::and_vx_vy(&mut s, 3, 4), Ok(()));
    assert_eq!(s.v[3], 0x3C);
    assert_eq!(s.v[15], 0);

    s.v[15] = 9;
    s.v[5] = 0xAA;
    s.v[6] = 0xFF;
    assert_eq!(functions::xor_vx_vy(&mut s, 5, 6), Ok(()));
    assert_eq!(s.v[5], 0x55);
    assert_eq!(s.v[15], 0);
}

#[test]
fn shift_right_quirk_off_mirrors_source() {
    let mut s = ChipState::new();
    s.v[1] = 0xFF;
    s.v[2] = 0b0000_0101;
    assert_eq!(functions::shr(&mut s, 1, 2, false), Ok(()));
    assert_eq!(s.v[1], 0b0000_0010); // Vy shifted right
    assert_eq!(s.v[15], 1); // low bit of Vy
}

#[test]
fn shift_right_quirk_on_ignores_source() {
    let mut s = ChipState::new();
    s.v[1] = 0b0000_0100;
    s.v[2] = 0xFF;
    assert_eq!(functions::shr(&mut s, 1, 2, true), Ok(()));
    assert_eq!(s.v[1], 0b0000_0010); // Vx shifted in place
    assert_eq!(s.v[15], 0); // low bit of Vx
}

#[test]
fn shift_left_flag_is_high_bit_in_both_modes() {
    let mut s = ChipState::new();
    s.v[1] = 0;
    s.v[2] = 0b1100_0000;
    assert_eq!(functions::shl(&mut s, 1, 2, false), Ok(()));
    assert_eq!(s.v[1], 0b1000_0000);
    assert_eq!(s.v[15], 1);

    s.v[3] = 0b0100_0000;
    s.v[4] = 0xFF;
    assert_eq!(functions::shl(&mut s, 3, 4, true), Ok(()));
    assert_eq!(s.v[3], 0b1000_0000);
    assert_eq!(s.v[15], 0);
}

#[test]
fn add_immediate_wraps_without_flag() {
    let mut s = ChipState::new();
    s.v[1] = 250;
    s.v[15] = 3;
    assert_eq!(functions::add_vx_byte(&mut s, 1, 10), Ok(()));
    assert_eq!(s.v[1], 4); // (250 + 10) mod 256
    assert_eq!(s.v[15], 3); // flag untouched
}

#[test]
fn skip_instructions_step_pc() {
    let mut s = ChipState::new();
    s.v[1] = 5;
    assert_eq!(functions::se_vx_byte(&mut s, 1, 5), Ok(()));
    assert_eq!(s.pc, 0x202);
    assert_eq!(functions::se_vx_byte(&mut s, 1, 6), Ok(()));
    assert_eq!(s.pc, 0x202);
    assert_eq!(functions::sne_vx_byte(&mut s, 1, 6), Ok(()));
    assert_eq!(s.pc, 0x204);
    s.v[2] = 5;
    assert_eq!(functions::se_vx_vy(&mut s, 1, 2), Ok(()));
    assert_eq!(s.pc, 0x206);
    assert_eq!(functions::sne_vx_vy(&mut s, 1, 2), Ok(()));
    assert_eq!(s.pc, 0x206);
}

#[test]
fn key_skips_read_the_keypad() {
    let mut s = ChipState::new();
    s.v[1] = 7;
    s.keypad[7] = true;
    assert_eq!(functions::skp_vx(&mut s, 1), Ok(()));
    assert_eq!(s.pc, 0x202);
    assert_eq!(functions::sknp_vx(&mut s, 1), Ok(()));
    assert_eq!(s.pc, 0x202);
    s.keypad[7] = false;
    assert_eq!(functions::sknp_vx(&mut s, 1), Ok(()));
    assert_eq!(s.pc, 0x204);
}

#[test]
fn decimal_decomposition() {
    let mut s = ChipState::new();
    s.v[2] = 254;
    s.i = 0x300;
    assert_eq!(functions::ld_b_vx(&mut s, 2), Ok(()));
    assert_eq!(s.memory[0x300], 2);
    assert_eq!(s.memory[0x301], 5);
    assert_eq!(s.memory[0x302], 4);

    s.v[3] = 7;
    assert_eq!(functions::ld_b_vx(&mut s, 3), Ok(()));
    assert_eq!(s.memory[0x300], 0);
    assert_eq!(s.memory[0x301], 0);
    assert_eq!(s.memory[0x302], 7);
}

#[test]
fn register_dump_advances_index() {
    let mut s = ChipState::new();
    for k in 0..4u8 {
        s.v[k as usize] = 10 + k;
    }
    s.i = 0x400;
    assert_eq!(functions::ld_i_vx(&mut s, 3), Ok(()));
    assert_eq!(s.i, 0x404); // left just past the block
    assert_eq!(&s.memory[0x400..0x404], &[10, 11, 12, 13]);
}

#[test]
fn register_load_advances_index() {
    let mut s = ChipState::new();
    s.memory[0x400] = 42;
    s.memory[0x401] = 43;
    s.memory[0x402] = 44;
    s.i = 0x400;
    s.v[3] = 99;
    assert_eq!(functions::ld_vx_i(&mut s, 2), Ok(()));
    assert_eq!(s.i, 0x403);
    assert_eq!(s.v[0], 42);
    assert_eq!(s.v[1], 43);
    assert_eq!(s.v[2], 44);
    assert_eq!(s.v[3], 99); // past the block: untouched
}

#[test]
fn index_register_loads() {
    let mut s = ChipState::new();
    assert_eq!(functions::ld_i(&mut s, 0x123), Ok(()));
    assert_eq!(s.i, 0x123);
    s.v[4] = 3;
    assert_eq!(functions::ld_f_vx(&mut s, 4), Ok(()));
    assert_eq!(s.i, 15); // digit sprites are 5 bytes each
    s.v[5] = 7;
    assert_eq!(functions::add_i_vx(&mut s, 5), Ok(()));
    assert_eq!(s.i, 22);
}

#[test]
fn timer_register_transfers() {
    let mut s = ChipState::new();
    s.v[1] = 60;
    assert_eq!(functions::ld_dt_vx(&mut s, 1), Ok(()));
    assert_eq!(s.delay_timer, 60);
    assert_eq!(functions::ld_st_vx(&mut s, 1), Ok(()));
    assert_eq!(s.sound_timer, 60);
    s.delay_timer = 33;
    assert_eq!(functions::ld_vx_dt(&mut s, 2), Ok(()));
    assert_eq!(s.v[2], 33);
}

#[test]
fn jumps_set_the_jump_flag() {
    let mut s = ChipState::new();
    assert_eq!(functions::jp(&mut s, 0x345), Ok(()));
    assert_eq!(s.pc, 0x345);
    assert!(s.jump_flag);

    let mut s = ChipState::new();
    assert_eq!(functions::sysaddr(&mut s, 0x345), Ok(()));
    assert_eq!(s.pc, 0x345);
    assert!(s.jump_flag);

    let mut s = ChipState::new();
    s.v[0] = 0x10;
    assert_eq!(functions::jp0(&mut s, 0x300), Ok(()));
    assert_eq!(s.pc, 0x310);
    assert!(s.jump_flag);
}

#[test]
fn random_masked_by_zero_is_zero() {
    let mut s = ChipState::new();
    s.v[1] = 77;
    assert_eq!(functions::rnd(&mut s, 1, 0), Ok(()));
    assert_eq!(s.v[1], 0);
}

#[test]
fn random_respects_its_mask() {
    let mut s = ChipState::new();
    assert_eq!(functions::rnd(&mut s, 1, 0x0F), Ok(()));
    assert!(s.v[1] <= 0x0F);
}

#[test]
fn clear_screen_zeroes_every_pixel() {
    let mut s = ChipState::new();
    s.display[0] = 1;
    s.display[2047] = 1;
    assert_eq!(functions::cls(&mut s), Ok(()));
    assert!(s.display.iter().all(|&p| p == 0));
}

#[test]
fn stack_underflow_is_reported() {
    let mut s = ChipState::new();
    assert_eq!(functions::ret(&mut s), Err(ExecError::StackUnderflow));
    assert_eq!(s.pc, 0x200);
    assert_eq!(s.sp, 0);
}

#[test]
fn stack_overflow_is_reported() {
    let mut s = ChipState::new();
    s.sp = 15;
    assert_eq!(functions::call(&mut s, 0x300), Err(ExecError::StackOverflow));
    assert_eq!(s.pc, 0x200);
    assert_eq!(s.sp, 15);
}

#[test]
fn extended_instructions_report_not_implemented() {
    let mut s = ChipState::new();
    assert_eq!(functions::scd(&mut s, 3), Err(ExecError::NotImplemented));
    assert_eq!(functions::scr(&mut s), Err(ExecError::NotImplemented));
    assert_eq!(functions::scl(&mut s), Err(ExecError::NotImplemented));
    assert_eq!(functions::exit(&mut s), Err(ExecError::NotImplemented));
    assert_eq!(functions::low(&mut s), Err(ExecError::NotImplemented));
    assert_eq!(functions::high(&mut s), Err(ExecError::NotImplemented));
    assert_eq!(functions::drw_vx_vy_0(&mut s, 1, 2), Err(ExecError::NotImplemented));
    assert_eq!(functions::ld_hf_vx(&mut s, 1), Err(ExecError::NotImplemented));
    assert_eq!(functions::ld_r_vx(&mut s, 1), Err(ExecError::NotImplemented));
    assert_eq!(functions::ld_vx_r(&mut s, 1), Err(ExecError::NotImplemented));
    assert_eq!(s.pc, 0x200); // nothing mutated
}
