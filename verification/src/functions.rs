//! The executable instruction semantics: one verified transition function
//! per instruction variant, each promising exactly the corresponding spec
//! transition from `semantics`.

use vstd::prelude::*;
use crate::state::{ChipState, ChipView, KeyboardHalt, MEM_SIZE, NUM_REGS, NUM_KEYS, DISPLAY_WIDTH,
    DISPLAY_HEIGHT, DISPLAY_LEN};
use crate::semantics::{ExecError, upd_v, spec_cls, spec_ret, spec_jp, spec_call, spec_skip_if,
    spec_add_vx_byte, spec_or_vx_vy, spec_and_vx_vy, spec_xor_vx_vy, spec_add_vx_vy,
    spec_sub_vx_vy, spec_subn_vy_vx, spec_shr, spec_shl, spec_jp0, spec_rnd, spec_drw,
    spec_ld_i_vx, spec_ld_vx_i, spec_ld_b_vx, spec_ld_vx_k, stored_regs, loaded_regs,
    sprite_pixel_set, covers, drawn_display, draw_collision, lemma_xor_one};

verus! {

/// Relies on rand::random: a fresh sample of the thread-local generator.
/// Nothing is promised of the value; callers state what holds of every
/// outcome.
#[verifier::external_body]
fn random_byte() -> (r: u8) {
    rand::random::<u8>()
}

/// Clear the display.
pub fn cls(state: &mut ChipState) -> (r: Result<(), ExecError>)
    requires
        old(state)@.wf(),
    ensures
        final(state)@ == spec_cls(old(state)@),
        final(state)@.wf(),
        r == Ok::<(), ExecError>(()),
{
    let mut p: usize = 0;
    while p < DISPLAY_LEN
        invariant
            p <= DISPLAY_LEN,
            state.display@.len() == DISPLAY_LEN,
            forall|q: int| 0 <= q < p ==> state.display@[q] == 0u8,
            forall|q: int| p <= q < DISPLAY_LEN ==> state.display@[q] == old(state)@.display[q],
            state.memory == old(state).memory,
            state.v == old(state).v,
            state.i == old(state).i,
            state.pc == old(state).pc,
            state.sp == old(state).sp,
            state.stack == old(state).stack,
            state.delay_timer == old(state).delay_timer,
            state.sound_timer == old(state).sound_timer,
            state.keypad == old(state).keypad,
            state.jump_flag == old(state).jump_flag,
            state.draw_flag == old(state).draw_flag,
            state.keyboard_halt == old(state).keyboard_halt,
        decreases DISPLAY_LEN - p,
    {
        state.display.set(p, 0u8);
        p = p + 1;
    }
    proof {
        assert(state@ =~= spec_cls(old(state)@));
    }
    Ok(())
}

/// Return from a subroutine; with an empty call stack the failure is
/// reported and nothing changes.
pub fn ret(state: &mut ChipState) -> (r: Result<(), ExecError>)
    requires
        old(state)@.wf(),
    ensures
        old(state)@.sp >= 1 ==> final(state)@ == spec_ret(old(state)@) && r == Ok::<(), ExecError>(()),
        old(state)@.sp == 0 ==> final(state)@ == old(state)@ && r == Err::<(), ExecError>(ExecError::StackUnderflow),
        final(state)@.wf(),
{
    if state.sp == 0 {
        return Err(ExecError::StackUnderflow);
    }
    state.pc = state.stack[state.sp as usize];
    state.sp = state.sp - 1;
    proof {
        assert(state@ =~= spec_ret(old(state)@));
    }
    Ok(())
}

/// Jump to a machine code routine; treated as an ordinary jump.
pub fn sysaddr(state: &mut ChipState, addr: u16) -> (r: Result<(), ExecError>)
    requires
        old(state)@.wf(),
    ensures
        final(state)@ == spec_jp(old(state)@, addr),
        final(state)@.wf(),
        r == Ok::<(), ExecError>(()),
{
    state.pc = addr;
    state.jump_flag = true;
    proof {
        assert(state@ =~= spec_jp(old(state)@, addr));
    }
    Ok(())
}

/// Jump to the given address.
pub fn jp(state: &mut ChipState, addr: u16) -> (r: Result<(), ExecError>)
    requires
        old(state)@.wf(),
    ensures
        final(state)@ == spec_jp(old(state)@, addr),
        final(state)@.wf(),
        r == Ok::<(), ExecError>(()),
{
    state.pc = addr;
    state.jump_flag = true;
    proof {
        assert(state@ =~= spec_jp(old(state)@, addr));
    }
    Ok(())
}

/// Call a subroutine: push the current pc and jump; with a full call stack
/// the failure is reported and nothing changes.
pub fn call(state: &mut ChipState, addr: u16) -> (r: Result<(), ExecError>)
    requires
        old(state)@.wf(),
    ensures
        old(state)@.sp < 15 ==> final(state)@ == spec_call(old(state)@, addr) && r == Ok::<(), ExecError>(()),
        old(state)@.sp >= 15 ==> final(state)@ == old(state)@ && r == Err::<(), ExecError>(ExecError::StackOverflow),
        final(state)@.wf(),
{
    if state.sp >= 15 {
        return Err(ExecError::StackOverflow);
    }
    state.sp = state.sp + 1;
    state.stack.set(state.sp as usize, state.pc);
    state.pc = addr;
    state.jump_flag = true;
    proof {
        assert(state@ =~= spec_call(old(state)@, addr));
    }
    Ok(())
}

/// Skip the next instruction if Vx equals the immediate.
pub fn se_vx_byte(state: &mut ChipState, x: u8, byte: u8) -> (r: Result<(), ExecError>)
    requires
        old(state)@.wf(),
        x < 16,
        old(state)@.pc + 2 <= u16::MAX,
    ensures
        final(state)@ == spec_skip_if(old(state)@, old(state)@.v[x as int] == byte),
        final(state)@.wf(),
        r == Ok::<(), ExecError>(()),
{
    if state.v[x as usize] == byte {
        state.pc = state.pc + 2;
    }
    Ok(())
}

/// Skip the next instruction if Vx differs from the immediate.
pub fn sne_vx_byte(state: &mut ChipState, x: u8, byte: u8) -> (r: Result<(), ExecError>)
    requires
        old(state)@.wf(),
        x < 16,
        old(state)@.pc + 2 <= u16::MAX,
    ensures
        final(state)@ == spec_skip_if(old(state)@, old(state)@.v[x as int] != byte),
        final(state)@.wf(),
        r == Ok::<(), ExecError>(()),
{
    if state.v[x as usize] != byte {
        state.pc = state.pc + 2;
    }
    Ok(())
}

/// Skip the next instruction if Vx equals Vy.
pub fn se_vx_vy(state: &mut ChipState, x: u8, y: u8) -> (r: Result<(), ExecError>)
    requires
        old(state)@.wf(),
        x < 16,
        y < 16,
        old(state)@.pc + 2 <= u16::MAX,
    ensures
        final(state)@ == spec_skip_if(old(state)@, old(state)@.v[x as int] == old(state)@.v[y as int]),
        final(state)@.wf(),
        r == Ok::<(), ExecError>(()),
{
    if state.v[x as usize] == state.v[y as usize] {
        state.pc = state.pc + 2;
    }
    Ok(())
}

/// Load an immediate into Vx.
pub fn ld_vx_byte(state: &mut ChipState, x: u8, byte: u8) -> (r: Result<(), ExecError>)
    requires
        old(state)@.wf(),
        x < 16,
    ensures
        final(state)@ == upd_v(old(state)@, x as int, byte),
        final(state)@.wf(),
        r == Ok::<(), ExecError>(()),
{
    state.v.set(x as usize, byte);
    Ok(())
}

/// Add an immediate to Vx, wrapping, without touching the flag register.
pub fn add_vx_byte(state: &mut ChipState, x: u8, byte: u8) -> (r: Result<(), ExecError>)
    requires
        old(state)@.wf(),
        x < 16,
    ensures
        final(state)@ == spec_add_vx_byte(old(state)@, x as int, byte),
        final(state)@.wf(),
        r == Ok::<(), ExecError>(()),
{
    let sum: u16 = state.v[x as usize] as u16 + byte as u16;
    state.v.set(x as usize, (sum % 256) as u8);
    Ok(())
}

/// Copy Vy into Vx.
pub fn ld_vx_vy(state: &mut ChipState, x: u8, y: u8) -> (r: Result<(), ExecError>)
    requires
        old(state)@.wf(),
        x < 16,
        y < 16,
    ensures
        final(state)@ == upd_v(old(state)@, x as int, old(state)@.v[y as int]),
        final(state)@.wf(),
        r == Ok::<(), ExecError>(()),
{
    let val = state.v[y as usize];
    state.v.set(x as usize, val);
    Ok(())
}

/// Bitwise OR of Vx and Vy into Vx; the flag register is zeroed first.
pub fn or_vx_vy(state: &mut ChipState, x: u8, y: u8) -> (r: Result<(), ExecError>)
    requires
        old(state)@.wf(),
        x < 16,
        y < 16,
    ensures
        final(state)@ == spec_or_vx_vy(old(state)@, x as int, y as int),
        final(state)@.wf(),
        r == Ok::<(), ExecError>(()),
{
    state.v.set(15, 0);
    let val = state.v[x as usize] | state.v[y as usize];
    state.v.set(x as usize, val);
    proof {
        assert(state@ =~= spec_or_vx_vy(old(state)@, x as int, y as int));
    }
    Ok(())
}

/// Bitwise AND of Vx and Vy into Vx; the flag register is zeroed first.
pub fn and_vx_vy(state: &mut ChipState, x: u8, y: u8) -> (r: Result<(), ExecError>)
    requires
        old(state)@.wf(),
        x < 16,
        y < 16,
    ensures
        final(state)@ == spec_and_vx_vy(old(state)@, x as int, y as int),
        final(state)@.wf(),
        r == Ok::<(), ExecError>(()),
{
    state.v.set(15, 0);
    let val = state.v[x as usize] & state.v[y as usize];
    state.v.set(x as usize, val);
    proof {
        assert(state@ =~= spec_and_vx_vy(old(state)@, x as int, y as int));
    }
    Ok(())
}

/// Bitwise XOR of Vx and Vy into Vx; the flag register is zeroed first.
pub fn xor_vx_vy(state: &mut ChipState, x: u8, y: u8) -> (r: Result<(), ExecError>)
    requires
        old(state)@.wf(),
        x < 16,
        y < 16,
    ensures
        final(state)@ == spec_xor_vx_vy(old(state)@, x as int, y as int),
        final(state)@.wf(),
        r == Ok::<(), ExecError>(()),
{
    state.v.set(15, 0);
    let val = state.v[x as usize] ^ state.v[y as usize];
    state.v.set(x as usize, val);
    proof {
        assert(state@ =~= spec_xor_vx_vy(old(state)@, x as int, y as int));
    }
    Ok(())
}

/// Add Vy to Vx, wrapping; the flag register receives the carry-out.
pub fn add_vx_vy(state: &mut ChipState, x: u8, y: u8) -> (r: Result<(), ExecError>)
    requires
        old(state)@.wf(),
        x < 16,
        y < 16,
    ensures
        final(state)@ == spec_add_vx_vy(old(state)@, x as int, y as int),
        final(state)@.wf(),
        r == Ok::<(), ExecError>(()),
{
    let sum: u16 = state.v[x as usize] as u16 + state.v[y as usize] as u16;
    let carry: u8 = if sum > 255 { 1 } else { 0 };
    state.v.set(x as usize, (sum % 256) as u8);
    state.v.set(15, carry);
    proof {
        assert(state@ =~= spec_add_vx_vy(old(state)@, x as int, y as int));
    }
    Ok(())
}

/// Subtract Vy from Vx, wrapping; the flag register receives NOT borrow.
pub fn sub_vx_vy(state: &mut ChipState, x: u8, y: u8) -> (r: Result<(), ExecError>)
    requires
        old(state)@.wf(),
        x < 16,
        y < 16,
    ensures
        final(state)@ == spec_sub_vx_vy(old(state)@, x as int, y as int),
        final(state)@.wf(),
        r == Ok::<(), ExecError>(()),
{
    let a = state.v[x as usize];
    let b = state.v[y as usize];
    let res: u8 = if a >= b {
        a - b
    } else {
        ((a as u16 + 256 - b as u16) % 256) as u8
    };
    let no_borrow: u8 = if a >= b { 1 } else { 0 };
    state.v.set(x as usize, res);
    state.v.set(15, no_borrow);
    proof {
        assert(state@ =~= spec_sub_vx_vy(old(state)@, x as int, y as int));
    }
    Ok(())
}

/// Shift Vx right by one; with the quirk off, Vx first mirrors Vy. The flag
/// register receives the bit shifted out, in either mode.
pub fn shr(state: &mut ChipState, x: u8, y: u8, shift_quirk: bool) -> (r: Result<(), ExecError>)
    requires
        old(state)@.wf(),
        x < 16,
        y < 16,
    ensures
        final(state)@ == spec_shr(old(state)@, x as int, y as int, shift_quirk),
        final(state)@.wf(),
        r == Ok::<(), ExecError>(()),
{
    if !shift_quirk {
        let val = state.v[y as usize];
        state.v.set(x as usize, val);
    }
    let low = state.v[x as usize] & 0x1;
    state.v.set(15, low);
    let shifted = state.v[x as usize] >> 1;
    state.v.set(x as usize, shifted);
    proof {
        assert(state@ =~= spec_shr(old(state)@, x as int, y as int, shift_quirk));
    }
    Ok(())
}

/// Subtract Vx from Vy into Vx, wrapping; the flag register receives NOT
/// borrow.
pub fn subn_vy_vx(state: &mut ChipState, x: u8, y: u8) -> (r: Result<(), ExecError>)
    requires
        old(state)@.wf(),
        x < 16,
        y < 16,
    ensures
        final(state)@ == spec_subn_vy_vx(old(state)@, x as int, y as int),
        final(state)@.wf(),
        r == Ok::<(), ExecError>(()),
{
    let a = state.v[y as usize];
    let b = state.v[x as usize];
    let res: u8 = if a >= b {
        a - b
    } else {
        ((a as u16 + 256 - b as u16) % 256) as u8
    };
    let no_borrow: u8 = if a >= b { 1 } else { 0 };
    state.v.set(x as usize, res);
    state.v.set(15, no_borrow);
    proof {
        assert(state@ =~= spec_subn_vy_vx(old(state)@, x as int, y as int));
    }
    Ok(())
}

/// Shift Vx left by one; with the quirk off, Vx first mirrors Vy. The flag
/// register receives the bit shifted out, in either mode.
pub fn shl(state: &mut ChipState, x: u8, y: u8, shift_quirk: bool) -> (r: Result<(), ExecError>)
    requires
        old(state)@.wf(),
        x < 16,
        y < 16,
    ensures
        final(state)@ == spec_shl(old(state)@, x as int, y as int, shift_quirk),
        final(state)@.wf(),
        r == Ok::<(), ExecError>(()),
{
    if !shift_quirk {
        let val = state.v[y as usize];
        state.v.set(x as usize, val);
    }
    let high = (state.v[x as usize] & 0x80) >> 7;
    state.v.set(15, high);
    let shifted = state.v[x as usize] << 1;
    state.v.set(x as usize, shifted);
    proof {
        assert(state@ =~= spec_shl(old(state)@, x as int, y as int, shift_quirk));
    }
    Ok(())
}

/// Skip the next instruction if Vx differs from Vy.
pub fn sne_vx_vy(state: &mut ChipState, x: u8, y: u8) -> (r: Result<(), ExecError>)
    requires
        old(state)@.wf(),
        x < 16,
        y < 16,
        old(state)@.pc + 2 <= u16::MAX,
    ensures
        final(state)@ == spec_skip_if(old(state)@, old(state)@.v[x as int] != old(state)@.v[y as int]),
        final(state)@.wf(),
        r == Ok::<(), ExecError>(()),
{
    if state.v[x as usize] != state.v[y as usize] {
        state.pc = state.pc + 2;
    }
    Ok(())
}

/// Load an address into the index register.
pub fn ld_i(state: &mut ChipState, addr: u16) -> (r: Result<(), ExecError>)
    requires
        old(state)@.wf(),
    ensures
        final(state)@ == (ChipView { i: addr, ..old(state)@ }),
        final(state)@.wf(),
        r == Ok::<(), ExecError>(()),
{
    state.i = addr;
    Ok(())
}

/// Jump to the given address plus V0.
pub fn jp0(state: &mut ChipState, addr: u16) -> (r: Result<(), ExecError>)
    requires
        old(state)@.wf(),
        addr < MEM_SIZE,
    ensures
        final(state)@ == spec_jp0(old(state)@, addr),
        final(state)@.wf(),
        r == Ok::<(), ExecError>(()),
{
    state.pc = addr + state.v[0] as u16;
    state.jump_flag = true;
    proof {
        assert(state@ =~= spec_jp0(old(state)@, addr));
    }
    Ok(())
}

/// Load a random byte masked by the immediate into Vx. The sampled byte is
/// arbitrary; whatever it was, Vx holds it masked by `byte`.
pub fn rnd(state: &mut ChipState, x: u8, byte: u8) -> (r: Result<(), ExecError>)
    requires
        old(state)@.wf(),
        x < 16,
    ensures
        exists|rb: u8| final(state)@ == spec_rnd(old(state)@, x as int, byte, rb),
        final(state)@.v[x as int] & byte == final(state)@.v[x as int],
        final(state)@.wf(),
        r == Ok::<(), ExecError>(()),
{
    let rb: u8 = random_byte();
    state.v.set(x as usize, rb & byte);
    proof {
        assert(state@ == spec_rnd(old(state)@, x as int, byte, rb));
        assert((rb & byte) & byte == rb & byte) by (bit_vector);
    }
    Ok(())
}

/// Skip the next instruction if the key indexed by Vx is pressed.
pub fn skp_vx(state: &mut ChipState, x: u8) -> (r: Result<(), ExecError>)
    requires
        old(state)@.wf(),
        x < 16,
        old(state)@.v[x as int] < NUM_KEYS,
        old(state)@.pc + 2 <= u16::MAX,
    ensures
        final(state)@ == spec_skip_if(old(state)@, old(state)@.keypad[old(state)@.v[x as int] as int]),
        final(state)@.wf(),
        r == Ok::<(), ExecError>(()),
{
    if state.keypad[state.v[x as usize] as usize] {
        state.pc = state.pc + 2;
    }
    Ok(())
}

/// Skip the next instruction if the key indexed by Vx is not pressed.
pub fn sknp_vx(state: &mut ChipState, x: u8) -> (r: Result<(), ExecError>)
    requires
        old(state)@.wf(),
        x < 16,
        old(state)@.v[x as int] < NUM_KEYS,
        old(state)@.pc + 2 <= u16::MAX,
    ensures
        final(state)@ == spec_skip_if(old(state)@, !old(state)@.keypad[old(state)@.v[x as int] as int]),
        final(state)@.wf(),
        r == Ok::<(), ExecError>(()),
{
    if !state.keypad[state.v[x as usize] as usize] {
        state.pc = state.pc + 2;
    }
    Ok(())
}

/// Load Vx into the delay timer.
pub fn ld_dt_vx(state: &mut ChipState, x: u8) -> (r: Result<(), ExecError>)
    requires
        old(state)@.wf(),
        x < 16,
    ensures
        final(state)@ == (ChipView { delay_timer: old(state)@.v[x as int], ..old(state)@ }),
        final(state)@.wf(),
        r == Ok::<(), ExecError>(()),
{
    state.delay_timer = state.v[x as usize];
    Ok(())
}

/// Load the delay timer into Vx.
pub fn ld_vx_dt(state: &mut ChipState, x: u8) -> (r: Result<(), ExecError>)
    requires
        old(state)@.wf(),
        x < 16,
    ensures
        final(state)@ == upd_v(old(state)@, x as int, old(state)@.delay_timer),
        final(state)@.wf(),
        r == Ok::<(), ExecError>(()),
{
    let val = state.delay_timer;
    state.v.set(x as usize, val);
    Ok(())
}

/// Load Vx into the sound timer.
pub fn ld_st_vx(state: &mut ChipState, x: u8) -> (r: Result<(), ExecError>)
    requires
        old(state)@.wf(),
        x < 16,
    ensures
        final(state)@ == (ChipView { sound_timer: old(state)@.v[x as int], ..old(state)@ }),
        final(state)@.wf(),
        r == Ok::<(), ExecError>(()),
{
    state.sound_timer = state.v[x as usize];
    Ok(())
}

/// Add Vx to the index register.
pub fn add_i_vx(state: &mut ChipState, x: u8) -> (r: Result<(), ExecError>)
    requires
        old(state)@.wf(),
        x < 16,
        old(state)@.i + old(state)@.v[x as int] <= u16::MAX,
    ensures
        final(state)@ == (ChipView {
            i: (old(state)@.i + old(state)@.v[x as int]) as u16,
            ..old(state)@
        }),
        final(state)@.wf(),
        r == Ok::<(), ExecError>(()),
{
    state.i = state.i + state.v[x as usize] as u16;
    Ok(())
}

/// Point the index register at the font sprite for the digit in Vx.
pub fn ld_f_vx(state: &mut ChipState, x: u8) -> (r: Result<(), ExecError>)
    requires
        old(state)@.wf(),
        x < 16,
    ensures
        final(state)@ == (ChipView {
            i: (old(state)@.v[x as int] * 5) as u16,
            ..old(state)@
        }),
        final(state)@.wf(),
        r == Ok::<(), ExecError>(()),
{
    state.i = state.v[x as usize] as u16 * 5;
    Ok(())
}

/// Write the decimal digits of Vx to memory at the index register.
pub fn ld_b_vx(state: &mut ChipState, x: u8) -> (r: Result<(), ExecError>)
    requires
        old(state)@.wf(),
        x < 16,
        old(state)@.i + 3 <= MEM_SIZE,
    ensures
        final(state)@ == spec_ld_b_vx(old(state)@, x as int),
        final(state)@.wf(),
        r == Ok::<(), ExecError>(()),
{
    let vx = state.v[x as usize];
    let base = state.i as usize;
    state.memory.set(base, vx / 100);
    state.memory.set(base + 1, (vx / 10) % 10);
    state.memory.set(base + 2, vx % 10);
    proof {
        assert(state@ =~= spec_ld_b_vx(old(state)@, x as int));
    }
    Ok(())
}

/// Dump registers V0..=Vx to memory at the index register, which ends just
/// past the block.
pub fn ld_i_vx(state: &mut ChipState, x: u8) -> (r: Result<(), ExecError>)
    requires
        old(state)@.wf(),
        x < 16,
        old(state)@.i + x + 1 <= MEM_SIZE,
    ensures
        final(state)@ == spec_ld_i_vx(old(state)@, x as int),
        final(state)@.wf(),
        r == Ok::<(), ExecError>(()),
{
    let mut k: usize = 0;
    while k <= x as usize
        invariant
            old(state)@.wf(),
            x < 16,
            old(state)@.i + x + 1 <= MEM_SIZE,
            k <= x + 1,
            state.i == old(state)@.i + k,
            state.memory@.len() == MEM_SIZE,
            forall|a: int| 0 <= a < MEM_SIZE && !(old(state)@.i <= a < old(state)@.i + k)
                ==> state.memory@[a] == old(state)@.memory[a],
            forall|a: int| old(state)@.i <= a < old(state)@.i + k
                ==> state.memory@[a] == old(state)@.v[a - old(state)@.i],
            state.v == old(state).v,
            state.pc == old(state).pc,
            state.sp == old(state).sp,
            state.stack == old(state).stack,
            state.delay_timer == old(state).delay_timer,
            state.sound_timer == old(state).sound_timer,
            state.display == old(state).display,
            state.keypad == old(state).keypad,
            state.jump_flag == old(state).jump_flag,
            state.draw_flag == old(state).draw_flag,
            state.keyboard_halt == old(state).keyboard_halt,
        decreases x + 1 - k,
    {
        let val = state.v[k];
        state.memory.set(state.i as usize, val);
        state.i = state.i + 1;
        k = k + 1;
    }
    proof {
        assert(state@.memory =~= stored_regs(old(state)@.memory, old(state)@.v, old(state)@.i as int, x as int));
        assert(state@ =~= spec_ld_i_vx(old(state)@, x as int));
    }
    Ok(())
}

/// Load registers V0..=Vx from memory at the index register, which ends
/// just past the block.
pub fn ld_vx_i(state: &mut ChipState, x: u8) -> (r: Result<(), ExecError>)
    requires
        old(state)@.wf(),
        x < 16,
        old(state)@.i + x + 1 <= MEM_SIZE,
    ensures
        final(state)@ == spec_ld_vx_i(old(state)@, x as int),
        final(state)@.wf(),
        r == Ok::<(), ExecError>(()),
{
    let mut k: usize = 0;
    while k <= x as usize
        invariant
            old(state)@.wf(),
            x < 16,
            old(state)@.i + x + 1 <= MEM_SIZE,
            k <= x + 1,
            state.i == old(state)@.i + k,
            state.v@.len() == NUM_REGS,
            forall|j: int| 0 <= j < NUM_REGS && !(j < k)
                ==> state.v@[j] == old(state)@.v[j],
            forall|j: int| 0 <= j < k
                ==> state.v@[j] == old(state)@.memory[old(state)@.i + j],
            state.memory == old(state).memory,
            state.pc == old(state).pc,
            state.sp == old(state).sp,
            state.stack == old(state).stack,
            state.delay_timer == old(state).delay_timer,
            state.sound_timer == old(state).sound_timer,
            state.display == old(state).display,
            state.keypad == old(state).keypad,
            state.jump_flag == old(state).jump_flag,
            state.draw_flag == old(state).draw_flag,
            state.keyboard_halt == old(state).keyboard_halt,
        decreases x + 1 - k,
    {
        let val = state.memory[state.i as usize];
        state.v.set(k, val);
        state.i = state.i + 1;
        k = k + 1;
    }
    proof {
        assert(state@.v =~= loaded_regs(old(state)@.v, old(state)@.memory, old(state)@.i as int, x as int));
        assert(state@ =~= spec_ld_vx_i(old(state)@, x as int));
    }
    Ok(())
}

/// Whether a set sprite bit strictly before row `yl`, column `xl` of the
/// row-by-row sprite scan lands on the wrapped position `(px, py)`.
spec fn covers_upto(mem: Seq<u8>, i: int, x0: int, y0: int, yl: int, xl: int, px: int, py: int) -> bool {
    exists|r: int, c: int|
        0 <= r && 0 <= c < 8 && (r < yl || (r == yl && c < xl))
        && #[trigger] sprite_pixel_set(mem[i + r], c)
        && px == (x0 + c) % (DISPLAY_WIDTH as int)
        && py == (y0 + r) % (DISPLAY_HEIGHT as int)
}

/// Adding distinct offsets smaller than the modulus to the same base gives
/// distinct residues.
proof fn lemma_mod_add_distinct(a: int, d1: int, d2: int, m: int)
    requires
        0 <= a,
        0 <= d1 < d2,
        d2 - d1 < m,
    ensures
        (a + d1) % m != (a + d2) % m,
{
    vstd::arithmetic::div_mod::lemma_mod_equivalence(a + d2, a + d1, m);
    vstd::arithmetic::div_mod::lemma_small_mod((d2 - d1) as nat, m as nat);
}

/// The cell a sprite bit lands on is not hit by any earlier bit of the same
/// scan: earlier rows wrap to different vertical positions (a sprite is at
/// most 15 rows high, the display 32), and earlier columns of the same row
/// wrap to different horizontal positions (a row is 8 bits, the display 64).
proof fn lemma_target_fresh(mem: Seq<u8>, i: int, x0: int, y0: int, n: int, yl: int, xl: int)
    requires
        0 <= x0,
        0 <= y0,
        0 <= yl < n <= 15,
        0 <= xl < 8,
    ensures
        !covers_upto(mem, i, x0, y0, yl, xl,
            (x0 + xl) % (DISPLAY_WIDTH as int), (y0 + yl) % (DISPLAY_HEIGHT as int)),
{
    let px = (x0 + xl) % (DISPLAY_WIDTH as int);
    let py = (y0 + yl) % (DISPLAY_HEIGHT as int);
    if covers_upto(mem, i, x0, y0, yl, xl, px, py) {
        let (r, c) = choose|r: int, c: int|
            0 <= r && 0 <= c < 8 && (r < yl || (r == yl && c < xl))
            && #[trigger] sprite_pixel_set(mem[i + r], c)
            && px == (x0 + c) % (DISPLAY_WIDTH as int)
            && py == (y0 + r) % (DISPLAY_HEIGHT as int);
        if r == yl {
            lemma_mod_add_distinct(x0, c, xl, 64);
        } else {
            lemma_mod_add_distinct(y0, r, yl, 32);
        }
        assert(false);
    }
}


/// Draw an n-row sprite from the index register at (Vx, Vy): every set
/// sprite bit is XORed into the framebuffer at its per-pixel wrapped
/// position, the flag register reports whether any set pixel was turned
/// off, and the draw flag is marked.
pub fn drw(state: &mut ChipState, x: u8, y: u8, n: u8) -> (r: Result<(), ExecError>)
    requires
        old(state)@.wf(),
        x < 16,
        y < 16,
        n < 16,
        old(state)@.i + n <= MEM_SIZE,
    ensures
        final(state)@ == spec_drw(old(state)@, x as int, y as int, n as int),
        final(state)@.wf(),
        r == Ok::<(), ExecError>(()),
{
    state.draw_flag = true;
    let x0 = state.v[x as usize] as usize;
    let y0 = state.v[y as usize] as usize;
    state.v.set(15, 0);
    let mut yl: usize = 0;
    while yl < n as usize
        invariant
            old(state)@.wf(),
            x < 16,
            y < 16,
            n < 16,
            old(state)@.i + n <= MEM_SIZE,
            x0 == old(state)@.v[x as int],
            y0 == old(state)@.v[y as int],
            yl <= n,
            state.memory == old(state).memory,
            state.i == old(state).i,
            state.pc == old(state).pc,
            state.sp == old(state).sp,
            state.stack == old(state).stack,
            state.delay_timer == old(state).delay_timer,
            state.sound_timer == old(state).sound_timer,
            state.keypad == old(state).keypad,
            state.jump_flag == old(state).jump_flag,
            state.draw_flag == true,
            state.keyboard_halt == old(state).keyboard_halt,
            state.v@.len() == NUM_REGS,
            state.v@[15] == 0 || state.v@[15] == 1,
            state.v@ == old(state)@.v.update(15, state.v@[15]),
            state.display@.len() == DISPLAY_LEN,
            forall|p: int| 0 <= p < DISPLAY_LEN ==>
                state.display@[p] == (if covers_upto(old(state)@.memory, old(state)@.i as int,
                        x0 as int, y0 as int, yl as int, 0, p % 64, p / 64) {
                    old(state)@.display[p] ^ 1
                } else {
                    old(state)@.display[p]
                }),
            (state.v@[15] == 1) <==> (exists|p: int| 0 <= p < DISPLAY_LEN
                && #[trigger] covers_upto(old(state)@.memory, old(state)@.i as int,
                    x0 as int, y0 as int, yl as int, 0, p % 64, p / 64)
                && old(state)@.display[p] == 1),
        decreases n - yl,
    {
        let pixel = state.memory[state.i as usize + yl];
        let mut xl: usize = 0;
        while xl < 8
            invariant
                old(state)@.wf(),
                x < 16,
                y < 16,
                n < 16,
                old(state)@.i + n <= MEM_SIZE,
                x0 == old(state)@.v[x as int],
                y0 == old(state)@.v[y as int],
                yl < n,
                xl <= 8,
                pixel == old(state)@.memory[old(state)@.i + yl],
                state.memory == old(state).memory,
                state.i == old(state).i,
                state.pc == old(state).pc,
                state.sp == old(state).sp,
                state.stack == old(state).stack,
                state.delay_timer == old(state).delay_timer,
                state.sound_timer == old(state).sound_timer,
                state.keypad == old(state).keypad,
                state.jump_flag == old(state).jump_flag,
                state.draw_flag == true,
                state.keyboard_halt == old(state).keyboard_halt,
                state.v@.len() == NUM_REGS,
                state.v@[15] == 0 || state.v@[15] == 1,
                state.v@ == old(state)@.v.update(15, state.v@[15]),
                state.display@.len() == DISPLAY_LEN,
                forall|p: int| 0 <= p < DISPLAY_LEN ==>
                    state.display@[p] == (if covers_upto(old(state)@.memory, old(state)@.i as int,
                            x0 as int, y0 as int, yl as int, xl as int, p % 64, p / 64) {
                        old(state)@.display[p] ^ 1
                    } else {
                        old(state)@.display[p]
                    }),
                (state.v@[15] == 1) <==> (exists|p: int| 0 <= p < DISPLAY_LEN
                    && #[trigger] covers_upto(old(state)@.memory, old(state)@.i as int,
                        x0 as int, y0 as int, yl as int, xl as int, p % 64, p / 64)
                    && old(state)@.display[p] == 1),
            decreases 8 - xl,
        {
            let ghost mem = old(state)@.memory;
            let ghost i0 = old(state)@.i as int;
            if pixel & (0x80u8 >> (xl as u8)) != 0 {
                let px = (x0 + xl) % 64;
                let py = (y0 + yl) % 32;
                let idx = py * 64 + px;
                proof {
                    vstd::arithmetic::div_mod::lemma_fundamental_div_mod_converse(
                        idx as int, 64, py as int, px as int);
                    lemma_target_fresh(mem, i0, x0 as int, y0 as int, n as int, yl as int, xl as int);
                    assert(sprite_pixel_set(mem[i0 + yl], xl as int));
                }
                let ghost vf_before = state.v@[15];
                if state.display[idx] == 1 {
                    state.v.set(15, 1);
                }
                let flipped = state.display[idx] ^ 1;
                state.display.set(idx, flipped);
                proof {
                    assert forall|p: int|
                        #![trigger covers_upto(mem, i0, x0 as int, y0 as int, yl as int, xl + 1, p % 64, p / 64)]
                        0 <= p < DISPLAY_LEN implies
                        (covers_upto(mem, i0, x0 as int, y0 as int, yl as int, xl + 1, p % 64, p / 64)
                        <==> (covers_upto(mem, i0, x0 as int, y0 as int, yl as int, xl as int, p % 64, p / 64)
                            || p == idx)) by {
                        vstd::arithmetic::div_mod::lemma_fundamental_div_mod(p, 64);
                        vstd::arithmetic::div_mod::lemma_mod_pos_bound(p, 64);
                        if p == idx {
                            assert(sprite_pixel_set(mem[i0 + yl], xl as int));
                            assert(covers_upto(mem, i0, x0 as int, y0 as int, yl as int, xl + 1,
                                p % 64, p / 64));
                        }
                    }
                    if state.v@[15] == 1 {
                        if vf_before == 1 {
                            let pw = choose|p: int| 0 <= p < DISPLAY_LEN
                                && #[trigger] covers_upto(mem, i0, x0 as int, y0 as int,
                                    yl as int, xl as int, p % 64, p / 64)
                                && old(state)@.display[p] == 1;
                            assert(covers_upto(mem, i0, x0 as int, y0 as int, yl as int, xl + 1,
                                pw % 64, pw / 64));
                        } else {
                            assert(old(state)@.display[idx as int] == 1);
                            assert(covers_upto(mem, i0, x0 as int, y0 as int, yl as int, xl + 1,
                                idx as int % 64, idx as int / 64));
                        }
                    }
                    if exists|p: int| 0 <= p < DISPLAY_LEN
                        && #[trigger] covers_upto(mem, i0, x0 as int, y0 as int,
                            yl as int, xl + 1, p % 64, p / 64)
                        && old(state)@.display[p] == 1 {
                        let pw = choose|p: int| 0 <= p < DISPLAY_LEN
                            && #[trigger] covers_upto(mem, i0, x0 as int, y0 as int,
                                yl as int, xl + 1, p % 64, p / 64)
                            && old(state)@.display[p] == 1;
                        if pw == idx {
                            assert(state.v@[15] == 1);
                        } else {
                            assert(covers_upto(mem, i0, x0 as int, y0 as int, yl as int,
                                xl as int, pw % 64, pw / 64));
                            assert(vf_before == 1);
                        }
                    }
                }
            } else {
                proof {
                    assert forall|p: int|
                        #![trigger covers_upto(mem, i0, x0 as int, y0 as int, yl as int, xl + 1, p % 64, p / 64)]
                        0 <= p < DISPLAY_LEN implies
                        (covers_upto(mem, i0, x0 as int, y0 as int, yl as int, xl + 1, p % 64, p / 64)
                        <==> covers_upto(mem, i0, x0 as int, y0 as int, yl as int, xl as int, p % 64, p / 64)) by {
                        assert(!sprite_pixel_set(mem[i0 + yl], xl as int));
                    }
                    if state.v@[15] == 1 {
                        let pw = choose|p: int| 0 <= p < DISPLAY_LEN
                            && #[trigger] covers_upto(mem, i0, x0 as int, y0 as int,
                                yl as int, xl as int, p % 64, p / 64)
                            && old(state)@.display[p] == 1;
                        assert(covers_upto(mem, i0, x0 as int, y0 as int, yl as int, xl + 1,
                            pw % 64, pw / 64));
                    }
                    if exists|p: int| 0 <= p < DISPLAY_LEN
                        && #[trigger] covers_upto(mem, i0, x0 as int, y0 as int,
                            yl as int, xl + 1, p % 64, p / 64)
                        && old(state)@.display[p] == 1 {
                        let pw = choose|p: int| 0 <= p < DISPLAY_LEN
                            && #[trigger] covers_upto(mem, i0, x0 as int, y0 as int,
                                yl as int, xl + 1, p % 64, p / 64)
                            && old(state)@.display[p] == 1;
                        assert(covers_upto(mem, i0, x0 as int, y0 as int, yl as int, xl as int,
                            pw % 64, pw / 64));
                    }
                }
            }
            xl = xl + 1;
        }
        proof {
            let mem = old(state)@.memory;
            let i0 = old(state)@.i as int;
            assert forall|p: int|
                #![trigger covers_upto(mem, i0, x0 as int, y0 as int, yl + 1, 0, p % 64, p / 64)]
                0 <= p < DISPLAY_LEN implies
                (covers_upto(mem, i0, x0 as int, y0 as int, yl + 1, 0, p % 64, p / 64)
                <==> covers_upto(mem, i0, x0 as int, y0 as int, yl as int, 8, p % 64, p / 64)) by {
            }
            if state.v@[15] == 1 {
                let pw = choose|p: int| 0 <= p < DISPLAY_LEN
                    && #[trigger] covers_upto(mem, i0, x0 as int, y0 as int,
                        yl as int, 8, p % 64, p / 64)
                    && old(state)@.display[p] == 1;
                assert(covers_upto(mem, i0, x0 as int, y0 as int, yl + 1, 0, pw % 64, pw / 64));
            }
            if exists|p: int| 0 <= p < DISPLAY_LEN
                && #[trigger] covers_upto(mem, i0, x0 as int, y0 as int,
                    yl + 1, 0, p % 64, p / 64)
                && old(state)@.display[p] == 1 {
                let pw = choose|p: int| 0 <= p < DISPLAY_LEN
                    && #[trigger] covers_upto(mem, i0, x0 as int, y0 as int,
                        yl + 1, 0, p % 64, p / 64)
                    && old(state)@.display[p] == 1;
                assert(covers_upto(mem, i0, x0 as int, y0 as int, yl as int, 8, pw % 64, pw / 64));
            }
        }
        yl = yl + 1;
    }
    proof {
        let mem = old(state)@.memory;
        let i0 = old(state)@.i as int;
        assert forall|p: int|
            #![trigger covers(mem, i0, x0 as int, y0 as int, n as int, p % 64, p / 64)]
            0 <= p < DISPLAY_LEN implies
            (covers_upto(mem, i0, x0 as int, y0 as int, n as int, 0, p % 64, p / 64)
            <==> covers(mem, i0, x0 as int, y0 as int, n as int, p % 64, p / 64)) by {
        }
        assert(state@.display =~= drawn_display(old(state)@.display, mem, i0, x0 as int, y0 as int,
            n as int));
        if state.v@[15] == 1 {
            let pw = choose|p: int| 0 <= p < DISPLAY_LEN
                && #[trigger] covers_upto(mem, i0, x0 as int, y0 as int,
                    n as int, 0, p % 64, p / 64)
                && old(state)@.display[p] == 1;
            assert(covers(mem, i0, x0 as int, y0 as int, n as int, pw % 64, pw / 64));
        }
        if draw_collision(old(state)@.display, mem, i0, x0 as int, y0 as int, n as int) {
            let pw = choose|p: int| 0 <= p < DISPLAY_LEN
                && #[trigger] covers(mem, i0, x0 as int, y0 as int,
                    n as int, p % 64, p / 64)
                && old(state)@.display[p] == 1;
            assert(covers_upto(mem, i0, x0 as int, y0 as int, n as int, 0, pw % 64, pw / 64));
        }
        assert((state.v@[15] == 1) <==> draw_collision(old(state)@.display, mem, i0, x0 as int,
            y0 as int, n as int));
        assert forall|p: int| 0 <= p < DISPLAY_LEN implies
            (state.display@[p] == 0 || state.display@[p] == 1) by {
            lemma_xor_one(old(state)@.display[p]);
        }
        assert(state@.v =~= old(state)@.v.update(15, state.v@[15]));
        assert(state@ =~= spec_drw(old(state)@, x as int, y as int, n as int));
    }
    Ok(())
}

/// Record the target register and suspend execution until a key resolves.
pub fn ld_vx_k(state: &mut ChipState, x: u8) -> (r: Result<(), ExecError>)
    requires
        old(state)@.wf(),
        x < 16,
    ensures
        final(state)@ == spec_ld_vx_k(old(state)@, x as int),
        final(state)@.wf(),
        r == Ok::<(), ExecError>(()),
{
    state.keyboard_halt = KeyboardHalt::Halt(x);
    Ok(())
}

/// Scroll down: extended-mode instruction, reported as not implemented.
#[allow(unused_variables)]
pub fn scd(state: &mut ChipState, n: u8) -> (r: Result<(), ExecError>)
    ensures
        final(state)@ == old(state)@,
        r == Err::<(), ExecError>(ExecError::NotImplemented),
{
    Err(ExecError::NotImplemented)
}

/// Scroll right: extended-mode instruction, reported as not implemented.
#[allow(unused_variables)]
pub fn scr(state: &mut ChipState) -> (r: Result<(), ExecError>)
    ensures
        final(state)@ == old(state)@,
        r == Err::<(), ExecError>(ExecError::NotImplemented),
{
    Err(ExecError::NotImplemented)
}

/// Scroll left: extended-mode instruction, reported as not implemented.
#[allow(unused_variables)]
pub fn scl(state: &mut ChipState) -> (r: Result<(), ExecError>)
    ensures
        final(state)@ == old(state)@,
        r == Err::<(), ExecError>(ExecError::NotImplemented),
{
    Err(ExecError::NotImplemented)
}

/// Exit the interpreter: extended-mode instruction, reported as not
/// implemented.
#[allow(unused_variables)]
pub fn exit(state: &mut ChipState) -> (r: Result<(), ExecError>)
    ensures
        final(state)@ == old(state)@,
        r == Err::<(), ExecError>(ExecError::NotImplemented),
{
    Err(ExecError::NotImplemented)
}

/// Disable extended screen mode: reported as not implemented.
#[allow(unused_variables)]
pub fn low(state: &mut ChipState) -> (r: Result<(), ExecError>)
    ensures
        final(state)@ == old(state)@,
        r == Err::<(), ExecError>(ExecError::NotImplemented),
{
    Err(ExecError::NotImplemented)
}

/// Enable extended screen mode: reported as not implemented.
#[allow(unused_variables)]
pub fn high(state: &mut ChipState) -> (r: Result<(), ExecError>)
    ensures
        final(state)@ == old(state)@,
        r == Err::<(), ExecError>(ExecError::NotImplemented),
{
    Err(ExecError::NotImplemented)
}

/// Draw an extended 16x16 sprite: reported as not implemented.
#[allow(unused_variables)]
pub fn drw_vx_vy_0(state: &mut ChipState, x: u8, y: u8) -> (r: Result<(), ExecError>)
    ensures
        final(state)@ == old(state)@,
        r == Err::<(), ExecError>(ExecError::NotImplemented),
{
    Err(ExecError::NotImplemented)
}

/// Point the index register at an extended font sprite: reported as not
/// implemented.
#[allow(unused_variables)]
pub fn ld_hf_vx(state: &mut ChipState, x: u8) -> (r: Result<(), ExecError>)
    ensures
        final(state)@ == old(state)@,
        r == Err::<(), ExecError>(ExecError::NotImplemented),
{
    Err(ExecError::NotImplemented)
}

/// Persist registers to storage: reported as not implemented.
#[allow(unused_variables)]
pub fn ld_r_vx(state: &mut ChipState, x: u8) -> (r: Result<(), ExecError>)
    ensures
        final(state)@ == old(state)@,
        r == Err::<(), ExecError>(ExecError::NotImplemented),
{
    Err(ExecError::NotImplemented)
}

/// Restore registers from storage: reported as not implemented.
#[allow(unused_variables)]
pub fn ld_vx_r(state: &mut ChipState, x: u8) -> (r: Result<(), ExecError>)
    ensures
        final(state)@ == old(state)@,
        r == Err::<(), ExecError>(ExecError::NotImplemented),
{
    Err(ExecError::NotImplemented)
}

} // verus!
