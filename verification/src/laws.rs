//! Laws of the instruction semantics, stated over the spec transitions and
//! proved once and for all: flag-register behaviour of arithmetic, logic
//! and shifts, sprite-draw round trips and wraparound, the key-wait state
//! machine, call/return, timer countdown and program-counter wraparound.

use vstd::prelude::*;
use crate::state::{ChipView, KeyboardHalt, MEM_SIZE, NUM_KEYS, DISPLAY_LEN};
use crate::semantics::{spec_add_vx_vy, spec_sub_vx_vy, spec_or_vx_vy, spec_and_vx_vy,
    spec_xor_vx_vy, spec_shr, spec_shl, spec_jp0, spec_call, spec_ret, spec_advance,
    spec_ld_vx_k, spec_advance_key_wait, spec_timer_ticks, covers,
    drawn_display, draw_collision, lemma_xor_one, lowest_pressed, lowest_pressed_from};

verus! {

/// The carry add sets the flag register to 1 exactly when the unsigned sum
/// exceeds 255, and (unless the destination is the flag register itself,
/// which the flag write overwrites) leaves the destination holding the sum
/// modulo 256.
pub proof fn lemma_add_sets_carry(s: ChipView, x: int, y: int)
    requires
        s.wf(),
        0 <= x < 16,
        0 <= y < 16,
    ensures
        spec_add_vx_vy(s, x, y).v[15] == (if s.v[x] + s.v[y] > 255 { 1u8 } else { 0u8 }),
        x != 15 ==> spec_add_vx_vy(s, x, y).v[x] == (s.v[x] + s.v[y]) % 256,
{
}

/// The borrow subtract sets the flag register to 1 exactly when no borrow
/// occurred (minuend at least subtrahend), and (unless the destination is
/// the flag register itself) leaves the destination holding the wrapped
/// difference.
pub proof fn lemma_sub_sets_not_borrow(s: ChipView, x: int, y: int)
    requires
        s.wf(),
        0 <= x < 16,
        0 <= y < 16,
    ensures
        spec_sub_vx_vy(s, x, y).v[15] == (if s.v[x] >= s.v[y] { 1u8 } else { 0u8 }),
        x != 15 ==> spec_sub_vx_vy(s, x, y).v[x] == (if s.v[x] >= s.v[y] {
            s.v[x] - s.v[y]
        } else {
            s.v[x] + 256 - s.v[y]
        }),
{
}

/// The logic operations always leave the flag register at 0, whatever the
/// operands hold and whatever their own result is, provided the destination
/// is not the flag register itself (writing there stores the result over
/// the cleared flag).
pub proof fn lemma_logic_clears_flag(s: ChipView, x: int, y: int)
    requires
        s.wf(),
        0 <= x < 16,
        0 <= y < 16,
        x != 15,
    ensures
        spec_or_vx_vy(s, x, y).v[15] == 0,
        spec_and_vx_vy(s, x, y).v[15] == 0,
        spec_xor_vx_vy(s, x, y).v[15] == 0,
{
}

/// Both shifts set the flag register to the bit actually shifted out of the
/// operand — low bit for the right shift, high bit for the left — in either
/// quirk mode; with the quirk off the operand is the source register Vy,
/// mirrored into the destination before the shift. The destination must not
/// be the flag register itself, which the flag write overwrites.
pub proof fn lemma_shift_flag_is_shifted_bit(s: ChipView, x: int, y: int, quirk: bool)
    requires
        s.wf(),
        0 <= x < 16,
        0 <= y < 16,
        x != 15,
    ensures
        ({
            let src = if quirk { s.v[x] } else { s.v[y] };
            &&& spec_shr(s, x, y, quirk).v[15] == src & 1
            &&& spec_shr(s, x, y, quirk).v[x] == src >> 1
            &&& spec_shl(s, x, y, quirk).v[15] == (src & 0x80) >> 7
            &&& spec_shl(s, x, y, quirk).v[x] == src << 1
        }),
{
}

/// Drawing the same sprite at the same position twice restores the
/// framebuffer: every covered pixel is flipped twice, every other pixel is
/// never touched.
pub proof fn lemma_draw_twice_restores(disp: Seq<u8>, mem: Seq<u8>, i: int, x0: int, y0: int, n: int)
    requires
        disp.len() == DISPLAY_LEN,
        forall|p: int| 0 <= p < DISPLAY_LEN ==> disp[p] == 0 || disp[p] == 1,
    ensures
        drawn_display(drawn_display(disp, mem, i, x0, y0, n), mem, i, x0, y0, n) == disp,
{
    let once = drawn_display(disp, mem, i, x0, y0, n);
    assert forall|p: int| 0 <= p < DISPLAY_LEN implies
        drawn_display(once, mem, i, x0, y0, n)[p] == disp[p] by {
        lemma_xor_one(disp[p]);
        lemma_xor_one(disp[p] ^ 1);
    }
    assert(drawn_display(once, mem, i, x0, y0, n) =~= disp);
}

/// The second draw of the same sprite reports a collision exactly where the
/// first draw turned a clear pixel on: on a framebuffer whose covered
/// region started clear, any sprite that sets a bit makes the second draw
/// report collision 1.
pub proof fn lemma_second_draw_collides(disp: Seq<u8>, mem: Seq<u8>, i: int, x0: int, y0: int, n: int)
    requires
        disp.len() == DISPLAY_LEN,
        forall|p: int| 0 <= p < DISPLAY_LEN ==> disp[p] == 0 || disp[p] == 1,
    ensures
        draw_collision(drawn_display(disp, mem, i, x0, y0, n), mem, i, x0, y0, n)
            <==> exists|p: int| 0 <= p < DISPLAY_LEN
                && #[trigger] covers(mem, i, x0, y0, n, p % 64, p / 64)
                && disp[p] == 0,
{
    let once = drawn_display(disp, mem, i, x0, y0, n);
    if draw_collision(once, mem, i, x0, y0, n) {
        let pw = choose|p: int| 0 <= p < DISPLAY_LEN
            && #[trigger] covers(mem, i, x0, y0, n, p % 64, p / 64)
            && once[p] == 1;
        lemma_xor_one(disp[pw]);
        assert(covers(mem, i, x0, y0, n, pw % 64, pw / 64) && disp[pw] == 0);
    }
    if exists|p: int| 0 <= p < DISPLAY_LEN
        && #[trigger] covers(mem, i, x0, y0, n, p % 64, p / 64)
        && disp[p] == 0 {
        let pw = choose|p: int| 0 <= p < DISPLAY_LEN
            && #[trigger] covers(mem, i, x0, y0, n, p % 64, p / 64)
            && disp[p] == 0;
        lemma_xor_one(disp[pw]);
        assert(once[pw] == 1);
        assert(draw_collision(once, mem, i, x0, y0, n));
    }
}

/// Per-pixel wraparound: a sprite whose first row has its second bit set,
/// drawn with its origin at the right edge (63, 0), covers the pixel at
/// x = 0 of the top row — not one past the edge.
pub proof fn lemma_draw_wraps_per_pixel(mem: Seq<u8>, i: int, n: int)
    requires
        0 < n,
        crate::semantics::sprite_pixel_set(mem[i], 1),
    ensures
        covers(mem, i, 63, 0, n, 0, 0),
{
    assert(crate::semantics::sprite_pixel_set(mem[i + 0], 1));
}

/// The key-wait instruction suspends execution: it records the target
/// register and moves the input-wait state machine from `Resume` to `Halt`.
pub proof fn lemma_key_wait_halts(s: ChipView, x: int)
    requires
        s.wf(),
        0 <= x < 16,
        s.keyboard_halt == KeyboardHalt::Resume,
    ensures
        spec_ld_vx_k(s, x).keyboard_halt == KeyboardHalt::Halt(x as u8),
{
}

/// The lowest-pressed-key search is sound: within the keypad it lands on a
/// pressed key with none pressed below it, and past the keypad exactly when
/// nothing is pressed.
pub proof fn lemma_lowest_pressed_sound(keys: Seq<bool>, from: int)
    requires
        keys.len() == NUM_KEYS,
        0 <= from <= NUM_KEYS,
    ensures
        from <= lowest_pressed_from(keys, from) <= NUM_KEYS,
        lowest_pressed_from(keys, from) < NUM_KEYS ==> keys[lowest_pressed_from(keys, from)],
        forall|j: int| from <= j < lowest_pressed_from(keys, from) ==> !keys[j],
    decreases NUM_KEYS - from,
{
    if from < NUM_KEYS && !keys[from] {
        lemma_lowest_pressed_sound(keys, from + 1);
    }
}

/// With the machine halted for a key and some key down, one input-wait step
/// latches the lowest-indexed pressed key into the target register and
/// moves on to waiting for that key's release.
pub proof fn lemma_key_wait_latches(s: ChipView, x: int)
    requires
        s.wf(),
        0 <= x < 16,
        s.keyboard_halt == KeyboardHalt::Halt(x as u8),
        exists|k: int| 0 <= k < NUM_KEYS && s.keypad[k],
    ensures
        ({
            let k = lowest_pressed(s.keypad);
            let t = spec_advance_key_wait(s);
            &&& 0 <= k < NUM_KEYS
            &&& s.keypad[k]
            &&& forall|j: int| 0 <= j < k ==> !s.keypad[j]
            &&& t.keyboard_halt == KeyboardHalt::WaitForRelease(x as u8)
            &&& t.v == s.v.update(x, k as u8)
        }),
{
    lemma_lowest_pressed_sound(s.keypad, 0);
    let kw = choose|k: int| 0 <= k < NUM_KEYS && s.keypad[k];
    let k = lowest_pressed(s.keypad);
    if k >= NUM_KEYS {
        assert(!s.keypad[kw]);
    }
}

/// While waiting for the latched key's release, an input-wait step resumes
/// exactly when that key is up; releasing any other key while the latched
/// key remains pressed does not resume execution.
pub proof fn lemma_key_wait_release(s: ChipView, x: int)
    requires
        s.wf(),
        0 <= x < 16,
        s.keyboard_halt == KeyboardHalt::WaitForRelease(x as u8),
        s.v[x] < NUM_KEYS,
    ensures
        !s.keypad[s.v[x] as int] ==> spec_advance_key_wait(s) == (ChipView {
            keyboard_halt: KeyboardHalt::Resume,
            ..s
        }),
        s.keypad[s.v[x] as int] ==> spec_advance_key_wait(s) == s,
{
}

/// A call followed immediately by a return brings the program counter to
/// the instruction right after the call, with the stack pointer back where
/// it was; both steps go through the engine's auto-advance.
pub proof fn lemma_call_ret_round_trip(s: ChipView, addr: u16)
    requires
        s.wf(),
        s.sp < 15,
        addr < MEM_SIZE,
        s.pc + 2 < MEM_SIZE,
    ensures
        ({
            let after_call = spec_advance(spec_call(s, addr));
            let after_ret = spec_advance(spec_ret(after_call));
            &&& after_call.pc == addr
            &&& after_call.sp == s.sp + 1
            &&& after_ret.pc == s.pc + 2
            &&& after_ret.sp == s.sp
            &&& after_ret.v == s.v
            &&& after_ret.memory == s.memory
        }),
{
}

/// After `n` 60 Hz steps with no intervening writes, each timer has gone
/// down by exactly `n`, clamped at zero.
pub proof fn lemma_timer_countdown(s: ChipView, n: nat)
    ensures
        spec_timer_ticks(s, n).delay_timer as int == (if s.delay_timer >= n {
            s.delay_timer - n
        } else {
            0
        }),
        spec_timer_ticks(s, n).sound_timer as int == (if s.sound_timer >= n {
            s.sound_timer - n
        } else {
            0
        }),
    decreases n,
{
    if n > 0 {
        lemma_timer_countdown(s, (n - 1) as nat);
    }
}

/// A jump whose target lies at or past the end of memory leaves the
/// program counter at the target reduced modulo the memory size once the
/// engine's advance has run: the offset jump is the one jump that can
/// aim past the end.
pub proof fn lemma_pc_wraparound(s: ChipView, addr: u16)
    requires
        s.wf(),
        addr < MEM_SIZE,
    ensures
        spec_advance(spec_jp0(s, addr)).pc == (addr + s.v[0]) % (MEM_SIZE as int),
{
    let t = addr + s.v[0];
    if t >= MEM_SIZE {
        vstd::arithmetic::div_mod::lemma_mod_sub_multiples_vanish(t, MEM_SIZE as int);
        vstd::arithmetic::div_mod::lemma_small_mod((t - MEM_SIZE) as nat, MEM_SIZE as nat);
    } else {
        vstd::arithmetic::div_mod::lemma_small_mod(t as nat, MEM_SIZE as nat);
    }
}

} // verus!
