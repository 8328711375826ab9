//! The mathematical semantics: one pure transition per instruction, each a
//! function from a machine-state model to a machine-state model. The
//! executable instruction functions promise exactly these transitions.

use vstd::prelude::*;
use crate::state::{ChipView, KeyboardHalt, MEM_SIZE, NUM_REGS, NUM_KEYS, DISPLAY_WIDTH,
    DISPLAY_HEIGHT, DISPLAY_LEN};
use crate::opcode::{OpCode, spec_decode};

verus! {

/// A recoverable execution failure: the instruction is recognized but not
/// implemented, or the call stack cannot grow or shrink further.
#[derive(Debug, Clone, Copy, PartialEq, Eq, Structural)]
pub enum ExecError {
    NotImplemented,
    StackOverflow,
    StackUnderflow,
}

/// A state with register `x` set to `val`.
pub open spec fn upd_v(s: ChipView, x: int, val: u8) -> ChipView {
    ChipView { v: s.v.update(x, val), ..s }
}

/// Clear the display: every pixel zero.
pub open spec fn spec_cls(s: ChipView) -> ChipView {
    ChipView { display: Seq::new(DISPLAY_LEN as nat, |p: int| 0u8), ..s }
}

/// Return from a subroutine: pop the return address at the current stack
/// pointer, then decrement the pointer. Only meaningful when `sp >= 1`.
pub open spec fn spec_ret(s: ChipView) -> ChipView {
    ChipView { pc: s.stack[s.sp as int], sp: (s.sp - 1) as u8, ..s }
}

/// Jump: set pc to the target and assert the jump flag so the engine's
/// auto-advance is suppressed.
pub open spec fn spec_jp(s: ChipView, addr: u16) -> ChipView {
    ChipView { pc: addr, jump_flag: true, ..s }
}

/// Call: increment the stack pointer, store the current (pre-advance) pc
/// there, then jump. Only meaningful when `sp <= 14`.
pub open spec fn spec_call(s: ChipView, addr: u16) -> ChipView {
    ChipView {
        sp: (s.sp + 1) as u8,
        stack: s.stack.update(s.sp + 1, s.pc),
        pc: addr,
        jump_flag: true,
        ..s
    }
}

/// Conditional skip: advance pc by one extra instruction width when the
/// predicate holds; the jump flag is never set.
pub open spec fn spec_skip_if(s: ChipView, cond: bool) -> ChipView {
    ChipView { pc: if cond { (s.pc + 2) as u16 } else { s.pc }, ..s }
}

/// Add an immediate without carry: Vx = (Vx + kk) mod 256.
pub open spec fn spec_add_vx_byte(s: ChipView, x: int, kk: u8) -> ChipView {
    upd_v(s, x, ((s.v[x] + kk) % 256) as u8)
}

/// Bitwise OR: the flag register is zeroed first, then Vx |= Vy.
pub open spec fn spec_or_vx_vy(s: ChipView, x: int, y: int) -> ChipView {
    let v1 = s.v.update(15, 0u8);
    ChipView { v: v1.update(x, v1[x] | v1[y]), ..s }
}

/// Bitwise AND: the flag register is zeroed first, then Vx &= Vy.
pub open spec fn spec_and_vx_vy(s: ChipView, x: int, y: int) -> ChipView {
    let v1 = s.v.update(15, 0u8);
    ChipView { v: v1.update(x, v1[x] & v1[y]), ..s }
}

/// Bitwise XOR: the flag register is zeroed first, then Vx ^= Vy.
pub open spec fn spec_xor_vx_vy(s: ChipView, x: int, y: int) -> ChipView {
    let v1 = s.v.update(15, 0u8);
    ChipView { v: v1.update(x, v1[x] ^ v1[y]), ..s }
}

/// Carry add: Vx = (Vx + Vy) mod 256, then the flag register receives the
/// carry-out of the unsigned add.
pub open spec fn spec_add_vx_vy(s: ChipView, x: int, y: int) -> ChipView {
    let sum = s.v[x] + s.v[y];
    let carry: u8 = if sum > 255 { 1 } else { 0 };
    ChipView { v: s.v.update(x, (sum % 256) as u8).update(15, carry), ..s }
}

/// Borrow subtract: Vx = (Vx - Vy) mod 256, then the flag register receives
/// the logical NOT of the borrow (1 means no borrow occurred).
pub open spec fn spec_sub_vx_vy(s: ChipView, x: int, y: int) -> ChipView {
    let a = s.v[x];
    let b = s.v[y];
    let res: u8 = if a >= b { (a - b) as u8 } else { (a + 256 - b) as u8 };
    let no_borrow: u8 = if a >= b { 1 } else { 0 };
    ChipView { v: s.v.update(x, res).update(15, no_borrow), ..s }
}

/// Reverse borrow subtract: Vx = (Vy - Vx) mod 256, flag = NOT borrow.
pub open spec fn spec_subn_vy_vx(s: ChipView, x: int, y: int) -> ChipView {
    let a = s.v[y];
    let b = s.v[x];
    let res: u8 = if a >= b { (a - b) as u8 } else { (a + 256 - b) as u8 };
    let no_borrow: u8 = if a >= b { 1 } else { 0 };
    ChipView { v: s.v.update(x, res).update(15, no_borrow), ..s }
}

/// Shift right: with the quirk off, Vx first mirrors Vy; the flag register
/// receives the bit shifted out (the low bit), computed before the shift.
pub open spec fn spec_shr(s: ChipView, x: int, y: int, quirk: bool) -> ChipView {
    let v1 = if quirk { s.v } else { s.v.update(x, s.v[y]) };
    let v2 = v1.update(15, v1[x] & 1);
    ChipView { v: v2.update(x, v2[x] >> 1), ..s }
}

/// Shift left: with the quirk off, Vx first mirrors Vy; the flag register
/// receives the bit shifted out (the high bit), computed before the shift.
pub open spec fn spec_shl(s: ChipView, x: int, y: int, quirk: bool) -> ChipView {
    let v1 = if quirk { s.v } else { s.v.update(x, s.v[y]) };
    let v2 = v1.update(15, (v1[x] & 0x80) >> 7);
    ChipView { v: v2.update(x, v2[x] << 1), ..s }
}

/// Jump with offset: pc = nnn + V0, with the jump flag asserted.
pub open spec fn spec_jp0(s: ChipView, addr: u16) -> ChipView {
    ChipView { pc: (addr + s.v[0]) as u16, jump_flag: true, ..s }
}

/// Random: Vx = r & kk, where `r` is the byte the generator produced.
pub open spec fn spec_rnd(s: ChipView, x: int, kk: u8, r: u8) -> ChipView {
    upd_v(s, x, r & kk)
}

/// XOR with 1 flips a one-bit value.
pub proof fn lemma_xor_one(b: u8)
    by (bit_vector)
    requires
        b == 0 || b == 1,
    ensures
        b == 0 ==> b ^ 1 == 1,
        b == 1 ==> b ^ 1 == 0,
{
}

/// Whether bit `xl` (counted from the most significant) of a sprite byte is set.
pub open spec fn sprite_pixel_set(b: u8, xl: int) -> bool {
    b & (0x80u8 >> (xl as u8)) != 0
}

/// Whether the sprite of `n` rows at memory address `i`, drawn with its
/// origin at `(x0, y0)`, has a set bit whose final (per-pixel wrapped)
/// position is `(px, py)`.
pub open spec fn covers(mem: Seq<u8>, i: int, x0: int, y0: int, n: int, px: int, py: int) -> bool {
    exists|yl: int, xl: int|
        0 <= yl < n && 0 <= xl < 8
        && #[trigger] sprite_pixel_set(mem[i + yl], xl)
        && px == (x0 + xl) % (DISPLAY_WIDTH as int)
        && py == (y0 + yl) % (DISPLAY_HEIGHT as int)
}

/// The framebuffer after the sprite is XOR-blitted: every covered pixel is
/// flipped, every other pixel keeps its value.
pub open spec fn drawn_display(disp: Seq<u8>, mem: Seq<u8>, i: int, x0: int, y0: int, n: int) -> Seq<u8> {
    Seq::new(DISPLAY_LEN as nat, |p: int|
        if covers(mem, i, x0, y0, n, p % (DISPLAY_WIDTH as int), p / (DISPLAY_WIDTH as int)) {
            disp[p] ^ 1
        } else {
            disp[p]
        })
}

/// Whether the blit turns any already-set pixel off.
pub open spec fn draw_collision(disp: Seq<u8>, mem: Seq<u8>, i: int, x0: int, y0: int, n: int) -> bool {
    exists|p: int|
        0 <= p < DISPLAY_LEN
        && covers(mem, i, x0, y0, n, p % (DISPLAY_WIDTH as int), p / (DISPLAY_WIDTH as int))
        && disp[p] == 1
}

/// Sprite draw: XOR-blit `n` rows from the index register at
/// `(Vx mod 64, Vy mod 32)` with per-pixel wraparound, set the flag register
/// to 1 exactly when a set pixel was turned off, and mark the draw flag.
pub open spec fn spec_drw(s: ChipView, x: int, y: int, n: int) -> ChipView {
    let x0 = s.v[x] as int;
    let y0 = s.v[y] as int;
    let coll: u8 = if draw_collision(s.display, s.memory, s.i as int, x0, y0, n) { 1 } else { 0 };
    ChipView {
        display: drawn_display(s.display, s.memory, s.i as int, x0, y0, n),
        v: s.v.update(15, coll),
        draw_flag: true,
        ..s
    }
}

/// Memory after the block store: registers V0..=Vx written at `i`.
pub open spec fn stored_regs(mem: Seq<u8>, v: Seq<u8>, i: int, x: int) -> Seq<u8> {
    Seq::new(MEM_SIZE as nat, |a: int|
        if i <= a <= i + x { v[a - i] } else { mem[a] })
}

/// Register dump: V0..=Vx copied to memory at the index register, which is
/// left pointing just past the block.
pub open spec fn spec_ld_i_vx(s: ChipView, x: int) -> ChipView {
    ChipView {
        memory: stored_regs(s.memory, s.v, s.i as int, x),
        i: (s.i + x + 1) as u16,
        ..s
    }
}

/// Registers after the block load: V0..=Vx read from memory at `i`.
pub open spec fn loaded_regs(v: Seq<u8>, mem: Seq<u8>, i: int, x: int) -> Seq<u8> {
    Seq::new(NUM_REGS as nat, |k: int|
        if 0 <= k <= x { mem[i + k] } else { v[k] })
}

/// Register load: V0..=Vx read from memory at the index register, which is
/// left pointing just past the block.
pub open spec fn spec_ld_vx_i(s: ChipView, x: int) -> ChipView {
    ChipView {
        v: loaded_regs(s.v, s.memory, s.i as int, x),
        i: (s.i + x + 1) as u16,
        ..s
    }
}

/// Decimal decomposition: hundreds, tens and units of Vx written to three
/// consecutive memory cells at the index register.
pub open spec fn spec_ld_b_vx(s: ChipView, x: int) -> ChipView {
    let vx = s.v[x];
    ChipView {
        memory: s.memory
            .update(s.i as int, (vx / 100) as u8)
            .update(s.i as int + 1, ((vx / 10) % 10) as u8)
            .update(s.i as int + 2, (vx % 10) as u8),
        ..s
    }
}

/// Key wait: record the target register and suspend execution.
pub open spec fn spec_ld_vx_k(s: ChipView, x: int) -> ChipView {
    ChipView { keyboard_halt: KeyboardHalt::Halt(x as u8), ..s }
}

/// The lowest-indexed pressed key at or above index `k`, or `NUM_KEYS` if
/// none is pressed.
pub open spec fn lowest_pressed_from(keys: Seq<bool>, k: int) -> int
    decreases NUM_KEYS - k,
{
    if k < 0 || k >= NUM_KEYS {
        NUM_KEYS as int
    } else if keys[k] {
        k
    } else {
        lowest_pressed_from(keys, k + 1)
    }
}

/// The lowest-indexed pressed key, or `NUM_KEYS` if none is pressed.
pub open spec fn lowest_pressed(keys: Seq<bool>) -> int {
    lowest_pressed_from(keys, 0)
}

/// One step of the input-wait state machine: `Halt(x)` latches the
/// lowest-indexed pressed key into register `x` and waits for its release;
/// `WaitForRelease(x)` resumes exactly when the latched key is released.
pub open spec fn spec_advance_key_wait(s: ChipView) -> ChipView {
    match s.keyboard_halt {
        KeyboardHalt::Halt(x) => {
            let k = lowest_pressed(s.keypad);
            if k < NUM_KEYS {
                ChipView {
                    v: s.v.update(x as int, k as u8),
                    keyboard_halt: KeyboardHalt::WaitForRelease(x),
                    ..s
                }
            } else {
                s
            }
        },
        KeyboardHalt::WaitForRelease(x) => {
            if s.v[x as int] < NUM_KEYS && !s.keypad[s.v[x as int] as int] {
                ChipView { keyboard_halt: KeyboardHalt::Resume, ..s }
            } else {
                s
            }
        },
        KeyboardHalt::Resume => s,
    }
}

/// One 60 Hz timer step: both timers count down toward zero, never below.
pub open spec fn spec_timer_tick(s: ChipView) -> ChipView {
    ChipView {
        delay_timer: if s.delay_timer > 0 { (s.delay_timer - 1) as u8 } else { 0 },
        sound_timer: if s.sound_timer > 0 { (s.sound_timer - 1) as u8 } else { 0 },
        ..s
    }
}

/// The state after `n` 60 Hz timer steps.
pub open spec fn spec_timer_ticks(s: ChipView, n: nat) -> ChipView
    decreases n,
{
    if n == 0 {
        s
    } else {
        spec_timer_tick(spec_timer_ticks(s, (n - 1) as nat))
    }
}

/// The engine's program-counter advance after one instruction: add one
/// instruction width unless the instruction already set pc, reduce modulo
/// the memory size, and clear the jump flag.
pub open spec fn spec_advance(s: ChipView) -> ChipView {
    let stepped = if s.jump_flag { s.pc as int } else { s.pc + 2 };
    let wrapped = if stepped >= MEM_SIZE { stepped - MEM_SIZE } else { stepped };
    ChipView { pc: wrapped as u16, jump_flag: false, ..s }
}

/// The 16-bit instruction word at pc: two consecutive memory bytes,
/// big-endian.
pub open spec fn fetch_word(s: ChipView) -> u16 {
    ((s.memory[s.pc as int] as u16) << 8) | (s.memory[s.pc as int + 1] as u16)
}

/// The preconditions an instruction needs beyond well-formedness of the
/// state and of its own operand fields: memory and keypad accesses in
/// bounds, and arithmetic on pc and the index register free of overflow.
pub open spec fn exec_ok(s: ChipView, op: OpCode) -> bool {
    match op {
        OpCode::RET => s.sp >= 1 ==> s.stack[s.sp as int] + 2 <= u16::MAX,
        OpCode::SEVxByte(_x, _kk) => s.pc + 2 <= u16::MAX,
        OpCode::SNEVxByte(_x, _kk) => s.pc + 2 <= u16::MAX,
        OpCode::SEVxVy(_x, _y) => s.pc + 2 <= u16::MAX,
        OpCode::SNEVxVy(_x, _y) => s.pc + 2 <= u16::MAX,
        OpCode::SKPVx(x) => s.pc + 2 <= u16::MAX && s.v[x as int] < NUM_KEYS,
        OpCode::SKNPVx(x) => s.pc + 2 <= u16::MAX && s.v[x as int] < NUM_KEYS,
        OpCode::DRW(_x, _y, n) => s.i + n <= MEM_SIZE,
        OpCode::ADDIVx(x) => s.i + s.v[x as int] <= u16::MAX,
        OpCode::LDBVx(_x) => s.i + 3 <= MEM_SIZE,
        OpCode::LDIVx(x) => s.i + x + 1 <= MEM_SIZE,
        OpCode::LDVxI(x) => s.i + x + 1 <= MEM_SIZE,
        _ => true,
    }
}

/// Whether the engine may run one full cycle from this state without
/// leaving the defined behaviour: the two instruction bytes are in memory,
/// and whatever the word decodes to meets its own preconditions.
pub open spec fn spec_cycle_ready(s: ChipView) -> bool {
    &&& s.pc + 1 < MEM_SIZE
    &&& match spec_decode(fetch_word(s)) {
            Result::Ok(op) => exec_ok(s, op),
            Result::Err(_) => true,
        }
}

/// The outcome an execution step reports to the engine: nothing on success,
/// the failure otherwise.
pub open spec fn err_opt(r: Result<(), ExecError>) -> Option<ExecError> {
    match r {
        Result::Ok(_) => Option::None,
        Result::Err(e) => Option::Some(e),
    }
}

/// The full execution step for one decoded instruction: the successor state
/// and the reported outcome. `rb` is the byte the random generator produced;
/// it matters only to the random instruction.
pub open spec fn spec_execute(s: ChipView, op: OpCode, quirk: bool, rb: u8) -> (ChipView, Result<
    (),
    ExecError,
>) {
    match op {
        OpCode::CLS => (spec_cls(s), Ok(())),
        OpCode::RET => if s.sp >= 1 {
            (spec_ret(s), Ok(()))
        } else {
            (s, Err(ExecError::StackUnderflow))
        },
        OpCode::SYSADDR(addr) => (spec_jp(s, addr), Ok(())),
        OpCode::JP(addr) => (spec_jp(s, addr), Ok(())),
        OpCode::CALL(addr) => if s.sp < 15 {
            (spec_call(s, addr), Ok(()))
        } else {
            (s, Err(ExecError::StackOverflow))
        },
        OpCode::SEVxByte(x, kk) => (spec_skip_if(s, s.v[x as int] == kk), Ok(())),
        OpCode::SNEVxByte(x, kk) => (spec_skip_if(s, s.v[x as int] != kk), Ok(())),
        OpCode::SEVxVy(x, y) => (spec_skip_if(s, s.v[x as int] == s.v[y as int]), Ok(())),
        OpCode::LDVxByte(x, kk) => (upd_v(s, x as int, kk), Ok(())),
        OpCode::ADDVxByte(x, kk) => (spec_add_vx_byte(s, x as int, kk), Ok(())),
        OpCode::LDVxVy(x, y) => (upd_v(s, x as int, s.v[y as int]), Ok(())),
        OpCode::ORVxVy(x, y) => (spec_or_vx_vy(s, x as int, y as int), Ok(())),
        OpCode::ANDVxVy(x, y) => (spec_and_vx_vy(s, x as int, y as int), Ok(())),
        OpCode::XORVxVy(x, y) => (spec_xor_vx_vy(s, x as int, y as int), Ok(())),
        OpCode::ADDVxVy(x, y) => (spec_add_vx_vy(s, x as int, y as int), Ok(())),
        OpCode::SUBVxVy(x, y) => (spec_sub_vx_vy(s, x as int, y as int), Ok(())),
        OpCode::SHRVyVx(x, y) => (spec_shr(s, x as int, y as int, quirk), Ok(())),
        OpCode::SUBNVyVx(x, y) => (spec_subn_vy_vx(s, x as int, y as int), Ok(())),
        OpCode::SHLVyVx(x, y) => (spec_shl(s, x as int, y as int, quirk), Ok(())),
        OpCode::SNEVxVy(x, y) => (spec_skip_if(s, s.v[x as int] != s.v[y as int]), Ok(())),
        OpCode::LDI(addr) => (ChipView { i: addr, ..s }, Ok(())),
        OpCode::JP0(addr) => (spec_jp0(s, addr), Ok(())),
        OpCode::RND(x, kk) => (spec_rnd(s, x as int, kk, rb), Ok(())),
        OpCode::DRW(x, y, n) => (spec_drw(s, x as int, y as int, n as int), Ok(())),
        OpCode::SKPVx(x) => (spec_skip_if(s, s.keypad[s.v[x as int] as int]), Ok(())),
        OpCode::SKNPVx(x) => (spec_skip_if(s, !s.keypad[s.v[x as int] as int]), Ok(())),
        OpCode::LDDTVx(x) => (ChipView { delay_timer: s.v[x as int], ..s }, Ok(())),
        OpCode::LDVxDT(x) => (upd_v(s, x as int, s.delay_timer), Ok(())),
        OpCode::LDSTVx(x) => (ChipView { sound_timer: s.v[x as int], ..s }, Ok(())),
        OpCode::ADDIVx(x) => (ChipView { i: (s.i + s.v[x as int]) as u16, ..s }, Ok(())),
        OpCode::LDFVx(x) => (ChipView { i: (s.v[x as int] * 5) as u16, ..s }, Ok(())),
        OpCode::LDBVx(x) => (spec_ld_b_vx(s, x as int), Ok(())),
        OpCode::LDIVx(x) => (spec_ld_i_vx(s, x as int), Ok(())),
        OpCode::LDVxI(x) => (spec_ld_vx_i(s, x as int), Ok(())),
        OpCode::LDVxK(x) => (spec_ld_vx_k(s, x as int), Ok(())),
        OpCode::SCD(_n) => (s, Err(ExecError::NotImplemented)),
        OpCode::SCR => (s, Err(ExecError::NotImplemented)),
        OpCode::SCL => (s, Err(ExecError::NotImplemented)),
        OpCode::EXIT => (s, Err(ExecError::NotImplemented)),
        OpCode::LOW => (s, Err(ExecError::NotImplemented)),
        OpCode::HIGH => (s, Err(ExecError::NotImplemented)),
        OpCode::DRWVxVy0(_x, _y) => (s, Err(ExecError::NotImplemented)),
        OpCode::LDHFVx(_x) => (s, Err(ExecError::NotImplemented)),
        OpCode::LDRVx(_x) => (s, Err(ExecError::NotImplemented)),
        OpCode::LDVxR(_x) => (s, Err(ExecError::NotImplemented)),
    }
}

} // verus!
