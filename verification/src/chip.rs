//! The cycle engine: fetch, decode, execute, program-counter advance, the
//! input-wait state machine and the 60 Hz timer step. Real-time pacing and
//! all device I/O live outside; the engine is driven with plain values.

use vstd::prelude::*;
use crate::state::{ChipState, ChipView, KeyboardHalt, MEM_SIZE, NUM_KEYS, PROGRAM_START,
    loaded_memory};
use crate::opcode::{OpCode, ChipError, spec_decode, op_wf};
use crate::semantics::{ExecError, spec_execute, spec_advance, spec_advance_key_wait,
    spec_timer_tick, spec_cycle_ready, exec_ok, fetch_word, err_opt, lowest_pressed,
    lowest_pressed_from};
use crate::functions;

verus! {

/// Number of nanoseconds between two 60 Hz timer steps.
pub const TIMER_INTERVAL_NANOS: u64 = 16666666;

/// Number of bytes in the font table.
pub const FONT_BYTES: usize = 80;

/// The built-in font: sixteen 5-byte sprites for the hexadecimal digits,
/// seeded at the bottom of memory when a program is loaded.
pub open spec fn font_table() -> Seq<u8> {
    seq![
        0xF0u8, 0x90, 0x90, 0x90, 0xF0,
        0x20, 0x60, 0x20, 0x20, 0x70,
        0xF0, 0x10, 0xF0, 0x80, 0xF0,
        0xF0, 0x10, 0xF0, 0x10, 0xF0,
        0x90, 0x90, 0xF0, 0x10, 0x10,
        0xF0, 0x80, 0xF0, 0x10, 0xF0,
        0xF0, 0x80, 0xF0, 0x90, 0xF0,
        0xF0, 0x10, 0x20, 0x40, 0x40,
        0xF0, 0x90, 0xF0, 0x90, 0xF0,
        0xF0, 0x90, 0xF0, 0x10, 0xF0,
        0xF0, 0x90, 0xF0, 0x90, 0x90,
        0xE0, 0x90, 0xE0, 0x90, 0xE0,
        0xF0, 0x80, 0x80, 0x80, 0xF0,
        0xE0, 0x90, 0x90, 0x90, 0xE0,
        0xF0, 0x80, 0xF0, 0x80, 0xF0,
        0xF0, 0x80, 0xF0, 0x80, 0x80,
    ]
}

/// Memory with the font table written over its lowest bytes.
pub open spec fn font_overlay(mem: Seq<u8>) -> Seq<u8> {
    Seq::new(MEM_SIZE as nat, |a: int| if a < FONT_BYTES { font_table()[a] } else { mem[a] })
}

/// One execution step and the report it hands the engine.
pub open spec fn cycle_post(
    pre: ChipView,
    post: ChipView,
    op: OpCode,
    quirk: bool,
    rb: u8,
    r: Result<Option<ExecError>, ChipError>,
) -> bool {
    let (mid, fr) = spec_execute(pre, op, quirk, rb);
    post == spec_advance(mid) && r == Ok::<Option<ExecError>, ChipError>(err_opt(fr))
}

/// The machine together with its configuration: the clock speed the
/// surrounding application paces instructions at, and the shift quirk.
pub struct Chip {
    pub clock_speed: u64,
    pub state: ChipState,
    pub shift_quirk: bool,
}

impl Chip {
    /// A fresh machine with the given configuration.
    pub fn new(clock_speed: u64, shift_quirk: bool) -> (c: Chip)
        ensures
            c.state@ == ChipView::init(),
            c.state@.wf(),
            c.clock_speed == clock_speed,
            c.shift_quirk == shift_quirk,
    {
        Chip { clock_speed, state: ChipState::new(), shift_quirk }
    }

    /// Seed the font table at the bottom of memory.
    fn load_fonts(&mut self)
        requires
            old(self).state@.wf(),
        ensures
            final(self).state@ == (ChipView {
                memory: font_overlay(old(self).state@.memory),
                ..old(self).state@
            }),
            final(self).state@.wf(),
            final(self).clock_speed == old(self).clock_speed,
            final(self).shift_quirk == old(self).shift_quirk,
    {
        let fonts: [u8; 80] = [
            0xF0, 0x90, 0x90, 0x90, 0xF0,
            0x20, 0x60, 0x20, 0x20, 0x70,
            0xF0, 0x10, 0xF0, 0x80, 0xF0,
            0xF0, 0x10, 0xF0, 0x10, 0xF0,
            0x90, 0x90, 0xF0, 0x10, 0x10,
            0xF0, 0x80, 0xF0, 0x10, 0xF0,
            0xF0, 0x80, 0xF0, 0x90, 0xF0,
            0xF0, 0x10, 0x20, 0x40, 0x40,
            0xF0, 0x90, 0xF0, 0x90, 0xF0,
            0xF0, 0x90, 0xF0, 0x10, 0xF0,
            0xF0, 0x90, 0xF0, 0x90, 0x90,
            0xE0, 0x90, 0xE0, 0x90, 0xE0,
            0xF0, 0x80, 0x80, 0x80, 0xF0,
            0xE0, 0x90, 0x90, 0x90, 0xE0,
            0xF0, 0x80, 0xF0, 0x80, 0xF0,
            0xF0, 0x80, 0xF0, 0x80, 0x80,
        ];
        proof {
            assert(fonts@ =~= font_table());
        }
        let mut k: usize = 0;
        while k < FONT_BYTES
            invariant
                k <= FONT_BYTES,
                fonts@ == font_table(),
                self.state.memory@.len() == MEM_SIZE,
                forall|a: int| 0 <= a < k ==> self.state.memory@[a] == font_table()[a],
                forall|a: int| k <= a < MEM_SIZE ==> self.state.memory@[a] == old(self).state@.memory[a],
                self.state.v == old(self).state.v,
                self.state.i == old(self).state.i,
                self.state.pc == old(self).state.pc,
                self.state.sp == old(self).state.sp,
                self.state.stack == old(self).state.stack,
                self.state.delay_timer == old(self).state.delay_timer,
                self.state.sound_timer == old(self).state.sound_timer,
                self.state.display == old(self).state.display,
                self.state.keypad == old(self).state.keypad,
                self.state.jump_flag == old(self).state.jump_flag,
                self.state.draw_flag == old(self).state.draw_flag,
                self.state.keyboard_halt == old(self).state.keyboard_halt,
                self.clock_speed == old(self).clock_speed,
                self.shift_quirk == old(self).shift_quirk,
            decreases FONT_BYTES - k,
        {
            self.state.memory.set(k, fonts[k]);
            k = k + 1;
        }
        proof {
            assert(self.state@.memory =~= font_overlay(old(self).state@.memory));
            assert(self.state@ =~= (ChipView {
                memory: font_overlay(old(self).state@.memory),
                ..old(self).state@
            }));
        }
    }

    /// Reconstruct the machine state from scratch — all zero, pc at the
    /// program start, the font table pre-seeded — so that no stale
    /// transient flags survive.
    pub fn reset(&mut self)
        ensures
            final(self).state@ == (ChipView {
                memory: font_overlay(ChipView::init().memory),
                ..ChipView::init()
            }),
            final(self).state@.wf(),
            final(self).clock_speed == old(self).clock_speed,
            final(self).shift_quirk == old(self).shift_quirk,
    {
        self.state = ChipState::new();
        self.load_fonts();
    }

    /// Copy a program image in at the program start (truncated to the space
    /// left) and seed the font table.
    pub fn load_rom(&mut self, rom: Vec<u8>)
        requires
            old(self).state@.wf(),
        ensures
            final(self).state@ == (ChipView {
                memory: font_overlay(loaded_memory(old(self).state@.memory, rom@.take(
                    if rom@.len() <= MEM_SIZE - PROGRAM_START {
                        rom@.len() as int
                    } else {
                        MEM_SIZE - PROGRAM_START
                    },
                ))),
                ..old(self).state@
            }),
            final(self).state@.wf(),
            final(self).clock_speed == old(self).clock_speed,
            final(self).shift_quirk == old(self).shift_quirk,
    {
        self.state.load_rom(rom);
        self.load_fonts();
        proof {
            assert(self.state@ =~= (ChipView {
                memory: font_overlay(loaded_memory(old(self).state@.memory, rom@.take(
                    if rom@.len() <= MEM_SIZE - PROGRAM_START {
                        rom@.len() as int
                    } else {
                        MEM_SIZE - PROGRAM_START
                    },
                ))),
                ..old(self).state@
            }));
        }
    }

    /// Overwrite the keypad latch wholesale with the device's latest sample.
    pub fn set_key(&mut self, new_state: Vec<bool>)
        requires
            old(self).state@.wf(),
            new_state@.len() == NUM_KEYS,
        ensures
            final(self).state@ == (ChipView { keypad: new_state@, ..old(self).state@ }),
            final(self).state@.wf(),
            final(self).clock_speed == old(self).clock_speed,
            final(self).shift_quirk == old(self).shift_quirk,
    {
        self.state.keypad = new_state;
        proof {
            assert(self.state@ =~= (ChipView { keypad: self.state.keypad@, ..old(self).state@ }));
        }
    }

    /// Read the 16-bit instruction word at pc.
    pub fn fetch_opcode(&self) -> (r: u16)
        requires
            self.state@.wf(),
            self.state@.pc + 1 < MEM_SIZE,
        ensures
            r == fetch_word(self.state@),
    {
        let pc = self.state.pc as usize;
        let byte1 = self.state.memory[pc] as u16;
        let byte2 = self.state.memory[pc + 1] as u16;
        (byte1 << 8u16) | byte2
    }

    /// Decode an instruction word: a pure, total function of the nibble
    /// pattern.
    pub fn decode_opcode(&self, opcode: u16) -> (r: Result<OpCode, ChipError>)
        ensures
            r == spec_decode(opcode),
            r matches Ok(op) ==> op_wf(op),
    {
        proof {
            crate::opcode::lemma_field_bounds(opcode);
        }
        let x = ((opcode & 0x0F00) >> 8) as u8;
        let y = ((opcode & 0x00F0) >> 4) as u8;
        let kk = (opcode & 0x00FF) as u8;
        let nnn = opcode & 0x0FFF;
        let n = (opcode & 0x000F) as u8;
        if opcode <= 0x00FF {
            if kk == 0xE0 {
                Ok(OpCode::CLS)
            } else if kk == 0xEE {
                Ok(OpCode::RET)
            } else if 0xC0 <= kk && kk <= 0xCF {
                Ok(OpCode::SCD(n))
            } else if kk == 0xFB {
                Ok(OpCode::SCR)
            } else if kk == 0xFC {
                Ok(OpCode::SCL)
            } else if kk == 0xFD {
                Ok(OpCode::EXIT)
            } else if kk == 0xFE {
                Ok(OpCode::LOW)
            } else if kk == 0xFF {
                Ok(OpCode::HIGH)
            } else {
                Ok(OpCode::SYSADDR(nnn))
            }
        } else if 0x1000 <= opcode && opcode <= 0x1FFF {
            Ok(OpCode::JP(nnn))
        } else if 0x2000 <= opcode && opcode <= 0x2FFF {
            Ok(OpCode::CALL(nnn))
        } else if 0x3000 <= opcode && opcode <= 0x3FFF {
            Ok(OpCode::SEVxByte(x, kk))
        } else if 0x4000 <= opcode && opcode <= 0x4FFF {
            Ok(OpCode::SNEVxByte(x, kk))
        } else if 0x5000 <= opcode && opcode <= 0x5FFF {
            Ok(OpCode::SEVxVy(x, y))
        } else if 0x6000 <= opcode && opcode <= 0x6FFF {
            Ok(OpCode::LDVxByte(x, kk))
        } else if 0x7000 <= opcode && opcode <= 0x7FFF {
            Ok(OpCode::ADDVxByte(x, kk))
        } else if 0x8000 <= opcode && opcode <= 0x8FFF {
            if n == 0x0 {
                Ok(OpCode::LDVxVy(x, y))
            } else if n == 0x1 {
                Ok(OpCode::ORVxVy(x, y))
            } else if n == 0x2 {
                Ok(OpCode::ANDVxVy(x, y))
            } else if n == 0x3 {
                Ok(OpCode::XORVxVy(x, y))
            } else if n == 0x4 {
                Ok(OpCode::ADDVxVy(x, y))
            } else if n == 0x5 {
                Ok(OpCode::SUBVxVy(x, y))
            } else if n == 0x6 {
                Ok(OpCode::SHRVyVx(x, y))
            } else if n == 0x7 {
                Ok(OpCode::SUBNVyVx(x, y))
            } else if n == 0xE {
                Ok(OpCode::SHLVyVx(x, y))
            } else {
                Err(ChipError::InvalidOpcode(opcode))
            }
        } else if 0x9000 <= opcode && opcode <= 0x9FFF {
            Ok(OpCode::SNEVxVy(x, y))
        } else if 0xA000 <= opcode && opcode <= 0xAFFF {
            Ok(OpCode::LDI(nnn))
        } else if 0xB000 <= opcode && opcode <= 0xBFFF {
            Ok(OpCode::JP0(nnn))
        } else if 0xC000 <= opcode && opcode <= 0xCFFF {
            Ok(OpCode::RND(x, kk))
        } else if 0xD000 <= opcode && opcode <= 0xDFFF {
            if n == 0x0 {
                Ok(OpCode::DRWVxVy0(x, y))
            } else {
                Ok(OpCode::DRW(x, y, n))
            }
        } else if 0xE000 <= opcode && opcode <= 0xEFFF {
            if kk == 0x9E {
                Ok(OpCode::SKPVx(x))
            } else if kk == 0xA1 {
                Ok(OpCode::SKNPVx(x))
            } else {
                Err(ChipError::InvalidOpcode(opcode))
            }
        } else if 0xF000 <= opcode {
            if kk == 0x07 {
                Ok(OpCode::LDVxDT(x))
            } else if kk == 0x0A {
                Ok(OpCode::LDVxK(x))
            } else if kk == 0x15 {
                Ok(OpCode::LDDTVx(x))
            } else if kk == 0x18 {
                Ok(OpCode::LDSTVx(x))
            } else if kk == 0x1E {
                Ok(OpCode::ADDIVx(x))
            } else if kk == 0x29 {
                Ok(OpCode::LDFVx(x))
            } else if kk == 0x33 {
                Ok(OpCode::LDBVx(x))
            } else if kk == 0x55 {
                Ok(OpCode::LDIVx(x))
            } else if kk == 0x65 {
                Ok(OpCode::LDVxI(x))
            } else {
                Err(ChipError::InvalidOpcode(opcode))
            }
        } else {
            Err(ChipError::InvalidOpcode(opcode))
        }
    }

    /// Run one decoded instruction against the machine state.
    pub fn execute_opcode(&mut self, opcode: OpCode) -> (r: Result<(), ExecError>)
        requires
            old(self).state@.wf(),
            op_wf(opcode),
            exec_ok(old(self).state@, opcode),
        ensures
            exists|rb: u8| (final(self).state@, r) == spec_execute(old(self).state@, opcode,
                old(self).shift_quirk, rb),
            !(opcode matches OpCode::RND(_, _)) ==> (final(self).state@, r) == spec_execute(
                old(self).state@, opcode, old(self).shift_quirk, 0),
            final(self).state@.wf(),
            final(self).clock_speed == old(self).clock_speed,
            final(self).shift_quirk == old(self).shift_quirk,
    {
        let res = match opcode {
            OpCode::CLS => functions::cls(&mut self.state),
            OpCode::RET => functions::ret(&mut self.state),
            OpCode::SYSADDR(addr) => functions::sysaddr(&mut self.state, addr),
            OpCode::JP(addr) => functions::jp(&mut self.state, addr),
            OpCode::CALL(addr) => functions::call(&mut self.state, addr),
            OpCode::SEVxByte(x, byte) => functions::se_vx_byte(&mut self.state, x, byte),
            OpCode::SNEVxByte(x, byte) => functions::sne_vx_byte(&mut self.state, x, byte),
            OpCode::SEVxVy(x, y) => functions::se_vx_vy(&mut self.state, x, y),
            OpCode::LDVxByte(x, byte) => functions::ld_vx_byte(&mut self.state, x, byte),
            OpCode::ADDVxByte(x, byte) => functions::add_vx_byte(&mut self.state, x, byte),
            OpCode::LDVxVy(x, y) => functions::ld_vx_vy(&mut self.state, x, y),
            OpCode::ORVxVy(x, y) => functions::or_vx_vy(&mut self.state, x, y),
            OpCode::ANDVxVy(x, y) => functions::and_vx_vy(&mut self.state, x, y),
            OpCode::XORVxVy(x, y) => functions::xor_vx_vy(&mut self.state, x, y),
            OpCode::ADDVxVy(x, y) => functions::add_vx_vy(&mut self.state, x, y),
            OpCode::SUBVxVy(x, y) => functions::sub_vx_vy(&mut self.state, x, y),
            OpCode::SHRVyVx(x, y) => functions::shr(&mut self.state, x, y, self.shift_quirk),
            OpCode::SUBNVyVx(x, y) => functions::subn_vy_vx(&mut self.state, x, y),
            OpCode::SHLVyVx(x, y) => functions::shl(&mut self.state, x, y, self.shift_quirk),
            OpCode::SNEVxVy(x, y) => functions::sne_vx_vy(&mut self.state, x, y),
            OpCode::LDI(addr) => functions::ld_i(&mut self.state, addr),
            OpCode::JP0(addr) => functions::jp0(&mut self.state, addr),
            OpCode::RND(x, byte) => functions::rnd(&mut self.state, x, byte),
            OpCode::DRW(x, y, n) => functions::drw(&mut self.state, x, y, n),
            OpCode::SKPVx(x) => functions::skp_vx(&mut self.state, x),
            OpCode::SKNPVx(x) => functions::sknp_vx(&mut self.state, x),
            OpCode::LDDTVx(x) => functions::ld_dt_vx(&mut self.state, x),
            OpCode::LDVxDT(x) => functions::ld_vx_dt(&mut self.state, x),
            OpCode::LDSTVx(x) => functions::ld_st_vx(&mut self.state, x),
            OpCode::ADDIVx(x) => functions::add_i_vx(&mut self.state, x),
            OpCode::LDFVx(x) => functions::ld_f_vx(&mut self.state, x),
            OpCode::LDBVx(x) => functions::ld_b_vx(&mut self.state, x),
            OpCode::LDIVx(x) => functions::ld_i_vx(&mut self.state, x),
            OpCode::LDVxI(x) => functions::ld_vx_i(&mut self.state, x),
            OpCode::LDVxK(x) => functions::ld_vx_k(&mut self.state, x),
            OpCode::SCD(n) => functions::scd(&mut self.state, n),
            OpCode::SCR => functions::scr(&mut self.state),
            OpCode::SCL => functions::scl(&mut self.state),
            OpCode::EXIT => functions::exit(&mut self.state),
            OpCode::LOW => functions::low(&mut self.state),
            OpCode::HIGH => functions::high(&mut self.state),
            OpCode::DRWVxVy0(x, y) => functions::drw_vx_vy_0(&mut self.state, x, y),
            OpCode::LDHFVx(x) => functions::ld_hf_vx(&mut self.state, x),
            OpCode::LDRVx(x) => functions::ld_r_vx(&mut self.state, x),
            OpCode::LDVxR(x) => functions::ld_vx_r(&mut self.state, x),
        };
        proof {
            match opcode {
                OpCode::RND(x, byte) => {
                    let rb = choose|rb: u8| self.state@ == crate::semantics::spec_rnd(
                        old(self).state@, x as int, byte, rb);
                    assert((self.state@, res) == spec_execute(old(self).state@, opcode,
                        old(self).shift_quirk, rb));
                },
                _ => {
                    assert((self.state@, res) == spec_execute(old(self).state@, opcode,
                        old(self).shift_quirk, 0));
                },
            }
        }
        res
    }

    /// Whether a full cycle may run from the current state: the instruction
    /// word is in memory and what it decodes to meets its preconditions.
    /// The surrounding application checks this before each cycle and treats
    /// a refusal as the fatal fault it is.
    pub fn cycle_ready(&self) -> (r: bool)
        requires
            self.state@.wf(),
        ensures
            r == spec_cycle_ready(self.state@),
    {
        if !(self.state.pc as usize + 1 < MEM_SIZE) {
            return false;
        }
        let word = self.fetch_opcode();
        let decoded = self.decode_opcode(word);
        match decoded {
            Err(_) => true,
            Ok(op) => match op {
                OpCode::RET => self.state.sp == 0
                    || self.state.stack[self.state.sp as usize] <= u16::MAX - 2,
                OpCode::SEVxByte(_x, _kk) => self.state.pc <= u16::MAX - 2,
                OpCode::SNEVxByte(_x, _kk) => self.state.pc <= u16::MAX - 2,
                OpCode::SEVxVy(_x, _y) => self.state.pc <= u16::MAX - 2,
                OpCode::SNEVxVy(_x, _y) => self.state.pc <= u16::MAX - 2,
                OpCode::SKPVx(x) => self.state.pc <= u16::MAX - 2
                    && (self.state.v[x as usize] as usize) < NUM_KEYS,
                OpCode::SKNPVx(x) => self.state.pc <= u16::MAX - 2
                    && (self.state.v[x as usize] as usize) < NUM_KEYS,
                OpCode::DRW(_x, _y, n) => self.state.i as usize + n as usize <= MEM_SIZE,
                OpCode::ADDIVx(x) => self.state.i <= u16::MAX - self.state.v[x as usize] as u16,
                OpCode::LDBVx(_x) => self.state.i as usize + 3 <= MEM_SIZE,
                OpCode::LDIVx(x) => self.state.i as usize + x as usize + 1 <= MEM_SIZE,
                OpCode::LDVxI(x) => self.state.i as usize + x as usize + 1 <= MEM_SIZE,
                _ => true,
            },
        }
    }

    /// One fetch-decode-execute step: on a decode failure the state is left
    /// untouched and the failure returned; otherwise the instruction runs,
    /// pc advances by one instruction width unless the instruction set it,
    /// pc is reduced modulo the memory size, the jump flag is cleared, and
    /// any recoverable execution failure is reported in the result.
    pub fn cycle(&mut self) -> (r: Result<Option<ExecError>, ChipError>)
        requires
            old(self).state@.wf(),
            spec_cycle_ready(old(self).state@),
        ensures
            ({
                let w = fetch_word(old(self).state@);
                match spec_decode(w) {
                    Result::Err(e) => r == Err::<Option<ExecError>, ChipError>(e)
                        && final(self).state@ == old(self).state@,
                    Result::Ok(op) => {
                        &&& exists|rb: u8| cycle_post(old(self).state@, final(self).state@, op,
                            old(self).shift_quirk, rb, r)
                        &&& (!(op matches OpCode::RND(_, _)) ==> cycle_post(old(self).state@,
                            final(self).state@, op, old(self).shift_quirk, 0, r))
                    },
                }
            }),
            final(self).state@.wf(),
            final(self).clock_speed == old(self).clock_speed,
            final(self).shift_quirk == old(self).shift_quirk,
    {
        let word = self.fetch_opcode();
        let decoded = self.decode_opcode(word);
        let op = match decoded {
            Ok(op) => op,
            Err(e) => {
                return Err(e);
            },
        };
        let outcome = self.execute_opcode(op);
        let ghost mid = self.state@;
        if !self.state.jump_flag {
            self.state.pc = self.state.pc + 2;
        }
        if self.state.pc >= 4096 {
            self.state.pc = self.state.pc - 4096;
        }
        self.state.jump_flag = false;
        let r = match outcome {
            Ok(_) => Ok(None),
            Err(e) => Ok(Some(e)),
        };
        proof {
            assert(self.state@ =~= spec_advance(mid));
            match op {
                OpCode::RND(_, _) => {
                    let rb = choose|rb: u8| (mid, outcome) == spec_execute(old(self).state@, op,
                        old(self).shift_quirk, rb);
                    assert(cycle_post(old(self).state@, self.state@, op, old(self).shift_quirk,
                        rb, r));
                },
                _ => {},
            }
        }
        r
    }

    /// Advance the input-wait state machine one step: latch the
    /// lowest-indexed pressed key while halted, and resume once the latched
    /// key is released.
    pub fn advance_key_wait(&mut self)
        requires
            old(self).state@.wf(),
        ensures
            final(self).state@ == spec_advance_key_wait(old(self).state@),
            final(self).state@.wf(),
            final(self).clock_speed == old(self).clock_speed,
            final(self).shift_quirk == old(self).shift_quirk,
    {
        match self.state.keyboard_halt {
            KeyboardHalt::Halt(x) => {
                let mut k: usize = 0;
                while k < NUM_KEYS && !self.state.keypad[k]
                    invariant
                        old(self).state@.wf(),
                        k <= NUM_KEYS,
                        self.state == old(self).state,
                        self.clock_speed == old(self).clock_speed,
                        self.shift_quirk == old(self).shift_quirk,
                        forall|j: int| 0 <= j < k ==> !old(self).state@.keypad[j],
                    decreases NUM_KEYS - k,
                {
                    k = k + 1;
                }
                proof {
                    lemma_lowest_pressed_prefix(old(self).state@.keypad, k as int);
                }
                if k < NUM_KEYS {
                    self.state.v.set(x as usize, k as u8);
                    self.state.keyboard_halt = KeyboardHalt::WaitForRelease(x);
                    proof {
                        assert(self.state@ =~= spec_advance_key_wait(old(self).state@));
                    }
                }
            },
            KeyboardHalt::WaitForRelease(x) => {
                let vx = self.state.v[x as usize];
                if (vx as usize) < NUM_KEYS && !self.state.keypad[vx as usize] {
                    self.state.keyboard_halt = KeyboardHalt::Resume;
                }
            },
            KeyboardHalt::Resume => {},
        }
    }

    /// Whether normal execution is suspended by the input-wait state
    /// machine. Only when this holds may the application run a cycle.
    pub fn can_execute(&self) -> (r: bool)
        ensures
            r == (self.state@.keyboard_halt matches KeyboardHalt::Resume),
    {
        match self.state.keyboard_halt {
            KeyboardHalt::Resume => true,
            _ => false,
        }
    }

    /// Step the timers if a 60 Hz interval has elapsed: both count down
    /// toward zero, never below. Returns whether the step happened, so the
    /// caller can restart its interval clock.
    pub fn update_timers(&mut self, elapsed_nanos: u64) -> (ticked: bool)
        requires
            old(self).state@.wf(),
        ensures
            ticked == (elapsed_nanos >= TIMER_INTERVAL_NANOS),
            ticked ==> final(self).state@ == spec_timer_tick(old(self).state@),
            !ticked ==> final(self).state@ == old(self).state@,
            final(self).state@.wf(),
            final(self).clock_speed == old(self).clock_speed,
            final(self).shift_quirk == old(self).shift_quirk,
    {
        if elapsed_nanos >= TIMER_INTERVAL_NANOS {
            if self.state.delay_timer > 0 {
                self.state.delay_timer = self.state.delay_timer - 1;
            }
            if self.state.sound_timer > 0 {
                self.state.sound_timer = self.state.sound_timer - 1;
            }
            proof {
                assert(self.state@ =~= spec_timer_tick(old(self).state@));
            }
            true
        } else {
            false
        }
    }

    /// Whether a tone is owed to the device: the sound timer is running.
    pub fn sound_active(&self) -> (r: bool)
        ensures
            r == (self.state@.sound_timer > 0),
    {
        self.state.sound_timer > 0
    }

    /// Report and clear the draw flag: whether a redraw is owed to the
    /// device since the last call.
    pub fn take_draw_flag(&mut self) -> (r: bool)
        requires
            old(self).state@.wf(),
        ensures
            r == old(self).state@.draw_flag,
            final(self).state@ == (ChipView { draw_flag: false, ..old(self).state@ }),
            final(self).state@.wf(),
            final(self).clock_speed == old(self).clock_speed,
            final(self).shift_quirk == old(self).shift_quirk,
    {
        let r = self.state.draw_flag;
        self.state.draw_flag = false;
        proof {
            assert(self.state@ =~= (ChipView { draw_flag: false, ..old(self).state@ }));
        }
        r
    }
}

/// If no key below `k` is pressed, the lowest pressed key overall is the
/// lowest pressed key at or above `k`.
proof fn lemma_lowest_pressed_prefix(keys: Seq<bool>, k: int)
    requires
        0 <= k <= NUM_KEYS,
        forall|j: int| 0 <= j < k ==> !keys[j],
    ensures
        lowest_pressed(keys) == lowest_pressed_from(keys, k),
    decreases k,
{
    if k > 0 {
        lemma_lowest_pressed_prefix_step(keys, k - 1);
        lemma_lowest_pressed_prefix(keys, k - 1);
    }
}

/// Skipping one unpressed key does not change the search result.
proof fn lemma_lowest_pressed_prefix_step(keys: Seq<bool>, k: int)
    requires
        0 <= k < NUM_KEYS,
        !keys[k],
    ensures
        lowest_pressed_from(keys, k) == lowest_pressed_from(keys, k + 1),
{
}

} // verus!
