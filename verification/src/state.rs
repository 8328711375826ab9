//! The machine state: memory, registers, timers, framebuffer, call stack,
//! keypad latch and the input-wait state machine. Pure data plus invariants.

use vstd::prelude::*;

verus! {

/// Number of addressable bytes of memory.
pub const MEM_SIZE: usize = 4096;
/// Number of general-purpose registers; the last one doubles as the flag register.
pub const NUM_REGS: usize = 16;
/// Capacity of the call stack.
pub const STACK_SIZE: usize = 16;
/// Framebuffer width in pixels.
pub const DISPLAY_WIDTH: usize = 64;
/// Framebuffer height in pixels.
pub const DISPLAY_HEIGHT: usize = 32;
/// Number of pixels in the framebuffer.
pub const DISPLAY_LEN: usize = 2048;
/// Number of keys on the keypad.
pub const NUM_KEYS: usize = 16;
/// Address at which program bytes are loaded.
pub const PROGRAM_START: usize = 512;

/// The input-wait state machine: `Halt(x)` suspends execution until a key is
/// pressed (its index is then latched into register `x`), `WaitForRelease(x)`
/// suspends until that latched key is released, `Resume` runs normally.
#[derive(Debug, Clone, Copy, PartialEq, Eq, Structural)]
pub enum KeyboardHalt {
    Halt(u8),
    WaitForRelease(u8),
    Resume,
}

/// All mutable architectural state of the machine.
pub struct ChipState {
    pub memory: Vec<u8>,
    pub v: Vec<u8>,
    pub i: u16,
    pub pc: u16,
    pub sp: u8,
    pub stack: Vec<u16>,
    pub delay_timer: u8,
    pub sound_timer: u8,
    pub display: Vec<u8>,
    pub keypad: Vec<bool>,
    pub jump_flag: bool,
    pub draw_flag: bool,
    pub keyboard_halt: KeyboardHalt,
}

/// The mathematical model of a machine state, over which all contracts speak.
#[verifier::ext_equal]
pub struct ChipView {
    pub memory: Seq<u8>,
    pub v: Seq<u8>,
    pub i: u16,
    pub pc: u16,
    pub sp: u8,
    pub stack: Seq<u16>,
    pub delay_timer: u8,
    pub sound_timer: u8,
    pub display: Seq<u8>,
    pub keypad: Seq<bool>,
    pub jump_flag: bool,
    pub draw_flag: bool,
    pub keyboard_halt: KeyboardHalt,
}

impl View for ChipState {
    type V = ChipView;

    open spec fn view(&self) -> ChipView {
        ChipView {
            memory: self.memory@,
            v: self.v@,
            i: self.i,
            pc: self.pc,
            sp: self.sp,
            stack: self.stack@,
            delay_timer: self.delay_timer,
            sound_timer: self.sound_timer,
            display: self.display@,
            keypad: self.keypad@,
            jump_flag: self.jump_flag,
            draw_flag: self.draw_flag,
            keyboard_halt: self.keyboard_halt,
        }
    }
}

impl ChipView {
    /// Well-formedness: the fixed sizes of the state's components, the stack
    /// pointer bound, the one-bit framebuffer and the register index carried
    /// by the input-wait state machine.
    pub open spec fn wf(self) -> bool {
        &&& self.memory.len() == MEM_SIZE
        &&& self.v.len() == NUM_REGS
        &&& self.stack.len() == STACK_SIZE
        &&& self.display.len() == DISPLAY_LEN
        &&& self.keypad.len() == NUM_KEYS
        &&& self.sp < STACK_SIZE
        &&& forall|p: int| 0 <= p < DISPLAY_LEN ==> self.display[p] == 0 || self.display[p] == 1
        &&& match self.keyboard_halt {
                KeyboardHalt::Halt(x) => x < NUM_REGS,
                KeyboardHalt::WaitForRelease(x) => x < NUM_REGS,
                KeyboardHalt::Resume => true,
            }
    }

    /// The state of a freshly constructed machine: all zero, pc at the
    /// program start, input-wait machine in `Resume`.
    pub open spec fn init() -> ChipView {
        ChipView {
            memory: Seq::new(MEM_SIZE as nat, |a: int| 0u8),
            v: Seq::new(NUM_REGS as nat, |k: int| 0u8),
            i: 0,
            pc: PROGRAM_START as u16,
            sp: 0,
            stack: Seq::new(STACK_SIZE as nat, |k: int| 0u16),
            delay_timer: 0,
            sound_timer: 0,
            display: Seq::new(DISPLAY_LEN as nat, |p: int| 0u8),
            keypad: Seq::new(NUM_KEYS as nat, |k: int| false),
            jump_flag: false,
            draw_flag: false,
            keyboard_halt: KeyboardHalt::Resume,
        }
    }
}

/// Memory after a program image is copied in at the program start; an image
/// longer than the space left is truncated there.
pub open spec fn loaded_memory(mem: Seq<u8>, rom: Seq<u8>) -> Seq<u8> {
    Seq::new(MEM_SIZE as nat, |a: int| {
        if PROGRAM_START <= a && a - PROGRAM_START < rom.len() {
            rom[a - PROGRAM_START]
        } else {
            mem[a]
        }
    })
}

fn zeroed_bytes(n: usize) -> (r: Vec<u8>)
    ensures
        r@ == Seq::new(n as nat, |k: int| 0u8),
{
    let mut r: Vec<u8> = Vec::new();
    while r.len() < n
        invariant
            r@.len() <= n,
            forall|k: int| 0 <= k < r@.len() ==> r@[k] == 0u8,
        decreases n - r.len(),
    {
        r.push(0u8);
    }
    proof {
        assert(r@ =~= Seq::new(n as nat, |k: int| 0u8));
    }
    r
}

impl ChipState {
    /// Construct a fresh machine: memory, registers, stack, framebuffer and
    /// keypad all zero, pc at the program start.
    pub fn new() -> (s: ChipState)
        ensures
            s@ == ChipView::init(),
            s@.wf(),
    {
        let mut stack: Vec<u16> = Vec::new();
        while stack.len() < STACK_SIZE
            invariant
                stack@.len() <= STACK_SIZE,
                forall|k: int| 0 <= k < stack@.len() ==> stack@[k] == 0u16,
            decreases STACK_SIZE - stack.len(),
        {
            stack.push(0u16);
        }
        let mut keypad: Vec<bool> = Vec::new();
        while keypad.len() < NUM_KEYS
            invariant
                keypad@.len() <= NUM_KEYS,
                forall|k: int| 0 <= k < keypad@.len() ==> keypad@[k] == false,
            decreases NUM_KEYS - keypad.len(),
        {
            keypad.push(false);
        }
        let s = ChipState {
            memory: zeroed_bytes(MEM_SIZE),
            v: zeroed_bytes(NUM_REGS),
            i: 0,
            pc: 512,
            sp: 0,
            stack,
            delay_timer: 0,
            sound_timer: 0,
            display: zeroed_bytes(DISPLAY_LEN),
            keypad,
            jump_flag: false,
            draw_flag: false,
            keyboard_halt: KeyboardHalt::Resume,
        };
        proof {
            assert(s@.stack =~= Seq::new(STACK_SIZE as nat, |k: int| 0u16));
            assert(s@.keypad =~= Seq::new(NUM_KEYS as nat, |k: int| false));
            assert(s@ =~= ChipView::init());
        }
        s
    }

    /// Copy a program image into memory starting at the program start;
    /// bytes that would fall past the end of memory are dropped.
    pub fn load_rom(&mut self, rom: Vec<u8>)
        requires
            old(self)@.wf(),
        ensures
            final(self)@ == (ChipView {
                memory: loaded_memory(old(self)@.memory, rom@.take(
                    if rom@.len() <= MEM_SIZE - PROGRAM_START {
                        rom@.len() as int
                    } else {
                        MEM_SIZE - PROGRAM_START
                    },
                )),
                ..old(self)@
            }),
            final(self)@.wf(),
    {
        let limit = MEM_SIZE - PROGRAM_START;
        let count = if rom.len() <= limit {
            rom.len()
        } else {
            limit
        };
        let mut k: usize = 0;
        while k < count
            invariant
                count <= rom@.len(),
                count <= MEM_SIZE - PROGRAM_START,
                k <= count,
                self.memory@.len() == MEM_SIZE,
                forall|a: int| 0 <= a < MEM_SIZE && !(PROGRAM_START <= a < PROGRAM_START + k)
                    ==> self.memory@[a] == old(self)@.memory[a],
                forall|a: int| PROGRAM_START <= a < PROGRAM_START + k
                    ==> self.memory@[a] == rom@[a - PROGRAM_START],
                self.v == old(self).v,
                self.i == old(self).i,
                self.pc == old(self).pc,
                self.sp == old(self).sp,
                self.stack == old(self).stack,
                self.delay_timer == old(self).delay_timer,
                self.sound_timer == old(self).sound_timer,
                self.display == old(self).display,
                self.keypad == old(self).keypad,
                self.jump_flag == old(self).jump_flag,
                self.draw_flag == old(self).draw_flag,
                self.keyboard_halt == old(self).keyboard_halt,
            decreases count - k,
        {
            self.memory.set(PROGRAM_START + k, rom[k]);
            k = k + 1;
        }
        proof {
            let taken = rom@.take(count as int);
            assert(self@.memory =~= loaded_memory(old(self)@.memory, taken));
            assert(self@ =~= (ChipView { memory: loaded_memory(old(self)@.memory, taken), ..old(self)@ }));
        }
    }
}

} // verus!
