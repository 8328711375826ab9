//! A verified interpreter core for a classic 8-bit virtual machine with a
//! 35-opcode instruction set, 4096 bytes of memory, sixteen 8-bit registers,
//! a 64x32 monochrome framebuffer, two 60 Hz timers and a blocking key-wait
//! state machine.
//!
//! The crate models the machine state, the instruction decoder and the
//! per-instruction semantics as verified functions whose contracts pin down
//! the exact architectural behaviour (wraparound arithmetic, flag-register
//! side effects, XOR sprite blitting with collision detection). Real-time
//! pacing, terminal rendering and key sampling are left to the surrounding
//! application, which drives the core through plain values.

pub mod state;
pub mod opcode;
pub mod semantics;
pub mod functions;
pub mod chip;
pub mod laws;
