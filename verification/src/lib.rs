//! A verified interpreter core for a small 8-bit virtual machine: 4 KiB of
//! memory, sixteen byte-wide registers, a sixteen-entry call stack, two
//! countdown timers, a 64x32 monochrome framebuffer and a sixteen-key pad.
//!
//! The crate owns the machine state and the complete fetch-decode-execute
//! semantics of every opcode. Rendering, physical input mapping and ROM file
//! reading are left to the embedding program: the core only consumes plain
//! byte sequences and key indices, and exposes a framebuffer snapshot.

pub mod cpu;
pub mod decode;
pub mod keypad;
pub mod state;

pub use cpu::Cpu;
pub use cpu::OutputState;
pub use decode::Instr;
pub use keypad::Keypad;
pub use state::CpuState;
pub use state::Fault;
