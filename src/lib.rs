//! A CHIP-8 virtual machine core: machine state, instruction decoding and
//! single-step execution, with every behaviour stated as a contract.
//!
//! Choices where CHIP-8 interpreters differ, besides those that `Quirks`
//! makes configurable:
//! - the return-address stack holds 16 entries;
//! - both timers count down once per executed instruction;
//! - a draw, BCD store or bulk register transfer that would reach past the
//!   end of memory is a fatal error, as is a program counter that does not
//!   point at a whole instruction;
//! - every fatal error leaves the machine exactly as it was before the step.

pub mod instruction;
pub mod semantics;
pub mod machine;
pub mod laws;

pub use instruction::{DecodeFault, Instruction, decode};
pub use machine::Chip8;
pub use semantics::{Chip8Error, KeyState, Quirks};
