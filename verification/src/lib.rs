//! A verified CHIP-8 virtual machine: an 8-bit register architecture with a
//! 16-bit address space, a 64x32 monochrome framebuffer, and a 35-instruction
//! opcode set.
//!
//! The crate is organised around three modules:
//! - [`utils`] splits a 16-bit instruction word into its operand fields and
//!   draws the random byte that the `Cxkk` instruction consumes;
//! - [`chip8`] owns the machine state, its mathematical model
//!   [`chip8::MachineView`], and the fetch-decode-execute engine;
//! - [`instructions`] holds one handler per opcode, each specified by a pure
//!   transition function on [`chip8::MachineView`], together with the proofs
//!   that relate the handlers to one another.

pub mod chip8;
pub mod instructions;
pub mod utils;

pub use crate::chip8::Chip8;
pub use crate::chip8::CycleOutcome;
pub use crate::chip8::EmulationError;
pub use crate::chip8::RunMode;
pub use crate::utils::OpcodeVariables;
pub use crate::utils::opcode_to_variables;
