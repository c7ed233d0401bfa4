//! A CHIP-8 interpreter, verified.
//!
//! The core of the machine — nibble decoding, the register file, memory,
//! the display grid, the timers, and every opcode's state transition — is
//! specified and proved here. Window plumbing, threads and file I/O live
//! outside the library; they drive the core through
//! [`interpreter::Interpreter::step`] and the effects it returns.

pub mod bits;
pub mod cli;
pub mod display;
pub mod font;
pub mod input;
pub mod instruction;
pub mod interpreter;
pub mod laws;
pub mod timers;
