//! A small stack machine: a closed instruction set, an operand stack of
//! tagged values, and a stack of call frames that hold the variables.
//!
//! A program is a fixed sequence of instructions. The machine fetches the
//! instruction at its pointer, moves the pointer on, and executes what it
//! fetched, until it halts or faults. Running off the end of the program
//! halts it; a fault stops it with both stacks as the faulting instruction
//! found them, open to inspection.
//!
//! The machine works with integers only. A number is held by its IEEE 754
//! single-precision encoding; comparing numbers and telling true from false
//! is integer work on the encoding, proved against the numbers' values.
//! Arithmetic and printing are left to the host: a step that needs either
//! hands back an [`events::Effect`], and the host answers arithmetic with
//! [`machine::Machine::resume`].
//!
//! - [`binary32`]: the encoding of numbers, their order and their truth
//! - [`stackobj`]: the values
//! - [`opcodes`]: the instructions
//! - [`frame`]: call frames and their variables
//! - [`events`]: states, faults, and what the machine asks of its host
//! - [`model`]: the machine as mathematics
//! - [`machine`]: the machine
//! - [`laws`]: what holds of every program

pub mod binary32;
pub mod events;
pub mod frame;
pub mod laws;
pub mod machine;
pub mod model;
pub mod opcodes;
pub mod stackobj;
