//! The instruction set.

use vstd::prelude::*;
use crate::stackobj::StackObj;

verus! {

/// One instruction. A program is a sequence of them, addressed from 0.
#[derive(Debug)]
pub enum Opcode {
    /// Ends the program.
    Halt,
    /// Pushes the value.
    Push(StackObj),
    /// Drops the top of the stack.
    Pop,
    /// Pushes a copy of the top of the stack.
    Dup,
    /// Pops a value into the named variable of the current frame.
    Store(String),
    /// Pushes the named variable of the current frame.
    Load(String),
    /// Pops `b`, then `a`, and pushes `a + b`.
    Add,
    /// Pops `b`, then `a`, and pushes `a - b`.
    Sub,
    /// Pops `b`, then `a`, and pushes `a * b`.
    Mul,
    /// Pops `b`, then `a`, and pushes `a / b`.
    Div,
    /// Pops `a` and pushes its negation as a truth value.
    Not,
    /// Pops `b`, then `a`, and pushes their conjunction.
    And,
    /// Pops `b`, then `a`, and pushes their disjunction.
    Or,
    /// Opens a new frame and jumps to the address.
    Call(i32),
    /// Closes the current frame and jumps back to where it was opened.
    Ret,
    /// Jumps to the address.
    Jmp(i32),
    /// Pops a value and jumps to the address if it is true.
    Jif(i32),
    /// Pops `b`, then `a`, and pushes whether `a == b`.
    Iseq,
    /// Pops `b`, then `a`, and pushes whether `a >= b`.
    Isge,
    /// Pops `b`, then `a`, and pushes whether `a > b`.
    Isgt,
    /// Pops a value and hands it to the host to print.
    Print,
}

} // verus!
