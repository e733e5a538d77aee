//! What the machine tells its host: the state it is in, the fault it
//! stopped on, and the work it hands out.

use vstd::prelude::*;
use crate::stackobj::StackObj;

verus! {

/// An arithmetic operator. The machine checks and orders the operands; the
/// host computes the result in single precision.
#[derive(Clone, Copy, Debug, PartialEq, Eq, Structural)]
pub enum Arith {
    Add,
    Sub,
    Mul,
    Div,
}

/// A binary operator whose result is a truth value.
#[derive(Clone, Copy, Debug, PartialEq, Eq, Structural)]
pub enum Test {
    And,
    Or,
    Iseq,
    Isge,
    Isgt,
}

/// An operation that needs numbers for operands.
#[derive(Clone, Copy, Debug, PartialEq, Eq, Structural)]
pub enum Operation {
    Arith(Arith),
    Test(Test),
    Not,
    Jif,
}

/// Why a machine stopped before the end of its program.
#[derive(Clone, Copy, Debug, PartialEq, Eq, Structural)]
pub enum Fault {
    /// An instruction needed `required` operands and found `available`.
    StackUnderflow { required: usize, available: usize },
    /// `operation` met the reference `operand` where it needs a number.
    TypeMismatch { operation: Operation, operand: StackObj },
    /// A return was met with no call open.
    CallStackUnderflow,
}

/// The state of a machine. `Halted` and `Faulted` are final.
#[derive(Clone, Copy, Debug, PartialEq, Eq, Structural)]
pub enum Status {
    /// The next step fetches an instruction.
    Running,
    /// An arithmetic instruction has taken its operands and waits for the
    /// host to hand in `left operator right`.
    Awaiting { operator: Arith, left: u32, right: u32 },
    /// The program ended.
    Halted,
    /// The program broke a rule.
    Faulted(Fault),
}

/// What a step asks of the host.
#[derive(Clone, Copy, Debug, PartialEq, Eq, Structural)]
pub enum Effect {
    /// Nothing to do.
    Nothing,
    /// Print the value, now.
    Print(StackObj),
    /// Compute `left operator right` and hand the result in.
    Compute { operator: Arith, left: u32, right: u32 },
}

/// What there is to say of a machine that stopped on a fault.
#[derive(Clone, Copy, Debug, PartialEq, Eq, Structural)]
pub struct FaultReport {
    /// The fault itself.
    pub fault: Fault,
    /// The instruction pointer: one past the instruction that faulted.
    pub ip: i32,
    /// The number of values on the operand stack.
    pub stack_depth: usize,
    /// The number of frames on the call stack.
    pub call_depth: usize,
}

} // verus!
