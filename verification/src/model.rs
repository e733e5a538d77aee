//! The machine as mathematics: its state, and what one step makes of it.

use vstd::prelude::*;
use crate::binary32::{num_eq, num_ge, num_gt, truthy, ONE, ZERO};
use crate::events::{Arith, Effect, Fault, Operation, Status, Test};
use crate::frame::FrameView;
use crate::opcodes::Opcode;
use crate::stackobj::StackObj;

verus! {

/// The truth value `b` as a value of the machine: one for true, zero for
/// false.
pub open spec fn truth(b: bool) -> StackObj {
    if b {
        StackObj::Num(ONE)
    } else {
        StackObj::Num(ZERO)
    }
}

/// What a test makes of two numbers.
pub open spec fn verdict(test: Test, x: u32, y: u32) -> bool {
    match test {
        Test::And => truthy(x) && truthy(y),
        Test::Or => truthy(x) || truthy(y),
        Test::Iseq => num_eq(x, y),
        Test::Isge => num_ge(x, y),
        Test::Isgt => num_gt(x, y),
    }
}

/// Everything that changes while a program runs.
pub struct State {
    /// The address of the next instruction. It may lie outside the program.
    pub ip: int,
    /// The operand stack, the top last.
    pub stack: Seq<StackObj>,
    /// The call stack, the current frame last, the top-level frame first.
    pub frames: Seq<FrameView>,
    /// Whether the machine runs, waits for its host, or has stopped.
    pub status: Status,
}

impl State {
    /// The state in which every machine starts.
    pub open spec fn initial() -> State {
        State {
            ip: 0,
            stack: Seq::empty(),
            frames: seq![FrameView::empty(0)],
            status: Status::Running,
        }
    }

    /// The same state with another status.
    pub open spec fn with_status(self, status: Status) -> State {
        State { status, ..self }
    }

    /// The same state with another operand stack.
    pub open spec fn with_stack(self, stack: Seq<StackObj>) -> State {
        State { stack, ..self }
    }

    /// The same state with the instruction pointer at `ip`.
    pub open spec fn with_ip(self, ip: int) -> State {
        State { ip, ..self }
    }

    /// The stack without its `n` topmost values.
    pub open spec fn below(self, n: int) -> Seq<StackObj> {
        self.stack.subrange(0, self.stack.len() - n)
    }

    /// The value `n` places under the top, the top itself for 0.
    pub open spec fn peek(self, n: int) -> StackObj {
        self.stack[self.stack.len() - 1 - n]
    }

    /// The state after a fault: nothing moves but the status.
    pub open spec fn fault(self, fault: Fault) -> (State, Effect) {
        (self.with_status(Status::Faulted(fault)), Effect::Nothing)
    }

    /// The fault of an instruction that needs `required` operands.
    pub open spec fn underflow(self, required: usize) -> (State, Effect) {
        self.fault(Fault::StackUnderflow { required, available: self.stack.len() as usize })
    }

    /// What a unary operation does once its operand is known to be a number.
    pub open spec fn unary(self, operation: Operation, on_number: spec_fn(u32) -> State) -> (
        State,
        Effect,
    ) {
        if self.stack.len() < 1 {
            self.underflow(1)
        } else {
            match self.peek(0) {
                StackObj::Num(x) => (on_number(x), Effect::Nothing),
                StackObj::Ref(_) => self.fault(
                    Fault::TypeMismatch { operation, operand: self.peek(0) },
                ),
            }
        }
    }

    /// An arithmetic instruction: the operands leave the stack, the left
    /// one being the one pushed first, and the host is asked for the result.
    pub open spec fn arith(self, operator: Arith) -> (State, Effect) {
        if self.stack.len() < 2 {
            self.underflow(2)
        } else {
            match StackObj::spec_numbers(self.peek(1), self.peek(0)) {
                Ok((left, right)) => (
                    State {
                        stack: self.below(2),
                        status: Status::Awaiting { operator, left, right },
                        ..self
                    },
                    Effect::Compute { operator, left, right },
                ),
                Err(operand) => self.fault(
                    Fault::TypeMismatch { operation: Operation::Arith(operator), operand },
                ),
            }
        }
    }

    /// A test instruction: the operands leave the stack and the verdict
    /// takes their place.
    pub open spec fn test(self, test: Test) -> (State, Effect) {
        if self.stack.len() < 2 {
            self.underflow(2)
        } else {
            match StackObj::spec_numbers(self.peek(1), self.peek(0)) {
                Ok((left, right)) => (
                    self.with_stack(self.below(2).push(truth(verdict(test, left, right)))),
                    Effect::Nothing,
                ),
                Err(operand) => self.fault(
                    Fault::TypeMismatch { operation: Operation::Test(test), operand },
                ),
            }
        }
    }

    /// The state after `value` was bound to `key` in the current frame.
    pub open spec fn store(self, key: Seq<char>, value: StackObj) -> State {
        State {
            frames: self.frames.update(
                self.frames.len() - 1,
                self.frames.last().bind(key, value),
            ),
            ..self
        }
    }
}

/// What `instruction` makes of `s`, the state in which the instruction
/// pointer has already moved past it. An instruction that faults leaves
/// both stacks as they were.
pub open spec fn execute(instruction: Opcode, s: State) -> (State, Effect) {
    match instruction {
        Opcode::Halt => (s.with_status(Status::Halted), Effect::Nothing),
        Opcode::Push(value) => (s.with_stack(s.stack.push(value)), Effect::Nothing),
        Opcode::Pop => if s.stack.len() < 1 {
            s.underflow(1)
        } else {
            (s.with_stack(s.below(1)), Effect::Nothing)
        },
        Opcode::Dup => if s.stack.len() < 1 {
            s.underflow(1)
        } else {
            (s.with_stack(s.stack.push(s.peek(0))), Effect::Nothing)
        },
        Opcode::Store(key) => if s.stack.len() < 1 {
            s.underflow(1)
        } else {
            (s.with_stack(s.below(1)).store(key@, s.peek(0)), Effect::Nothing)
        },
        Opcode::Load(key) => (
            s.with_stack(s.stack.push(s.frames.last().lookup(key@))),
            Effect::Nothing,
        ),
        Opcode::Add => s.arith(Arith::Add),
        Opcode::Sub => s.arith(Arith::Sub),
        Opcode::Mul => s.arith(Arith::Mul),
        Opcode::Div => s.arith(Arith::Div),
        Opcode::Not => s.unary(
            Operation::Not,
            |x: u32| s.with_stack(s.below(1).push(truth(!truthy(x)))),
        ),
        Opcode::And => s.test(Test::And),
        Opcode::Or => s.test(Test::Or),
        Opcode::Call(target) => (
            State { ip: target as int, frames: s.frames.push(FrameView::empty(s.ip)), ..s },
            Effect::Nothing,
        ),
        Opcode::Ret => if s.frames.len() <= 1 {
            s.fault(Fault::CallStackUnderflow)
        } else {
            (
                State { ip: s.frames.last().return_address, frames: s.frames.drop_last(), ..s },
                Effect::Nothing,
            )
        },
        Opcode::Jmp(target) => (s.with_ip(target as int), Effect::Nothing),
        Opcode::Jif(target) => s.unary(
            Operation::Jif,
            |x: u32|
                if truthy(x) {
                    s.with_stack(s.below(1)).with_ip(target as int)
                } else {
                    s.with_stack(s.below(1))
                },
        ),
        Opcode::Iseq => s.test(Test::Iseq),
        Opcode::Isge => s.test(Test::Isge),
        Opcode::Isgt => s.test(Test::Isgt),
        Opcode::Print => if s.stack.len() < 1 {
            s.underflow(1)
        } else {
            (s.with_stack(s.below(1)), Effect::Print(s.peek(0)))
        },
    }
}

/// Whether `ip` addresses an instruction of `program`.
pub open spec fn in_program(program: Seq<Opcode>, ip: int) -> bool {
    0 <= ip < program.len()
}

/// One step of the machine.
///
/// A running machine whose instruction pointer lies in the program moves
/// the pointer by one and executes the instruction it has passed. With the
/// pointer outside the program it halts. A machine that waits for the host
/// repeats its request; a halted or faulted one stays as it is.
pub open spec fn step(program: Seq<Opcode>, s: State) -> (State, Effect) {
    match s.status {
        Status::Running => if in_program(program, s.ip) {
            execute(program[s.ip], s.with_ip(s.ip + 1))
        } else {
            (s.with_status(Status::Halted), Effect::Nothing)
        },
        Status::Awaiting { operator, left, right } => (
            s,
            Effect::Compute { operator, left, right },
        ),
        Status::Halted => (s, Effect::Nothing),
        Status::Faulted(_) => (s, Effect::Nothing),
    }
}

/// The state after the host handed in `result`: a waiting machine pushes
/// it and runs on, any other machine ignores it.
pub open spec fn resume(s: State, result: u32) -> State {
    if s.status is Awaiting {
        State { stack: s.stack.push(StackObj::Num(result)), status: Status::Running, ..s }
    } else {
        s
    }
}

/// Up to `limit` steps, ending early with the first step that asks
/// something of the host or leaves the machine other than running.
pub open spec fn run(program: Seq<Opcode>, s: State, limit: nat) -> (State, Effect)
    decreases limit,
{
    if limit == 0 {
        (s, Effect::Nothing)
    } else {
        let (next, effect) = step(program, s);
        if effect is Nothing && next.status is Running {
            run(program, next, (limit - 1) as nat)
        } else {
            (next, effect)
        }
    }
}

} // verus!
