//! The machine itself: a program, an instruction pointer, an operand stack
//! and a call stack, driven one step at a time.

use std::collections::VecDeque;
use vstd::prelude::*;
use crate::binary32::{equals, greater, greater_or_equal, is_truthy, truthy, ONE, ZERO};
use crate::events::{Arith, Effect, Fault, FaultReport, Operation, Status, Test};
use crate::frame::Frame;
use crate::model;
use crate::model::{truth, verdict, State};
use crate::opcodes::Opcode;
use crate::stackobj::StackObj;

verus! {

/// A machine loaded with one program.
///
/// The machine decides; its host does what the machine cannot do alone. A
/// step may hand back a value to print, or two numbers and an arithmetic
/// operator: the host then computes the result and hands it in with
/// `resume`.
pub struct Machine<'a> {
    program: &'a [Opcode],
    ip: i32,
    stack: VecDeque<StackObj>,
    status: Status,
    frames: VecDeque<Frame>,
}

impl<'a> View for Machine<'a> {
    type V = State;

    closed spec fn view(&self) -> State {
        State {
            ip: self.ip as int,
            stack: self.stack@,
            frames: self.frames@.map_values(|frame: Frame| frame@),
            status: self.status,
        }
    }
}

impl<'a> Machine<'a> {
    /// The program that the machine was loaded with.
    pub closed spec fn program(&self) -> Seq<Opcode> {
        self.program@
    }

    /// What holds of every machine: the top-level frame is there, and every
    /// address of the program fits the instruction pointer.
    pub open spec fn wf(&self) -> bool {
        &&& self@.frames.len() >= 1
        &&& self.program().len() <= i32::MAX
    }

    /// Creates a machine and loads `program` in it.
    pub fn new(program: &'a [Opcode]) -> (machine: Machine<'a>)
        requires
            program@.len() <= i32::MAX,
        ensures
            machine.wf(),
            machine@ == State::initial(),
            machine.program() == program@,
    {
        let mut frames: VecDeque<Frame> = VecDeque::new();
        frames.push_back(Frame::new(0));
        let machine = Machine {
            program,
            ip: 0,
            stack: VecDeque::new(),
            status: Status::Running,
            frames,
        };
        assert(machine@.frames =~= State::initial().frames);
        machine
    }

    /// The truth of a number.
    pub fn to_bool(s: StackObj) -> (b: bool)
        requires
            s is Num,
        ensures
            b == truthy(s->Num_0),
    {
        match s {
            StackObj::Num(bits) => is_truthy(bits),
            StackObj::Ref(_) => false,
        }
    }

    /// A truth value as a number: one for true, zero for false.
    pub fn to_float(n: bool) -> (s: StackObj)
        ensures
            s == truth(n),
    {
        if n {
            StackObj::Num(ONE)
        } else {
            StackObj::Num(ZERO)
        }
    }

    /// Stops the machine on `fault`.
    fn fail(&mut self, fault: Fault) -> (effect: Effect)
        requires
            old(self).wf(),
        ensures
            final(self).wf(),
            (final(self)@, effect) == old(self)@.fault(fault),
            final(self).program() == old(self).program(),
    {
        self.status = Status::Faulted(fault);
        Effect::Nothing
    }

    /// Stops the machine for want of operands.
    fn underflow(&mut self, required: usize) -> (effect: Effect)
        requires
            old(self).wf(),
        ensures
            final(self).wf(),
            (final(self)@, effect) == old(self)@.underflow(required),
            final(self).program() == old(self).program(),
    {
        let available: usize = self.stack.len();
        self.fail(Fault::StackUnderflow { required, available })
    }

    /// Executes an arithmetic instruction.
    fn arith(&mut self, operator: Arith) -> (effect: Effect)
        requires
            old(self).wf(),
        ensures
            final(self).wf(),
            (final(self)@, effect) == old(self)@.arith(operator),
            final(self).program() == old(self).program(),
    {
        let n: usize = self.stack.len();
        if n < 2 {
            return self.underflow(2);
        }
        match StackObj::numbers(self.stack[n - 2], self.stack[n - 1]) {
            Ok((left, right)) => {
                self.stack.pop_back();
                self.stack.pop_back();
                self.status = Status::Awaiting { operator, left, right };
                assert(self@.stack =~= old(self)@.below(2));
                Effect::Compute { operator, left, right }
            },
            Err(operand) => self.fail(
                Fault::TypeMismatch { operation: Operation::Arith(operator), operand },
            ),
        }
    }

    /// Executes a test instruction.
    fn test(&mut self, test: Test) -> (effect: Effect)
        requires
            old(self).wf(),
        ensures
            final(self).wf(),
            (final(self)@, effect) == old(self)@.test(test),
            final(self).program() == old(self).program(),
    {
        let n: usize = self.stack.len();
        if n < 2 {
            return self.underflow(2);
        }
        match StackObj::numbers(self.stack[n - 2], self.stack[n - 1]) {
            Ok((left, right)) => {
                let holds = match test {
                    Test::And => is_truthy(left) && is_truthy(right),
                    Test::Or => is_truthy(left) || is_truthy(right),
                    Test::Iseq => equals(left, right),
                    Test::Isge => greater_or_equal(left, right),
                    Test::Isgt => greater(left, right),
                };
                self.stack.pop_back();
                self.stack.pop_back();
                self.stack.push_back(Self::to_float(holds));
                assert(self@.stack =~= old(self)@.below(2).push(
                    truth(verdict(test, left, right)),
                ));
                Effect::Nothing
            },
            Err(operand) => self.fail(
                Fault::TypeMismatch { operation: Operation::Test(test), operand },
            ),
        }
    }

    /// Executes `instruction`, past which the instruction pointer has moved.
    fn decode(&mut self, instruction: &Opcode) -> (effect: Effect)
        requires
            old(self).wf(),
        ensures
            final(self).wf(),
            (final(self)@, effect) == model::execute(*instruction, old(self)@),
            final(self).program() == old(self).program(),
    {
        let n: usize = self.stack.len();
        match instruction {
            Opcode::Halt => {
                self.status = Status::Halted;
                Effect::Nothing
            },
            Opcode::Push(value) => {
                self.stack.push_back(*value);
                Effect::Nothing
            },
            Opcode::Pop => {
                if n < 1 {
                    return self.underflow(1);
                }
                self.stack.pop_back();
                Effect::Nothing
            },
            Opcode::Dup => {
                if n < 1 {
                    return self.underflow(1);
                }
                let top = self.stack[n - 1];
                self.stack.push_back(top);
                Effect::Nothing
            },
            Opcode::Store(key) => {
                if n < 1 {
                    return self.underflow(1);
                }
                let top = self.stack[n - 1];
                self.stack.pop_back();
                let mut frame = self.frames.pop_back().unwrap();
                frame.set_var(key.as_str(), top);
                self.frames.push_back(frame);
                assert(self@.frames =~= old(self)@.frames.update(
                    old(self)@.frames.len() - 1,
                    old(self)@.frames.last().bind(key@, top),
                ));
                Effect::Nothing
            },
            Opcode::Load(key) => {
                let current: usize = self.frames.len() - 1;
                let value = self.frames[current].get_var(key.as_str());
                self.stack.push_back(value);
                Effect::Nothing
            },
            Opcode::Add => self.arith(Arith::Add),
            Opcode::Sub => self.arith(Arith::Sub),
            Opcode::Mul => self.arith(Arith::Mul),
            Opcode::Div => self.arith(Arith::Div),
            Opcode::Not => {
                if n < 1 {
                    return self.underflow(1);
                }
                let top = self.stack[n - 1];
                match top {
                    StackObj::Num(_) => {
                        self.stack.pop_back();
                        self.stack.push_back(Self::to_float(!Self::to_bool(top)));
                        Effect::Nothing
                    },
                    StackObj::Ref(_) => self.fail(
                        Fault::TypeMismatch { operation: Operation::Not, operand: top },
                    ),
                }
            },
            Opcode::And => self.test(Test::And),
            Opcode::Or => self.test(Test::Or),
            Opcode::Call(target) => {
                self.frames.push_back(Frame::new(self.ip));
                self.ip = *target;
                assert(self@.frames =~= old(self)@.frames.push(
                    crate::frame::FrameView::empty(old(self)@.ip),
                ));
                Effect::Nothing
            },
            Opcode::Ret => {
                if self.frames.len() <= 1 {
                    return self.fail(Fault::CallStackUnderflow);
                }
                let frame = self.frames.pop_back().unwrap();
                self.ip = frame.return_address;
                assert(self@.frames =~= old(self)@.frames.drop_last());
                Effect::Nothing
            },
            Opcode::Jmp(target) => {
                self.ip = *target;
                Effect::Nothing
            },
            Opcode::Jif(target) => {
                if n < 1 {
                    return self.underflow(1);
                }
                let top = self.stack[n - 1];
                match top {
                    StackObj::Num(_) => {
                        self.stack.pop_back();
                        if Self::to_bool(top) {
                            self.ip = *target;
                        }
                        Effect::Nothing
                    },
                    StackObj::Ref(_) => self.fail(
                        Fault::TypeMismatch { operation: Operation::Jif, operand: top },
                    ),
                }
            },
            Opcode::Iseq => self.test(Test::Iseq),
            Opcode::Isge => self.test(Test::Isge),
            Opcode::Isgt => self.test(Test::Isgt),
            Opcode::Print => {
                if n < 1 {
                    return self.underflow(1);
                }
                let top = self.stack[n - 1];
                self.stack.pop_back();
                Effect::Print(top)
            },
        }
    }

    /// Takes one step.
    pub fn step(&mut self) -> (effect: Effect)
        requires
            old(self).wf(),
        ensures
            final(self).wf(),
            (final(self)@, effect) == model::step(old(self).program(), old(self)@),
            final(self).program() == old(self).program(),
    {
        match self.status {
            Status::Running => {},
            Status::Awaiting { operator, left, right } => {
                return Effect::Compute { operator, left, right };
            },
            Status::Halted => {
                return Effect::Nothing;
            },
            Status::Faulted(_) => {
                return Effect::Nothing;
            },
        }
        let program = self.program;
        if self.ip < 0 || self.ip as usize >= program.len() {
            self.status = Status::Halted;
            return Effect::Nothing;
        }
        let instruction = &program[self.ip as usize];
        self.ip = self.ip + 1;
        self.decode(instruction)
    }

    /// Hands in the result of the arithmetic that the machine waits for.
    /// A machine that waits for none ignores it and says so.
    pub fn resume(&mut self, result: u32) -> (accepted: bool)
        requires
            old(self).wf(),
        ensures
            final(self).wf(),
            final(self)@ == model::resume(old(self)@, result),
            accepted == (old(self)@.status is Awaiting),
            final(self).program() == old(self).program(),
    {
        match self.status {
            Status::Awaiting { .. } => {
                self.stack.push_back(StackObj::Num(result));
                self.status = Status::Running;
                true
            },
            _ => false,
        }
    }

    /// Runs the program: takes up to `limit` steps and stops early at the
    /// first step that asks something of the host or that leaves the
    /// machine halted, faulted or waiting.
    pub fn run(&mut self, limit: u64) -> (effect: Effect)
        requires
            old(self).wf(),
        ensures
            final(self).wf(),
            (final(self)@, effect) == model::run(old(self).program(), old(self)@, limit as nat),
            final(self).program() == old(self).program(),
    {
        let mut remaining: u64 = limit;
        while remaining > 0
            invariant
                self.wf(),
                self.program() == old(self).program(),
                model::run(old(self).program(), old(self)@, limit as nat) == model::run(
                    self.program(),
                    self@,
                    remaining as nat,
                ),
            decreases remaining,
        {
            let effect = self.step();
            remaining = remaining - 1;
            let quiet = match effect {
                Effect::Nothing => true,
                _ => false,
            };
            let running = match self.status {
                Status::Running => true,
                _ => false,
            };
            if !(quiet && running) {
                return effect;
            }
        }
        Effect::Nothing
    }

    /// The state of the machine.
    pub fn status(&self) -> (status: Status)
        ensures
            status == self@.status,
    {
        self.status
    }

    /// The address of the next instruction.
    pub fn ip(&self) -> (ip: i32)
        ensures
            ip == self@.ip,
    {
        self.ip
    }

    /// The operand stack in the order in which its values were pushed.
    pub fn stack(&self) -> (stack: &VecDeque<StackObj>)
        ensures
            stack@ == self@.stack,
    {
        &self.stack
    }

    /// The number of values on the operand stack.
    pub fn stack_depth(&self) -> (depth: usize)
        ensures
            depth == self@.stack.len(),
    {
        self.stack.len()
    }

    /// The number of frames on the call stack, the top-level frame counted.
    pub fn call_depth(&self) -> (depth: usize)
        ensures
            depth == self@.frames.len(),
    {
        self.frames.len()
    }

    /// The frame of the call that is running.
    pub fn current_frame(&self) -> (frame: &Frame)
        requires
            self.wf(),
        ensures
            frame@ == self@.frames.last(),
    {
        &self.frames[self.frames.len() - 1]
    }

    /// The fault on which the machine stopped, with where it stopped, if
    /// it stopped on one.
    pub fn fault_report(&self) -> (report: Option<FaultReport>)
        ensures
            report is Some <==> self@.status is Faulted,
            report matches Some(r) ==> {
                &&& self@.status == Status::Faulted(r.fault)
                &&& r.ip == self@.ip
                &&& r.stack_depth == self@.stack.len()
                &&& r.call_depth == self@.frames.len()
            },
    {
        match self.status {
            Status::Faulted(fault) => Some(
                FaultReport {
                    fault,
                    ip: self.ip,
                    stack_depth: self.stack.len(),
                    call_depth: self.frames.len(),
                },
            ),
            _ => None,
        }
    }
}

} // verus!
