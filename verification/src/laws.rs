//! What holds of every program and every state, proved from the model.

use vstd::prelude::*;
use crate::binary32::{truthy, ONE, ZERO};
use crate::events::{Arith, Effect, Fault, Operation, Status};
use crate::frame::FrameView;
use crate::model::{execute, in_program, resume, run, step, State};
use crate::opcodes::Opcode;
use crate::stackobj::StackObj;

verus! {

/// A running machine about to execute the instruction at its pointer.
pub open spec fn about_to(program: Seq<Opcode>, s: State) -> bool {
    s.status is Running && in_program(program, s.ip)
}

/// The instructions of `program` from `from` on, `count` of them, are all
/// pushes.
pub open spec fn all_pushes(program: Seq<Opcode>, from: int, count: nat) -> bool {
    &&& 0 <= from
    &&& from + count <= program.len()
    &&& forall|i: int| from <= i < from + count ==> (#[trigger] program[i]) is Push
}

/// The instructions of `program` from `from` on, `count` of them, are all
/// pops.
pub open spec fn all_pops(program: Seq<Opcode>, from: int, count: nat) -> bool {
    &&& 0 <= from
    &&& from + count <= program.len()
    &&& forall|i: int| from <= i < from + count ==> (#[trigger] program[i]) is Pop
}

/// The values that the pushes from `from` on, `count` of them, push.
pub open spec fn pushed(program: Seq<Opcode>, from: int, count: nat) -> Seq<StackObj> {
    Seq::new(count, |i: int| program[from + i]->Push_0)
}

/// A run can be cut in two: where the first part ends quietly with the
/// machine running, the second part goes on from there.
pub proof fn lemma_run_splits(program: Seq<Opcode>, s: State, first: nat, second: nat)
    requires
        run(program, s, first).1 is Nothing,
        run(program, s, first).0.status is Running,
    ensures
        run(program, s, first + second) == run(program, run(program, s, first).0, second),
    decreases first,
{
    if first > 0 {
        let (next, effect) = step(program, s);
        if effect is Nothing && next.status is Running {
            lemma_run_splits(program, next, (first - 1) as nat, second);
        }
    }
}

/// A row of pushes puts its values on the stack, the first one lowest, and
/// moves nothing else.
pub proof fn lemma_pushes_run(program: Seq<Opcode>, s: State, count: nat)
    requires
        s.status is Running,
        all_pushes(program, s.ip, count),
    ensures
        run(program, s, count) == (
            State { ip: s.ip + count, stack: s.stack + pushed(program, s.ip, count), ..s },
            Effect::Nothing,
        ),
    decreases count,
{
    if count == 0 {
        assert(s.stack + pushed(program, s.ip, 0) =~= s.stack);
    } else {
        let (next, effect) = step(program, s);
        assert(program[s.ip] is Push);
        lemma_pushes_run(program, next, (count - 1) as nat);
        assert(next.stack + pushed(program, next.ip, (count - 1) as nat) =~= s.stack + pushed(
            program,
            s.ip,
            count,
        ));
    }
}

/// A row of pops on a stack that is deep enough takes that many values
/// off the top and moves nothing else.
pub proof fn lemma_pops_run(program: Seq<Opcode>, s: State, count: nat)
    requires
        s.status is Running,
        all_pops(program, s.ip, count),
        count <= s.stack.len(),
    ensures
        run(program, s, count) == (
            State { ip: s.ip + count, stack: s.below(count as int), ..s },
            Effect::Nothing,
        ),
    decreases count,
{
    if count == 0 {
        assert(s.below(0) =~= s.stack);
    } else {
        let (next, effect) = step(program, s);
        assert(program[s.ip] is Pop);
        lemma_pops_run(program, next, (count - 1) as nat);
        assert(next.below(count - 1) =~= s.below(count as int));
    }
}

/// Pushes and pops balance: a program of `n` pushes followed by `n` pops,
/// run from its start, faults nowhere and ends with the stack as it found
/// it. The step after the last pop finds the program at its end and halts.
pub proof fn lemma_push_pop_balance(program: Seq<Opcode>, s: State, n: nat)
    requires
        s.status is Running,
        s.ip == 0,
        program.len() == 2 * n,
        all_pushes(program, 0, n),
        all_pops(program, n as int, n),
    ensures
        run(program, s, 2 * n) == (s.with_ip(2 * n as int), Effect::Nothing),
        run(program, s, 2 * n + 1) == (
            s.with_ip(2 * n as int).with_status(Status::Halted),
            Effect::Nothing,
        ),
{
    lemma_pushes_run(program, s, n);
    let middle = run(program, s, n).0;
    lemma_pops_run(program, middle, n);
    assert(middle.below(n as int) =~= s.stack);
    lemma_run_splits(program, s, n, n);
    assert(n + n == 2 * n);
    lemma_run_splits(program, s, 2 * n, 1);
    reveal_with_fuel(run, 2);
}

/// Pushes and pops balance on a fresh machine: `n` pushes followed by `n`
/// pops end halted, without a fault, with an empty stack.
pub proof fn lemma_push_pop_balance_from_start(program: Seq<Opcode>, n: nat)
    requires
        program.len() == 2 * n,
        all_pushes(program, 0, n),
        all_pops(program, n as int, n),
    ensures
        run(program, State::initial(), 2 * n + 1) == (
            State { ip: 2 * n as int, status: Status::Halted, ..State::initial() },
            Effect::Nothing,
        ),
        run(program, State::initial(), 2 * n + 1).0.stack == Seq::<StackObj>::empty(),
{
    lemma_push_pop_balance(program, State::initial(), n);
}

/// A pop on an empty stack faults, asking for one operand and finding
/// none, whatever else is true of the machine.
pub proof fn lemma_pop_on_empty_faults(program: Seq<Opcode>, s: State)
    requires
        about_to(program, s),
        program[s.ip] is Pop,
        s.stack.len() == 0,
    ensures
        step(program, s).0.status == Status::Faulted(
            Fault::StackUnderflow { required: 1, available: 0 },
        ),
{
}

/// `Dup` pushes a second copy of the top, and faults on an empty stack.
pub proof fn lemma_dup(program: Seq<Opcode>, s: State)
    requires
        about_to(program, s),
        program[s.ip] is Dup,
    ensures
        s.stack.len() > 0 ==> step(program, s) == (
            State { ip: s.ip + 1, stack: s.stack.push(s.stack.last()), ..s },
            Effect::Nothing,
        ),
        s.stack.len() == 0 ==> step(program, s).0.status == Status::Faulted(
            Fault::StackUnderflow { required: 1, available: 0 },
        ),
{
}

/// `Not` on a false number leaves one in its place, and zero on a true
/// number.
pub proof fn lemma_not(program: Seq<Opcode>, s: State, x: u32)
    requires
        about_to(program, s),
        program[s.ip] is Not,
        s.stack.len() > 0,
        s.stack.last() == StackObj::Num(x),
    ensures
        step(program, s).0.status is Running,
        step(program, s).0.stack == s.below(1).push(
            StackObj::Num(
                if truthy(x) {
                    ZERO
                } else {
                    ONE
                },
            ),
        ),
{
}

/// A name that the current frame does not bind loads as zero, and loading
/// never faults.
pub proof fn lemma_load_default(program: Seq<Opcode>, s: State, key: Seq<char>)
    requires
        about_to(program, s),
        program[s.ip] matches Opcode::Load(k) && k@ == key,
    ensures
        step(program, s).0.status is Running,
        !s.frames.last().vars.contains_key(key) ==> step(program, s).0.stack == s.stack.push(
            StackObj::Num(ZERO),
        ),
        s.frames.last().vars.contains_key(key) ==> step(program, s).0.stack == s.stack.push(
            s.frames.last().vars[key],
        ),
{
}

/// On a fresh machine every name loads as zero.
pub proof fn lemma_load_on_fresh_machine(program: Seq<Opcode>, key: Seq<char>)
    requires
        in_program(program, 0),
        program[0] matches Opcode::Load(k) && k@ == key,
    ensures
        step(program, State::initial()) == (
            State { ip: 1, stack: seq![StackObj::Num(ZERO)], ..State::initial() },
            Effect::Nothing,
        ),
{
    assert(Seq::<StackObj>::empty().push(StackObj::Num(ZERO)) =~= seq![StackObj::Num(ZERO)]);
}

/// A call opens a frame of its own: whatever the caller has bound, every
/// name loads as zero in the callee until the callee itself binds it.
pub proof fn lemma_call_isolates(program: Seq<Opcode>, s: State, target: i32, key: Seq<char>)
    requires
        about_to(program, s),
        program[s.ip] == Opcode::Call(target),
        in_program(program, target as int),
        program[target as int] matches Opcode::Load(k) && k@ == key,
    ensures
        ({
            let called = step(program, s).0;
            let loaded = step(program, called).0;
            &&& called.status is Running
            &&& called.ip == target
            &&& called.frames == s.frames.push(FrameView::empty(s.ip + 1))
            &&& loaded.status is Running
            &&& loaded.stack == s.stack.push(StackObj::Num(ZERO))
        }),
{
}

/// No instruction touches a frame under the current one: the variables of
/// the callers are out of the callee's reach.
pub proof fn lemma_lower_frames_stay(program: Seq<Opcode>, s: State, i: int)
    requires
        0 <= i < s.frames.len() - 1,
    ensures
        i < step(program, s).0.frames.len(),
        step(program, s).0.frames[i] == s.frames[i],
{
}

/// A return gives the caller its frames back as the call found them, and
/// goes on behind the call.
pub proof fn lemma_call_then_return(program: Seq<Opcode>, s: State, target: i32)
    requires
        about_to(program, s),
        s.frames.len() >= 1,
        program[s.ip] == Opcode::Call(target),
        in_program(program, target as int),
        program[target as int] is Ret,
    ensures
        ({
            let called = step(program, s).0;
            step(program, called) == (s.with_ip(s.ip + 1), Effect::Nothing)
        }),
{
    let called = step(program, s).0;
    assert(called.frames.drop_last() =~= s.frames);
}

/// The top-level frame is never closed: the call stack of a machine that
/// has a frame keeps one, whatever it executes, and a return that finds
/// only the top-level frame faults.
pub proof fn lemma_top_level_frame_stays(program: Seq<Opcode>, s: State, result: u32)
    requires
        s.frames.len() >= 1,
    ensures
        step(program, s).0.frames.len() >= 1,
        resume(s, result).frames.len() >= 1,
        about_to(program, s) && program[s.ip] is Ret && s.frames.len() == 1 ==> step(
            program,
            s,
        ).0.status == Status::Faulted(Fault::CallStackUnderflow),
{
}

/// One step moves the depth of the operand stack by two down at most and
/// by one up at most.
pub proof fn lemma_stack_moves_little(program: Seq<Opcode>, s: State)
    ensures
        s.stack.len() - 2 <= step(program, s).0.stack.len() <= s.stack.len() + 1,
{
}

/// An operator never takes a reference for a number: an arithmetic
/// instruction with a reference among its two operands faults with a type
/// mismatch that names the operator and the reference, and asks nothing of
/// the host.
pub proof fn lemma_arith_rejects_references(s: State, operator: Arith)
    requires
        s.stack.len() >= 2,
        s.peek(0) is Ref || s.peek(1) is Ref,
    ensures
        s.arith(operator) == (
            s.with_status(
                Status::Faulted(
                    Fault::TypeMismatch {
                        operation: Operation::Arith(operator),
                        operand: if s.peek(1) is Ref {
                            s.peek(1)
                        } else {
                            s.peek(0)
                        },
                    },
                ),
            ),
            Effect::Nothing,
        ),
{
}

/// An instruction that faults leaves both stacks as they were.
pub proof fn lemma_fault_keeps_stacks(instruction: Opcode, s: State)
    requires
        execute(instruction, s).0.status is Faulted,
        !(s.status is Faulted),
    ensures
        execute(instruction, s).0.stack == s.stack,
        execute(instruction, s).0.frames == s.frames,
        execute(instruction, s).0.ip == s.ip,
        execute(instruction, s).1 is Nothing,
{
}

/// Halted and faulted are final: no step and no result handed in moves
/// such a machine, and a run of any length leaves it where it is.
pub proof fn lemma_final_states_stay(program: Seq<Opcode>, s: State, result: u32, limit: nat)
    requires
        s.status is Halted || s.status is Faulted,
    ensures
        step(program, s) == (s, Effect::Nothing),
        resume(s, result) == s,
        run(program, s, limit) == (s, Effect::Nothing),
{
}

/// A machine whose pointer has left the program halts at the next step and
/// changes nothing else.
pub proof fn lemma_end_of_program_halts(program: Seq<Opcode>, s: State)
    requires
        s.status is Running,
        !in_program(program, s.ip),
    ensures
        step(program, s) == (s.with_status(Status::Halted), Effect::Nothing),
{
}

/// An arithmetic instruction on two numbers hands them to the host, the
/// one pushed first on the left, and the result that the host hands in
/// takes their place.
pub proof fn lemma_arith_order(s: State, operator: Arith, left: u32, right: u32, result: u32)
    requires
        s.status is Running,
        s.stack.len() >= 2,
        s.peek(1) == StackObj::Num(left),
        s.peek(0) == StackObj::Num(right),
    ensures
        s.arith(operator).1 == (Effect::Compute { operator, left, right }),
        resume(s.arith(operator).0, result) == s.with_stack(
            s.below(2).push(StackObj::Num(result)),
        ),
{
}

} // verus!
