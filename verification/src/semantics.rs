//! The mathematical small-step semantics of the machine: the ghost state,
//! the single dispatch step, and the fuel-bounded iterated run, together
//! with the lemmas that make executions deterministic.

use vstd::prelude::*;

use crate::isa::{OpCode, VmError, decode_op, op_id};

verus! {

/// The ghost state of the interpreter: the instruction pointer, the operand
/// stack (last element is the top), and the flat memory.
#[verifier::ext_equal]
pub struct VmState {
    pub ip: int,
    pub stack: Seq<i64>,
    pub mem: Seq<i64>,
}

/// What one dispatch step does: reach the terminal state, move to a next
/// state (possibly emitting one value), or abort with a fatal condition.
#[verifier::ext_equal]
pub enum StepResult {
    Halted,
    Next { st: VmState, out: Option<i64> },
    Fault { err: VmError },
}

/// Two's-complement wrapping addition on machine words.
pub open spec fn add_wrap(b: i64, a: i64) -> i64 {
    vstd::wrapping::i64_specs::wrapping_add(b, a)
}

/// Two's-complement wrapping subtraction on machine words.
pub open spec fn sub_wrap(b: i64, a: i64) -> i64 {
    vstd::wrapping::i64_specs::wrapping_sub(b, a)
}

/// Two's-complement wrapping multiplication on machine words.
pub open spec fn mul_wrap(b: i64, a: i64) -> i64 {
    vstd::wrapping::i64_specs::wrapping_mul(b, a)
}

/// Truncating (round-toward-zero) signed division, wrapping on the one
/// overflowing case `i64::MIN / -1`; the divisor `a` must not be zero.
pub open spec fn div_wrap(b: i64, a: i64) -> i64 {
    if b == i64::MIN && a == -1 {
        i64::MIN
    } else {
        match b.checked_div(a) {
            Some(q) => q,
            None => 0,
        }
    }
}

/// Whether the jump condition of a conditional-jump opcode holds for the
/// popped pair: `a` is the top of the stack (most recently pushed), `b` the
/// value below it, and the relation is evaluated as `a <rel> b`.
pub open spec fn jump_taken(op: OpCode, a: i64, b: i64) -> bool {
    match op {
        OpCode::JumpIfEqual => a == b,
        OpCode::JumpIfNotEqual => a != b,
        OpCode::JumpIfLessThan => a < b,
        OpCode::JumpIfGreaterThan => a > b,
        OpCode::JumpIfLessThanOrEqual => a <= b,
        OpCode::JumpIfGreaterThanOrEqual => a >= b,
        _ => false,
    }
}

/// One dispatch step from state `s`, after the opcode at `s.ip` has been
/// fetched and decoded to `op`. The operand (if any) is fetched from
/// `s.mem[s.ip + 1]`; a fetch outside memory is fatal before the operation
/// acts, and every stack-popping operation checks its depth first.
pub open spec fn step_op(s: VmState, op: OpCode) -> StepResult {
    match op {
        OpCode::Halt => StepResult::Halted,
        OpCode::Push => {
            if s.ip + 1 < s.mem.len() {
                StepResult::Next {
                    st: VmState { ip: s.ip + 2, stack: s.stack.push(s.mem[s.ip + 1]), mem: s.mem },
                    out: None,
                }
            } else {
                StepResult::Fault { err: VmError::AddressOutOfRange((s.ip + 1) as i64) }
            }
        },
        OpCode::Pop => {
            if s.stack.len() >= 1 {
                StepResult::Next {
                    st: VmState { ip: s.ip + 1, stack: s.stack.drop_last(), mem: s.mem },
                    out: None,
                }
            } else {
                StepResult::Fault { err: VmError::StackUnderflow }
            }
        },
        OpCode::Add | OpCode::Sub | OpCode::Mul => {
            if s.stack.len() >= 2 {
                let a = s.stack.last();
                let b = s.stack.drop_last().last();
                let result = match op {
                    OpCode::Add => add_wrap(b, a),
                    OpCode::Sub => sub_wrap(b, a),
                    _ => mul_wrap(b, a),
                };
                StepResult::Next {
                    st: VmState {
                        ip: s.ip + 1,
                        stack: s.stack.drop_last().drop_last().push(result),
                        mem: s.mem,
                    },
                    out: None,
                }
            } else {
                StepResult::Fault { err: VmError::StackUnderflow }
            }
        },
        OpCode::Div => {
            if s.stack.len() < 2 {
                StepResult::Fault { err: VmError::StackUnderflow }
            } else if s.stack.last() == 0 {
                StepResult::Fault { err: VmError::DivisionByZero }
            } else {
                let a = s.stack.last();
                let b = s.stack.drop_last().last();
                StepResult::Next {
                    st: VmState {
                        ip: s.ip + 1,
                        stack: s.stack.drop_last().drop_last().push(div_wrap(b, a)),
                        mem: s.mem,
                    },
                    out: None,
                }
            }
        },
        OpCode::Jump => {
            if s.ip + 1 < s.mem.len() {
                StepResult::Next {
                    st: VmState { ip: s.mem[s.ip + 1] as int, stack: s.stack, mem: s.mem },
                    out: None,
                }
            } else {
                StepResult::Fault { err: VmError::AddressOutOfRange((s.ip + 1) as i64) }
            }
        },
        OpCode::JumpIfEqual
        | OpCode::JumpIfNotEqual
        | OpCode::JumpIfLessThan
        | OpCode::JumpIfGreaterThan
        | OpCode::JumpIfLessThanOrEqual
        | OpCode::JumpIfGreaterThanOrEqual => {
            if s.ip + 1 >= s.mem.len() {
                StepResult::Fault { err: VmError::AddressOutOfRange((s.ip + 1) as i64) }
            } else if s.stack.len() < 2 {
                StepResult::Fault { err: VmError::StackUnderflow }
            } else {
                let a = s.stack.last();
                let b = s.stack.drop_last().last();
                let target = if jump_taken(op, a, b) {
                    s.mem[s.ip + 1] as int
                } else {
                    s.ip + 2
                };
                StepResult::Next {
                    st: VmState { ip: target, stack: s.stack.drop_last().drop_last(), mem: s.mem },
                    out: None,
                }
            }
        },
        OpCode::Call => {
            if s.ip + 1 < s.mem.len() {
                StepResult::Next {
                    st: VmState {
                        ip: s.mem[s.ip + 1] as int,
                        stack: s.stack.push((s.ip + 2) as i64),
                        mem: s.mem,
                    },
                    out: None,
                }
            } else {
                StepResult::Fault { err: VmError::AddressOutOfRange((s.ip + 1) as i64) }
            }
        },
        OpCode::Return => {
            if s.stack.len() >= 1 {
                StepResult::Next {
                    st: VmState { ip: s.stack.last() as int, stack: s.stack.drop_last(), mem: s.mem },
                    out: None,
                }
            } else {
                StepResult::Fault { err: VmError::StackUnderflow }
            }
        },
        OpCode::Print => {
            if s.stack.len() >= 1 {
                StepResult::Next {
                    st: VmState { ip: s.ip + 1, stack: s.stack, mem: s.mem },
                    out: Some(s.stack.last()),
                }
            } else {
                StepResult::Fault { err: VmError::StackUnderflow }
            }
        },
        OpCode::Store => {
            if s.ip + 1 >= s.mem.len() {
                StepResult::Fault { err: VmError::AddressOutOfRange((s.ip + 1) as i64) }
            } else if s.stack.len() < 1 {
                StepResult::Fault { err: VmError::StackUnderflow }
            } else {
                let addr = s.mem[s.ip + 1];
                if 0 <= addr < s.mem.len() {
                    StepResult::Next {
                        st: VmState {
                            ip: s.ip + 2,
                            stack: s.stack.drop_last(),
                            mem: s.mem.update(addr as int, s.stack.last()),
                        },
                        out: None,
                    }
                } else {
                    StepResult::Fault { err: VmError::AddressOutOfRange(addr) }
                }
            }
        },
        OpCode::Load => {
            if s.ip + 1 >= s.mem.len() {
                StepResult::Fault { err: VmError::AddressOutOfRange((s.ip + 1) as i64) }
            } else {
                let addr = s.mem[s.ip + 1];
                if 0 <= addr < s.mem.len() {
                    StepResult::Next {
                        st: VmState { ip: s.ip + 2, stack: s.stack.push(s.mem[addr as int]), mem: s.mem },
                        out: None,
                    }
                } else {
                    StepResult::Fault { err: VmError::AddressOutOfRange(addr) }
                }
            }
        },
    }
}

/// One dispatch step from state `s`: fetch the opcode at the instruction
/// pointer (a fetch outside memory is fatal), decode it (an unrecognized
/// tag is fatal), then perform the operation via [`step_op`].
pub open spec fn step(s: VmState) -> StepResult {
    if !(0 <= s.ip < s.mem.len()) {
        StepResult::Fault { err: VmError::AddressOutOfRange(s.ip as i64) }
    } else {
        match decode_op(s.mem[s.ip]) {
            None => StepResult::Fault { err: VmError::InvalidOpcode(s.mem[s.ip]) },
            Some(op) => step_op(s, op),
        }
    }
}

/// The outcome of running for at most a given number of steps: either the
/// fuel ran out with the machine still running, or the machine reached the
/// terminal state, or it aborted with a fatal condition. `emitted` collects
/// the values emitted by `Print` steps, in execution order.
#[verifier::ext_equal]
pub enum RunOutcome {
    Running { st: VmState, emitted: Seq<i64> },
    Halted { st: VmState, emitted: Seq<i64> },
    Faulted { err: VmError, st: VmState, emitted: Seq<i64> },
}

impl RunOutcome {
    /// The state the machine is left in.
    pub open spec fn state(self) -> VmState {
        match self {
            RunOutcome::Running { st, .. } => st,
            RunOutcome::Halted { st, .. } => st,
            RunOutcome::Faulted { st, .. } => st,
        }
    }

    /// The values emitted so far, in execution order.
    pub open spec fn emitted(self) -> Seq<i64> {
        match self {
            RunOutcome::Running { emitted, .. } => emitted,
            RunOutcome::Halted { emitted, .. } => emitted,
            RunOutcome::Faulted { emitted, .. } => emitted,
        }
    }

    /// Whether the run ended only because the fuel ran out.
    pub open spec fn is_running(self) -> bool {
        self is Running
    }
}

/// The same outcome with `extra` prepended to the emitted values.
pub open spec fn with_prefix(extra: Seq<i64>, o: RunOutcome) -> RunOutcome {
    match o {
        RunOutcome::Running { st, emitted } => RunOutcome::Running { st, emitted: extra + emitted },
        RunOutcome::Halted { st, emitted } => RunOutcome::Halted { st, emitted: extra + emitted },
        RunOutcome::Faulted { err, st, emitted } => RunOutcome::Faulted {
            err,
            st,
            emitted: extra + emitted,
        },
    }
}

/// The emitted values of one step: one element for a `Print`, none else.
pub open spec fn out_seq(out: Option<i64>) -> Seq<i64> {
    match out {
        Some(v) => seq![v],
        None => Seq::empty(),
    }
}

/// Iterate [`step`] from `s` for at most `fuel` steps.
pub open spec fn run(s: VmState, fuel: nat) -> RunOutcome
    decreases fuel,
{
    if fuel == 0 {
        RunOutcome::Running { st: s, emitted: Seq::empty() }
    } else {
        match step(s) {
            StepResult::Halted => RunOutcome::Halted { st: s, emitted: Seq::empty() },
            StepResult::Fault { err } => RunOutcome::Faulted { err, st: s, emitted: Seq::empty() },
            StepResult::Next { st, out } => with_prefix(out_seq(out), run(st, (fuel - 1) as nat)),
        }
    }
}

/// Prefixing emitted values composes: prefixing `a` and then `b` is the
/// same as prefixing `a + b` at once.
pub proof fn lemma_with_prefix_compose(a: Seq<i64>, b: Seq<i64>, o: RunOutcome)
    ensures
        with_prefix(a, with_prefix(b, o)) == with_prefix(a + b, o),
{
    assert((a + b) + o.emitted() =~= a + (b + o.emitted()));
    match o {
        RunOutcome::Running { st, emitted } => {
            assert(with_prefix(a, with_prefix(b, o)) =~~= with_prefix(a + b, o));
        },
        RunOutcome::Halted { st, emitted } => {
            assert(with_prefix(a, with_prefix(b, o)) =~~= with_prefix(a + b, o));
        },
        RunOutcome::Faulted { err, st, emitted } => {
            assert(with_prefix(a, with_prefix(b, o)) =~~= with_prefix(a + b, o));
        },
    }
}

/// Once a run has reached the terminal state or a fatal condition, giving
/// it more fuel changes nothing.
pub proof fn lemma_run_stable(s: VmState, f1: nat, f2: nat)
    requires
        f1 <= f2,
        !run(s, f1).is_running(),
    ensures
        run(s, f2) == run(s, f1),
    decreases f1,
{
    if f1 == 0 {
    } else {
        match step(s) {
            StepResult::Halted => {},
            StepResult::Fault { err } => {},
            StepResult::Next { st, out } => {
                lemma_run_stable(st, (f1 - 1) as nat, (f2 - 1) as nat);
            },
        }
    }
}

/// Execution is deterministic: two runs of the same state that both end
/// (in the terminal state or in a fatal condition, under any fuels) end in
/// the same outcome — in particular they emit the same values. This is the
/// sense in which the same immutable program image always produces the same
/// output sequence.
pub proof fn lemma_run_deterministic(s: VmState, f1: nat, f2: nat)
    requires
        !run(s, f1).is_running(),
        !run(s, f2).is_running(),
    ensures
        run(s, f1) == run(s, f2),
{
    if f1 <= f2 {
        lemma_run_stable(s, f1, f2);
    } else {
        lemma_run_stable(s, f2, f1);
    }
}

/// `Div` with a zero divisor on top of the stack faults with
/// `DivisionByZero`: it never silently produces a result.
pub proof fn lemma_div_by_zero_faults(s: VmState)
    requires
        0 <= s.ip < s.mem.len(),
        s.mem[s.ip] == op_id(OpCode::Div),
        s.stack.len() >= 2,
        s.stack.last() == 0,
    ensures
        step(s) == (StepResult::Fault { err: VmError::DivisionByZero }),
{
}

/// `Pop` or `Return` on an empty stack faults with `StackUnderflow`: the
/// depth is checked before anything is read.
pub proof fn lemma_underflow_faults(s: VmState)
    requires
        0 <= s.ip < s.mem.len(),
        s.stack.len() == 0,
        s.mem[s.ip] == op_id(OpCode::Pop) || s.mem[s.ip] == op_id(OpCode::Return),
    ensures
        step(s) == (StepResult::Fault { err: VmError::StackUnderflow }),
{
}

/// The call/return protocol: a `Call` pushes the address of the slot right
/// after its own two slots and transfers control to its operand; if a
/// `Return` later executes with the stack in the same shape it had
/// immediately after that push — the pushed return address still on top —
/// control resumes at the instruction immediately following the `Call`,
/// with the stack restored to its depth before the `Call`.
pub proof fn lemma_call_return_resumes(s: VmState, t: VmState)
    requires
        0 <= s.ip,
        s.ip + 1 < s.mem.len(),
        s.mem[s.ip] == op_id(OpCode::Call),
        s.ip + 2 <= i64::MAX,
        0 <= t.ip < t.mem.len(),
        t.mem[t.ip] == op_id(OpCode::Return),
        t.stack == s.stack.push((s.ip + 2) as i64),
    ensures
        step(s) == (StepResult::Next {
            st: VmState {
                ip: s.mem[s.ip + 1] as int,
                stack: s.stack.push((s.ip + 2) as i64),
                mem: s.mem,
            },
            out: None,
        }),
        step(t) == (StepResult::Next {
            st: VmState { ip: s.ip + 2, stack: s.stack, mem: t.mem },
            out: None,
        }),
{
    assert(t.stack.last() == (s.ip + 2) as i64);
    assert(t.stack.drop_last() =~= s.stack);
    assert((s.ip + 2) as i64 as int == s.ip + 2);
}

} // verus!
