//! The interpreter: a fixed-size flat memory, an operand stack, and an
//! instruction pointer, executed one fetch-decode-execute step at a time
//! and verified against the small-step semantics in [`crate::semantics`].

use vstd::prelude::*;

use crate::isa::{OpCode, VmError};
use crate::semantics::{
    RunOutcome, StepResult, VmState, lemma_with_prefix_compose, out_seq, run, step, with_prefix,
};

verus! {

/// What one interpreter step reported: the machine moved on (possibly
/// emitting one value), reached the terminal state, or aborted with a
/// fatal condition.
#[derive(Clone, Copy, Debug, PartialEq, Eq)]
pub enum StepStatus {
    Stepped { output: Option<i64> },
    Halted,
    Fault { err: VmError },
}

/// How a bounded run ended: the terminal state was reached, a fatal
/// condition aborted it, or the step budget ran out first.
#[derive(Clone, Copy, Debug, PartialEq, Eq)]
pub enum RunStatus {
    Halted,
    Faulted { err: VmError },
    OutOfSteps,
}

/// The [`RunStatus`] reported for a semantic outcome.
pub open spec fn status_of(o: RunOutcome) -> RunStatus {
    match o {
        RunOutcome::Running { .. } => RunStatus::OutOfSteps,
        RunOutcome::Halted { .. } => RunStatus::Halted,
        RunOutcome::Faulted { err, .. } => RunStatus::Faulted { err },
    }
}

/// The virtual machine: an instruction pointer, an operand stack (top at
/// the end), and a flat zero-initialized memory holding both the program
/// image (at the low addresses) and program-writable data cells.
pub struct VirtualMachine {
    ip: i64,
    stack: Vec<i64>,
    memory: Vec<i64>,
}

impl View for VirtualMachine {
    type V = VmState;

    closed spec fn view(&self) -> VmState {
        VmState { ip: self.ip as int, stack: self.stack@, mem: self.memory@ }
    }
}

impl VirtualMachine {
    /// Machine limit: every memory address, and hence every reachable
    /// instruction-pointer increment, fits in the machine's word type.
    pub open spec fn wf(&self) -> bool {
        self@.mem.len() <= i64::MAX
    }

    /// A fresh machine: instruction pointer 0, an empty operand stack
    /// (`stack_size` is a capacity hint only, not initial contents), and a
    /// zero-filled memory of `memory_size` cells.
    pub fn new(stack_size: i64, memory_size: i64) -> (r: VirtualMachine)
        requires
            0 <= stack_size <= usize::MAX,
            0 <= memory_size <= usize::MAX,
        ensures
            r.wf(),
            r@.ip == 0,
            r@.stack == Seq::<i64>::empty(),
            r@.mem == Seq::new(memory_size as nat, |i: int| 0i64),
    {
        let cap = memory_size as usize;
        let mut memory: Vec<i64> = Vec::with_capacity(cap);
        let mut i: usize = 0;
        while i < cap
            invariant
                i <= cap,
                memory@.len() == i,
                forall|j: int| 0 <= j < i ==> memory@[j] == 0i64,
            decreases cap - i,
        {
            memory.push(0);
            i += 1;
        }
        proof {
            assert(memory@ =~= Seq::new(memory_size as nat, |i: int| 0i64));
        }
        VirtualMachine { ip: 0, stack: Vec::with_capacity(stack_size as usize), memory }
    }

    /// Copies the program image into memory starting at address 0, leaving
    /// the cells beyond it as they were. An image longer than the memory
    /// capacity is rejected with [`VmError::ProgramTooLarge`] and leaves
    /// the machine untouched.
    pub fn load_program(&mut self, program: &[i64]) -> (r: Result<(), VmError>)
        ensures
            final(self)@.mem.len() == old(self)@.mem.len(),
            match r {
                Ok(()) => {
                    &&& program@.len() <= old(self)@.mem.len()
                    &&& final(self)@.ip == old(self)@.ip
                    &&& final(self)@.stack == old(self)@.stack
                    &&& forall|j: int|
                        0 <= j < program@.len() ==> final(self)@.mem[j] == program@[j]
                    &&& forall|j: int|
                        program@.len() <= j < old(self)@.mem.len() ==> final(self)@.mem[j]
                            == old(self)@.mem[j]
                },
                Err(e) => {
                    &&& e == VmError::ProgramTooLarge
                    &&& program@.len() > old(self)@.mem.len()
                    &&& final(self)@ == old(self)@
                },
            },
    {
        let n = program.len();
        if n > self.memory.len() {
            return Err(VmError::ProgramTooLarge);
        }
        let ghost ip0 = self.ip;
        let ghost stack0 = self.stack@;
        let ghost mem0 = self.memory@;
        let mut i: usize = 0;
        while i < n
            invariant
                i <= n,
                n == program@.len(),
                n <= mem0.len(),
                self.ip == ip0,
                self.stack@ == stack0,
                self.memory@.len() == mem0.len(),
                forall|j: int| 0 <= j < i ==> self.memory@[j] == program@[j],
                forall|j: int| i <= j < mem0.len() ==> self.memory@[j] == mem0[j],
            decreases n - i,
        {
            self.memory[i] = program[i];
            i += 1;
        }
        Ok(())
    }

    /// Narrows a nonnegative machine word to an index.
    pub fn to_usize(&self, value: i64) -> (r: usize)
        requires
            0 <= value <= usize::MAX,
        ensures
            r == value,
    {
        value as usize
    }

    /// The top of the operand stack, without popping it.
    pub fn stack_top(&self) -> (r: Option<i64>)
        ensures
            r == (if self@.stack.len() == 0 {
                None::<i64>
            } else {
                Some(self@.stack.last())
            }),
    {
        if self.stack.len() == 0 {
            None
        } else {
            Some(self.stack[self.stack.len() - 1])
        }
    }

    /// One fetch-decode-execute step, exactly as the semantic [`step`]
    /// prescribes: on a fault or on the terminal state the machine is left
    /// unchanged, otherwise it assumes the successor state.
    pub fn step(&mut self) -> (r: StepStatus)
        requires
            old(self).wf(),
        ensures
            final(self).wf(),
            match step(old(self)@) {
                StepResult::Halted => r == StepStatus::Halted && final(self)@ == old(self)@,
                StepResult::Fault { err } => r == (StepStatus::Fault { err }) && final(self)@
                    == old(self)@,
                StepResult::Next { st, out } => r == (StepStatus::Stepped { output: out })
                    && final(self)@ == st,
            },
    {
        let ip = self.ip;
        if !(ip >= 0 && (ip as u64) < (self.memory.len() as u64)) {
            return StepStatus::Fault { err: VmError::AddressOutOfRange(ip) };
        }
        let code = self.memory[ip as usize];
        let op = match OpCode::decode(code) {
            None => {
                return StepStatus::Fault { err: VmError::InvalidOpcode(code) };
            },
            Some(op) => op,
        };
        match op {
            OpCode::Halt => StepStatus::Halted,
            OpCode::Push => {
                let next = ip + 1;
                if !((next as u64) < (self.memory.len() as u64)) {
                    return StepStatus::Fault { err: VmError::AddressOutOfRange(next) };
                }
                let value = self.memory[next as usize];
                self.stack.push(value);
                self.ip = ip + 2;
                StepStatus::Stepped { output: None }
            },
            OpCode::Pop => {
                if self.stack.len() == 0 {
                    return StepStatus::Fault { err: VmError::StackUnderflow };
                }
                self.stack.pop();
                self.ip = ip + 1;
                StepStatus::Stepped { output: None }
            },
            OpCode::Add => {
                if self.stack.len() < 2 {
                    return StepStatus::Fault { err: VmError::StackUnderflow };
                }
                let a = self.stack.pop().unwrap();
                let b = self.stack.pop().unwrap();
                self.stack.push(b.wrapping_add(a));
                self.ip = ip + 1;
                StepStatus::Stepped { output: None }
            },
            OpCode::Sub => {
                if self.stack.len() < 2 {
                    return StepStatus::Fault { err: VmError::StackUnderflow };
                }
                let a = self.stack.pop().unwrap();
                let b = self.stack.pop().unwrap();
                self.stack.push(b.wrapping_sub(a));
                self.ip = ip + 1;
                StepStatus::Stepped { output: None }
            },
            OpCode::Mul => {
                if self.stack.len() < 2 {
                    return StepStatus::Fault { err: VmError::StackUnderflow };
                }
                let a = self.stack.pop().unwrap();
                let b = self.stack.pop().unwrap();
                self.stack.push(b.wrapping_mul(a));
                self.ip = ip + 1;
                StepStatus::Stepped { output: None }
            },
            OpCode::Div => {
                if self.stack.len() < 2 {
                    return StepStatus::Fault { err: VmError::StackUnderflow };
                }
                if self.stack[self.stack.len() - 1] == 0 {
                    return StepStatus::Fault { err: VmError::DivisionByZero };
                }
                let a = self.stack.pop().unwrap();
                let b = self.stack.pop().unwrap();
                let quotient = if b == i64::MIN && a == -1 {
                    i64::MIN
                } else {
                    match b.checked_div(a) {
                        Some(q) => q,
                        None => 0,
                    }
                };
                self.stack.push(quotient);
                self.ip = ip + 1;
                StepStatus::Stepped { output: None }
            },
            OpCode::Jump => {
                let next = ip + 1;
                if !((next as u64) < (self.memory.len() as u64)) {
                    return StepStatus::Fault { err: VmError::AddressOutOfRange(next) };
                }
                let address = self.memory[next as usize];
                self.ip = address;
                StepStatus::Stepped { output: None }
            },
            OpCode::JumpIfEqual
            | OpCode::JumpIfNotEqual
            | OpCode::JumpIfLessThan
            | OpCode::JumpIfGreaterThan
            | OpCode::JumpIfLessThanOrEqual
            | OpCode::JumpIfGreaterThanOrEqual => {
                let next = ip + 1;
                if !((next as u64) < (self.memory.len() as u64)) {
                    return StepStatus::Fault { err: VmError::AddressOutOfRange(next) };
                }
                if self.stack.len() < 2 {
                    return StepStatus::Fault { err: VmError::StackUnderflow };
                }
                let address = self.memory[next as usize];
                let a = self.stack.pop().unwrap();
                let b = self.stack.pop().unwrap();
                let taken = match op {
                    OpCode::JumpIfEqual => a == b,
                    OpCode::JumpIfNotEqual => a != b,
                    OpCode::JumpIfLessThan => a < b,
                    OpCode::JumpIfGreaterThan => a > b,
                    OpCode::JumpIfLessThanOrEqual => a <= b,
                    _ => a >= b,
                };
                if taken {
                    self.ip = address;
                } else {
                    self.ip = ip + 2;
                }
                StepStatus::Stepped { output: None }
            },
            OpCode::Call => {
                let next = ip + 1;
                if !((next as u64) < (self.memory.len() as u64)) {
                    return StepStatus::Fault { err: VmError::AddressOutOfRange(next) };
                }
                let address = self.memory[next as usize];
                self.stack.push(ip + 2);
                self.ip = address;
                StepStatus::Stepped { output: None }
            },
            OpCode::Return => {
                if self.stack.len() == 0 {
                    return StepStatus::Fault { err: VmError::StackUnderflow };
                }
                let address = self.stack.pop().unwrap();
                self.ip = address;
                StepStatus::Stepped { output: None }
            },
            OpCode::Print => {
                if self.stack.len() == 0 {
                    return StepStatus::Fault { err: VmError::StackUnderflow };
                }
                let value = self.stack[self.stack.len() - 1];
                self.ip = ip + 1;
                StepStatus::Stepped { output: Some(value) }
            },
            OpCode::Store => {
                let next = ip + 1;
                if !((next as u64) < (self.memory.len() as u64)) {
                    return StepStatus::Fault { err: VmError::AddressOutOfRange(next) };
                }
                if self.stack.len() == 0 {
                    return StepStatus::Fault { err: VmError::StackUnderflow };
                }
                let address = self.memory[next as usize];
                if !(address >= 0 && (address as u64) < (self.memory.len() as u64)) {
                    return StepStatus::Fault { err: VmError::AddressOutOfRange(address) };
                }
                let value = self.stack.pop().unwrap();
                self.memory[address as usize] = value;
                self.ip = ip + 2;
                StepStatus::Stepped { output: None }
            },
            OpCode::Load => {
                let next = ip + 1;
                if !((next as u64) < (self.memory.len() as u64)) {
                    return StepStatus::Fault { err: VmError::AddressOutOfRange(next) };
                }
                let address = self.memory[next as usize];
                if !(address >= 0 && (address as u64) < (self.memory.len() as u64)) {
                    return StepStatus::Fault { err: VmError::AddressOutOfRange(address) };
                }
                let value = self.memory[address as usize];
                self.stack.push(value);
                self.ip = ip + 2;
                StepStatus::Stepped { output: None }
            },
        }
    }

    /// Runs the dispatch loop for at most `max_steps` steps: exactly the
    /// semantic [`run`] with that much fuel. Returns the values emitted by
    /// `Print` steps, in execution order, and how the run ended; a machine
    /// that neither halts nor faults within the budget is reported as
    /// [`RunStatus::OutOfSteps`] and can be resumed by calling again.
    pub fn execute(&mut self, max_steps: u64) -> (r: (Vec<i64>, RunStatus))
        requires
            old(self).wf(),
        ensures
            final(self).wf(),
            ({
                let o = run(old(self)@, max_steps as nat);
                &&& r.1 == status_of(o)
                &&& r.0@ == o.emitted()
                &&& final(self)@ == o.state()
            }),
    {
        let ghost init = self@;
        let mut outputs: Vec<i64> = Vec::new();
        let mut status = RunStatus::OutOfSteps;
        let mut k: u64 = 0;
        while k < max_steps
            invariant_except_break
                k <= max_steps,
                status == RunStatus::OutOfSteps,
                self.wf(),
                run(init, max_steps as nat) == with_prefix(
                    outputs@,
                    run(self@, (max_steps - k) as nat),
                ),
            ensures
                self.wf(),
                status == status_of(run(init, max_steps as nat)),
                outputs@ == run(init, max_steps as nat).emitted(),
                self@ == run(init, max_steps as nat).state(),
            decreases max_steps - k,
        {
            let ghost prev = self@;
            let ghost rem = (max_steps - k) as nat;
            match self.step() {
                StepStatus::Halted => {
                    proof {
                        assert(run(prev, rem) == RunOutcome::Halted {
                            st: prev,
                            emitted: Seq::empty(),
                        });
                        assert(outputs@ + Seq::<i64>::empty() =~= outputs@);
                    }
                    status = RunStatus::Halted;
                    break ;
                },
                StepStatus::Fault { err } => {
                    proof {
                        assert(run(prev, rem) == RunOutcome::Faulted {
                            err,
                            st: prev,
                            emitted: Seq::empty(),
                        });
                        assert(outputs@ + Seq::<i64>::empty() =~= outputs@);
                    }
                    status = RunStatus::Faulted { err };
                    break ;
                },
                StepStatus::Stepped { output } => {
                    let ghost out = output;
                    let ghost outs0 = outputs@;
                    if let Some(v) = output {
                        outputs.push(v);
                    }
                    proof {
                        let next_state = self@;
                        assert(run(prev, rem) == with_prefix(
                            out_seq(out),
                            run(next_state, (rem - 1) as nat),
                        ));
                        lemma_with_prefix_compose(outs0, out_seq(out), run(next_state, (rem - 1) as nat));
                        assert(outputs@ =~= outs0 + out_seq(out));
                    }
                    k = k + 1;
                },
            }
        }
        (outputs, status)
    }
}

} // verus!
