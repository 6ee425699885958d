//! The instruction set: operation tags, their numeric identifiers and
//! operand arities, and the symbolic instruction form consumed by the
//! assembler.

use vstd::prelude::*;

verus! {

/// The closed set of 19 operation tags. Each tag has a fixed numeric
/// identifier (see [`op_id`]) and a fixed operand arity (see [`op_arity`]).
#[derive(Clone, Copy, Debug, PartialEq, Eq, Structural)]
pub enum OpCode {
    Halt,
    Push,
    Pop,
    Add,
    Sub,
    Mul,
    Div,
    Jump,
    JumpIfEqual,
    JumpIfNotEqual,
    JumpIfLessThan,
    JumpIfGreaterThan,
    JumpIfLessThanOrEqual,
    JumpIfGreaterThanOrEqual,
    Call,
    Return,
    Print,
    Store,
    Load,
}

/// The symbolic, pre-lowering form of one operation: one variant per
/// [`OpCode`], carrying the inline operand (if the opcode takes one) as a
/// typed field.
#[derive(Clone, Copy, Debug, PartialEq, Eq, Structural)]
pub enum Instruction {
    Push(i64),
    Pop,
    Add,
    Sub,
    Mul,
    Div,
    Jump(i64),
    JumpIfEqual(i64),
    JumpIfNotEqual(i64),
    JumpIfLessThan(i64),
    JumpIfGreaterThan(i64),
    JumpIfLessThanOrEqual(i64),
    JumpIfGreaterThanOrEqual(i64),
    Call(i64),
    Return,
    Print,
    Store(i64),
    Load(i64),
    Halt,
}

/// A fatal condition: each one unconditionally aborts the current run.
#[derive(Clone, Copy, Debug, PartialEq, Eq, Structural)]
pub enum VmError {
    /// An unrecognized numeric tag was fetched at the instruction pointer;
    /// carries the offending tag.
    InvalidOpcode(i64),
    /// A pop or peek was attempted on an empty (or too shallow) stack.
    StackUnderflow,
    /// `Div` was executed with a zero top-of-stack divisor.
    DivisionByZero,
    /// A memory access (instruction fetch, operand fetch, or `Store`/`Load`
    /// target) fell outside the allocated bounds; carries the address.
    AddressOutOfRange(i64),
    /// A program image longer than the memory capacity was loaded.
    ProgramTooLarge,
}

/// The numeric identifier of each operation tag: the wire format shared by
/// the assembler and the interpreter.
pub open spec fn op_id(op: OpCode) -> i64 {
    match op {
        OpCode::Halt => 0x00,
        OpCode::Push => 0x01,
        OpCode::Pop => 0x02,
        OpCode::Add => 0x03,
        OpCode::Sub => 0x04,
        OpCode::Mul => 0x05,
        OpCode::Div => 0x06,
        OpCode::Jump => 0x07,
        OpCode::JumpIfEqual => 0x08,
        OpCode::JumpIfNotEqual => 0x09,
        OpCode::JumpIfLessThan => 0x0A,
        OpCode::JumpIfGreaterThan => 0x0B,
        OpCode::JumpIfLessThanOrEqual => 0x0C,
        OpCode::JumpIfGreaterThanOrEqual => 0x0D,
        OpCode::Call => 0x0E,
        OpCode::Return => 0x0F,
        OpCode::Print => 0x10,
        OpCode::Store => 0x11,
        OpCode::Load => 0x12,
    }
}

/// How many inline operand slots follow the opcode in memory: 0 or 1.
pub open spec fn op_arity(op: OpCode) -> nat {
    match op {
        OpCode::Push => 1,
        OpCode::Jump => 1,
        OpCode::JumpIfEqual => 1,
        OpCode::JumpIfNotEqual => 1,
        OpCode::JumpIfLessThan => 1,
        OpCode::JumpIfGreaterThan => 1,
        OpCode::JumpIfLessThanOrEqual => 1,
        OpCode::JumpIfGreaterThanOrEqual => 1,
        OpCode::Call => 1,
        OpCode::Store => 1,
        OpCode::Load => 1,
        _ => 0,
    }
}

/// The fallible inverse of [`op_id`]: identifiers outside `0x00..=0x12`
/// decode to `None`.
pub open spec fn decode_op(value: i64) -> Option<OpCode> {
    if value == 0x00 {
        Some(OpCode::Halt)
    } else if value == 0x01 {
        Some(OpCode::Push)
    } else if value == 0x02 {
        Some(OpCode::Pop)
    } else if value == 0x03 {
        Some(OpCode::Add)
    } else if value == 0x04 {
        Some(OpCode::Sub)
    } else if value == 0x05 {
        Some(OpCode::Mul)
    } else if value == 0x06 {
        Some(OpCode::Div)
    } else if value == 0x07 {
        Some(OpCode::Jump)
    } else if value == 0x08 {
        Some(OpCode::JumpIfEqual)
    } else if value == 0x09 {
        Some(OpCode::JumpIfNotEqual)
    } else if value == 0x0A {
        Some(OpCode::JumpIfLessThan)
    } else if value == 0x0B {
        Some(OpCode::JumpIfGreaterThan)
    } else if value == 0x0C {
        Some(OpCode::JumpIfLessThanOrEqual)
    } else if value == 0x0D {
        Some(OpCode::JumpIfGreaterThanOrEqual)
    } else if value == 0x0E {
        Some(OpCode::Call)
    } else if value == 0x0F {
        Some(OpCode::Return)
    } else if value == 0x10 {
        Some(OpCode::Print)
    } else if value == 0x11 {
        Some(OpCode::Store)
    } else if value == 0x12 {
        Some(OpCode::Load)
    } else {
        None
    }
}

/// The operation tag of a symbolic instruction.
pub open spec fn instr_op(i: Instruction) -> OpCode {
    match i {
        Instruction::Push(_) => OpCode::Push,
        Instruction::Pop => OpCode::Pop,
        Instruction::Add => OpCode::Add,
        Instruction::Sub => OpCode::Sub,
        Instruction::Mul => OpCode::Mul,
        Instruction::Div => OpCode::Div,
        Instruction::Jump(_) => OpCode::Jump,
        Instruction::JumpIfEqual(_) => OpCode::JumpIfEqual,
        Instruction::JumpIfNotEqual(_) => OpCode::JumpIfNotEqual,
        Instruction::JumpIfLessThan(_) => OpCode::JumpIfLessThan,
        Instruction::JumpIfGreaterThan(_) => OpCode::JumpIfGreaterThan,
        Instruction::JumpIfLessThanOrEqual(_) => OpCode::JumpIfLessThanOrEqual,
        Instruction::JumpIfGreaterThanOrEqual(_) => OpCode::JumpIfGreaterThanOrEqual,
        Instruction::Call(_) => OpCode::Call,
        Instruction::Return => OpCode::Return,
        Instruction::Print => OpCode::Print,
        Instruction::Store(_) => OpCode::Store,
        Instruction::Load(_) => OpCode::Load,
        Instruction::Halt => OpCode::Halt,
    }
}

/// The inline operand of a symbolic instruction, if its opcode takes one.
pub open spec fn instr_operand(i: Instruction) -> Option<i64> {
    match i {
        Instruction::Push(v) => Some(v),
        Instruction::Jump(v) => Some(v),
        Instruction::JumpIfEqual(v) => Some(v),
        Instruction::JumpIfNotEqual(v) => Some(v),
        Instruction::JumpIfLessThan(v) => Some(v),
        Instruction::JumpIfGreaterThan(v) => Some(v),
        Instruction::JumpIfLessThanOrEqual(v) => Some(v),
        Instruction::JumpIfGreaterThanOrEqual(v) => Some(v),
        Instruction::Call(v) => Some(v),
        Instruction::Store(v) => Some(v),
        Instruction::Load(v) => Some(v),
        _ => None,
    }
}

/// Rebuilds the symbolic instruction for an operation tag and an operand
/// value; the operand is ignored for tags of arity 0.
pub open spec fn instr_of(op: OpCode, operand: i64) -> Instruction {
    match op {
        OpCode::Halt => Instruction::Halt,
        OpCode::Push => Instruction::Push(operand),
        OpCode::Pop => Instruction::Pop,
        OpCode::Add => Instruction::Add,
        OpCode::Sub => Instruction::Sub,
        OpCode::Mul => Instruction::Mul,
        OpCode::Div => Instruction::Div,
        OpCode::Jump => Instruction::Jump(operand),
        OpCode::JumpIfEqual => Instruction::JumpIfEqual(operand),
        OpCode::JumpIfNotEqual => Instruction::JumpIfNotEqual(operand),
        OpCode::JumpIfLessThan => Instruction::JumpIfLessThan(operand),
        OpCode::JumpIfGreaterThan => Instruction::JumpIfGreaterThan(operand),
        OpCode::JumpIfLessThanOrEqual => Instruction::JumpIfLessThanOrEqual(operand),
        OpCode::JumpIfGreaterThanOrEqual => Instruction::JumpIfGreaterThanOrEqual(operand),
        OpCode::Call => Instruction::Call(operand),
        OpCode::Return => Instruction::Return,
        OpCode::Print => Instruction::Print,
        OpCode::Store => Instruction::Store(operand),
        OpCode::Load => Instruction::Load(operand),
    }
}

impl OpCode {
    /// The numeric identifier of this tag, as written into a program image.
    pub fn id(self) -> (r: i64)
        ensures
            r == op_id(self),
    {
        match self {
            OpCode::Halt => 0x00,
            OpCode::Push => 0x01,
            OpCode::Pop => 0x02,
            OpCode::Add => 0x03,
            OpCode::Sub => 0x04,
            OpCode::Mul => 0x05,
            OpCode::Div => 0x06,
            OpCode::Jump => 0x07,
            OpCode::JumpIfEqual => 0x08,
            OpCode::JumpIfNotEqual => 0x09,
            OpCode::JumpIfLessThan => 0x0A,
            OpCode::JumpIfGreaterThan => 0x0B,
            OpCode::JumpIfLessThanOrEqual => 0x0C,
            OpCode::JumpIfGreaterThanOrEqual => 0x0D,
            OpCode::Call => 0x0E,
            OpCode::Return => 0x0F,
            OpCode::Print => 0x10,
            OpCode::Store => 0x11,
            OpCode::Load => 0x12,
        }
    }

    /// The explicit, fallible decode step: memory cells are plain integers
    /// with no embedded type tag, so every fetch goes through this check.
    pub fn decode(value: i64) -> (r: Option<OpCode>)
        ensures
            r == decode_op(value),
    {
        match value {
            0x00 => Some(OpCode::Halt),
            0x01 => Some(OpCode::Push),
            0x02 => Some(OpCode::Pop),
            0x03 => Some(OpCode::Add),
            0x04 => Some(OpCode::Sub),
            0x05 => Some(OpCode::Mul),
            0x06 => Some(OpCode::Div),
            0x07 => Some(OpCode::Jump),
            0x08 => Some(OpCode::JumpIfEqual),
            0x09 => Some(OpCode::JumpIfNotEqual),
            0x0A => Some(OpCode::JumpIfLessThan),
            0x0B => Some(OpCode::JumpIfGreaterThan),
            0x0C => Some(OpCode::JumpIfLessThanOrEqual),
            0x0D => Some(OpCode::JumpIfGreaterThanOrEqual),
            0x0E => Some(OpCode::Call),
            0x0F => Some(OpCode::Return),
            0x10 => Some(OpCode::Print),
            0x11 => Some(OpCode::Store),
            0x12 => Some(OpCode::Load),
            _ => None,
        }
    }
}

/// Decoding is a left inverse of the identifier mapping: the two sides of
/// the encoding contract agree on every tag.
pub proof fn lemma_decode_op_id(op: OpCode)
    ensures
        decode_op(op_id(op)) == Some(op),
{
}

/// An instruction carries an operand exactly when its opcode has arity 1,
/// and rebuilding from the tag and the operand restores the instruction.
pub proof fn lemma_instr_roundtrip(i: Instruction, v: i64)
    ensures
        op_arity(instr_op(i)) == 1 <==> instr_operand(i) is Some,
        instr_operand(i) == Some(v) ==> instr_of(instr_op(i), v) == i,
        instr_operand(i) is None ==> instr_of(instr_op(i), v) == i,
{
}

} // verus!
