//! The assembler: a lossless, order-preserving lowering of symbolic
//! instructions into the flat integer program image, with the decoding
//! specification that makes the lowering provably invertible.

use vstd::prelude::*;

use crate::isa::{
    Instruction, OpCode, decode_op, instr_of, instr_op, instr_operand, lemma_decode_op_id,
    lemma_instr_roundtrip, op_arity, op_id,
};

verus! {

/// The image of one instruction: its opcode's numeric identifier, followed
/// by its operand if it has one.
pub open spec fn encode_one(i: Instruction) -> Seq<i64> {
    match instr_operand(i) {
        Some(v) => seq![op_id(instr_op(i)), v],
        None => seq![op_id(instr_op(i))],
    }
}

/// The program image of an instruction sequence: the concatenation of the
/// images of its instructions, in order.
pub open spec fn encode(p: Seq<Instruction>) -> Seq<i64>
    decreases p.len(),
{
    if p.len() == 0 {
        Seq::empty()
    } else {
        encode_one(p[0]) + encode(p.drop_first())
    }
}

/// The sum of (1 + arity) over an instruction sequence: the number of
/// memory slots its image occupies.
pub open spec fn total_width(p: Seq<Instruction>) -> nat
    decreases p.len(),
{
    if p.len() == 0 {
        0
    } else {
        1 + op_arity(instr_op(p[0])) + total_width(p.drop_first())
    }
}

/// Re-reading a program image against the opcode/arity table: each opcode
/// slot must decode, and each arity-1 opcode must be followed by its
/// operand slot.
pub open spec fn decode_image(img: Seq<i64>) -> Option<Seq<Instruction>>
    decreases img.len(),
{
    if img.len() == 0 {
        Some(Seq::empty())
    } else {
        match decode_op(img[0]) {
            None => None,
            Some(op) => {
                if op_arity(op) == 0 {
                    match decode_image(img.drop_first()) {
                        None => None,
                        Some(rest) => Some(seq![instr_of(op, 0)] + rest),
                    }
                } else if img.len() >= 2 {
                    match decode_image(img.skip(2)) {
                        None => None,
                        Some(rest) => Some(seq![instr_of(op, img[1])] + rest),
                    }
                } else {
                    None
                }
            },
        }
    }
}

/// The image of one instruction occupies 1 + arity slots.
pub proof fn lemma_encode_one_len(i: Instruction)
    ensures
        encode_one(i).len() == 1 + op_arity(instr_op(i)),
        encode_one(i)[0] == op_id(instr_op(i)),
{
    lemma_instr_roundtrip(i, 0);
}

/// Encoding distributes over concatenation of instruction sequences.
pub proof fn lemma_encode_append(a: Seq<Instruction>, b: Seq<Instruction>)
    ensures
        encode(a + b) == encode(a) + encode(b),
    decreases a.len(),
{
    if a.len() == 0 {
        assert(a + b =~= b);
        assert(Seq::<i64>::empty() + encode(b) =~= encode(b));
    } else {
        assert((a + b).drop_first() =~= a.drop_first() + b);
        lemma_encode_append(a.drop_first(), b);
        assert((encode_one(a[0]) + encode(a.drop_first())) + encode(b) =~= encode_one(a[0]) + (
        encode(a.drop_first()) + encode(b)));
        assert((a + b)[0] == a[0]);
    }
}

/// Extending the encoded prefix by one instruction appends that
/// instruction's image.
pub proof fn lemma_encode_take_step(p: Seq<Instruction>, i: int)
    requires
        0 <= i < p.len(),
    ensures
        encode(p.take(i + 1)) == encode(p.take(i)) + encode_one(p[i]),
{
    assert(p.take(i + 1) =~= p.take(i) + seq![p[i]]);
    lemma_encode_append(p.take(i), seq![p[i]]);
    assert(seq![p[i]].drop_first() =~= Seq::<Instruction>::empty());
    assert(encode(seq![p[i]]) == encode_one(seq![p[i]][0]) + encode(seq![p[i]].drop_first()));
    assert(seq![p[i]][0] == p[i]);
    assert(encode(Seq::<Instruction>::empty()) == Seq::<i64>::empty());
    assert(encode_one(p[i]) + Seq::<i64>::empty() =~= encode_one(p[i]));
}

/// The image of an instruction sequence occupies exactly the sum of
/// (1 + arity) over its instructions.
pub proof fn lemma_assemble_length(p: Seq<Instruction>)
    ensures
        encode(p).len() == total_width(p),
    decreases p.len(),
{
    if p.len() == 0 {
    } else {
        lemma_encode_one_len(p[0]);
        lemma_assemble_length(p.drop_first());
    }
}

/// The lowering is lossless: re-decoding an assembled image with the
/// opcode/arity table reconstructs the same sequence of operation tags and
/// operands.
pub proof fn lemma_assemble_roundtrip(p: Seq<Instruction>)
    ensures
        decode_image(encode(p)) == Some(p),
    decreases p.len(),
{
    if p.len() == 0 {
    } else {
        let head = p[0];
        let op = instr_op(head);
        let img = encode(p);
        let rest = encode(p.drop_first());
        lemma_encode_one_len(head);
        lemma_decode_op_id(op);
        lemma_assemble_roundtrip(p.drop_first());
        assert(img[0] == op_id(op));
        match instr_operand(head) {
            None => {
                lemma_instr_roundtrip(head, 0);
                assert(op_arity(op) == 0);
                assert(img.drop_first() =~= rest);
                assert(seq![instr_of(op, 0)] + p.drop_first() =~= p);
            },
            Some(v) => {
                lemma_instr_roundtrip(head, v);
                assert(op_arity(op) == 1);
                assert(img.len() >= 2);
                assert(img[1] == v);
                assert(img.skip(2) =~= rest);
                assert(seq![instr_of(op, v)] + p.drop_first() =~= p);
            },
        }
    }
}

/// The assembler: accumulates the program image of the instruction
/// sequences handed to [`Assembler::assemble`].
pub struct Assembler {
    pub machine_code: Vec<i64>,
}

impl Assembler {
    /// A fresh assembler with an empty program image.
    pub fn new() -> (r: Assembler)
        ensures
            r.machine_code@ == Seq::<i64>::empty(),
    {
        Assembler { machine_code: Vec::new() }
    }

    /// Lowers the instruction sequence onto the end of the accumulated
    /// image: for each instruction, in input order, its opcode's numeric
    /// identifier followed by its operand if it has one. Every well-formed
    /// instruction lowers unconditionally.
    pub fn assemble(&mut self, instructions: Vec<Instruction>)
        ensures
            final(self).machine_code@ == old(self).machine_code@ + encode(instructions@),
    {
        let ghost orig = self.machine_code@;
        let n = instructions.len();
        let mut idx: usize = 0;
        while idx < n
            invariant
                n == instructions@.len(),
                idx <= n,
                self.machine_code@ == orig + encode(instructions@.take(idx as int)),
            decreases n - idx,
        {
            let instr = instructions[idx];
            match instr {
                Instruction::Halt => {
                    self.machine_code.push(OpCode::Halt.id());
                },
                Instruction::Push(value) => {
                    self.machine_code.push(OpCode::Push.id());
                    self.machine_code.push(value);
                },
                Instruction::Pop => {
                    self.machine_code.push(OpCode::Pop.id());
                },
                Instruction::Add => {
                    self.machine_code.push(OpCode::Add.id());
                },
                Instruction::Sub => {
                    self.machine_code.push(OpCode::Sub.id());
                },
                Instruction::Mul => {
                    self.machine_code.push(OpCode::Mul.id());
                },
                Instruction::Div => {
                    self.machine_code.push(OpCode::Div.id());
                },
                Instruction::Jump(address) => {
                    self.machine_code.push(OpCode::Jump.id());
                    self.machine_code.push(address);
                },
                Instruction::JumpIfEqual(address) => {
                    self.machine_code.push(OpCode::JumpIfEqual.id());
                    self.machine_code.push(address);
                },
                Instruction::JumpIfNotEqual(address) => {
                    self.machine_code.push(OpCode::JumpIfNotEqual.id());
                    self.machine_code.push(address);
                },
                Instruction::JumpIfLessThan(address) => {
                    self.machine_code.push(OpCode::JumpIfLessThan.id());
                    self.machine_code.push(address);
                },
                Instruction::JumpIfGreaterThan(address) => {
                    self.machine_code.push(OpCode::JumpIfGreaterThan.id());
                    self.machine_code.push(address);
                },
                Instruction::JumpIfLessThanOrEqual(address) => {
                    self.machine_code.push(OpCode::JumpIfLessThanOrEqual.id());
                    self.machine_code.push(address);
                },
                Instruction::JumpIfGreaterThanOrEqual(address) => {
                    self.machine_code.push(OpCode::JumpIfGreaterThanOrEqual.id());
                    self.machine_code.push(address);
                },
                Instruction::Call(address) => {
                    self.machine_code.push(OpCode::Call.id());
                    self.machine_code.push(address);
                },
                Instruction::Return => {
                    self.machine_code.push(OpCode::Return.id());
                },
                Instruction::Print => {
                    self.machine_code.push(OpCode::Print.id());
                },
                Instruction::Store(address) => {
                    self.machine_code.push(OpCode::Store.id());
                    self.machine_code.push(address);
                },
                Instruction::Load(address) => {
                    self.machine_code.push(OpCode::Load.id());
                    self.machine_code.push(address);
                },
            }
            proof {
                lemma_encode_take_step(instructions@, idx as int);
                assert(self.machine_code@ =~= orig + encode(instructions@.take(idx as int + 1)));
            }
            idx += 1;
        }
        proof {
            assert(instructions@.take(n as int) =~= instructions@);
        }
    }
}

} // verus!
