use rsvm::assembler::Assembler;
use rsvm::isa::{Instruction, OpCode};

#[test]
fn opcode_identifiers_match_the_wire_format() {
    assert_eq!(OpCode::Halt.id(), 0x00);
    assert_eq!(OpCode::Push.id(), 0x01);
    assert_eq!(OpCode::Pop.id(), 0x02);
    assert_eq!(OpCode::Add.id(), 0x03);
    assert_eq!(OpCode::Sub.id(), 0x04);
    assert_eq!(OpCode::Mul.id(), 0x05);
    assert_eq!(OpCode::Div.id(), 0x06);
    assert_eq!(OpCode::Jump.id(), 0x07);
    assert_eq!(OpCode::JumpIfEqual.id(), 0x08);
    assert_eq!(OpCode::JumpIfNotEqual.id(), 0x09);
    assert_eq!(OpCode::JumpIfLessThan.id(), 0x0A);
    assert_eq!(OpCode::JumpIfGreaterThan.id(), 0x0B);
    assert_eq!(OpCode::JumpIfLessThanOrEqual.id(), 0x0C);
    assert_eq!(OpCode::JumpIfGreaterThanOrEqual.id(), 0x0D);
    assert_eq!(OpCode::Call.id(), 0x0E);
    assert_eq!(OpCode::Return.id(), 0x0F);
    assert_eq!(OpCode::Print.id(), 0x10);
    assert_eq!(OpCode::Store.id(), 0x11);
    assert_eq!(OpCode::Load.id(), 0x12);
}

#[test]
fn decode_inverts_the_identifier_mapping() {
    for id in 0x00..=0x12 {
        let op = OpCode::decode(id).unwrap();
        assert_eq!(op.id(), id);
    }
    assert_eq!(OpCode::decode(0x13), None);
    assert_eq!(OpCode::decode(-1), None);
    assert_eq!(OpCode::decode(i64::MAX), None);
}

#[test]
fn image_length_is_the_sum_of_instruction_widths() {
    let mut assembler = Assembler::new();
    assembler.assemble(vec![
        Instruction::Push(10),                   // width 2
        Instruction::Pop,                        // width 1
        Instruction::Jump(0),                    // width 2
        Instruction::JumpIfLessThanOrEqual(4),   // width 2
        Instruction::Call(2),                    // width 2
        Instruction::Return,                     // width 1
        Instruction::Store(8),                   // width 2
        Instruction::Load(8),                    // width 2
        Instruction::Halt,                       // width 1
    ]);
    assert_eq!(assembler.machine_code.len(), 15);
}

#[test]
fn assemble_accumulates_across_calls() {
    let mut assembler = Assembler::new();
    assembler.assemble(vec![Instruction::Push(1)]);
    assembler.assemble(vec![Instruction::Halt]);
    assert_eq!(
        assembler.machine_code,
        vec![OpCode::Push.id(), 1, OpCode::Halt.id()]
    );
}

#[test]
fn assemble_preserves_operand_values_in_order() {
    let mut assembler = Assembler::new();
    assembler.assemble(vec![
        Instruction::Push(-9),
        Instruction::JumpIfNotEqual(17),
        Instruction::Store(3),
    ]);
    assert_eq!(
        assembler.machine_code,
        vec![
            OpCode::Push.id(),
            -9,
            OpCode::JumpIfNotEqual.id(),
            17,
            OpCode::Store.id(),
            3
        ]
    );
}
