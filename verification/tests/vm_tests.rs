use rsvm::assembler::Assembler;
use rsvm::isa::{Instruction, OpCode, VmError};
use rsvm::machine::{RunStatus, VirtualMachine};

fn assemble_program(instructions: Vec<Instruction>) -> Vec<i64> {
    let mut assembler = Assembler::new();
    assembler.assemble(instructions);
    assembler.machine_code
}

fn run_program(instructions: Vec<Instruction>) -> (VirtualMachine, Vec<i64>, RunStatus) {
    let image = assemble_program(instructions);
    let mut vm = VirtualMachine::new(1024, 1024);
    vm.load_program(&image).unwrap();
    let (outputs, status) = vm.execute(10_000);
    (vm, outputs, status)
}

#[test]
fn test_assembler() {
    let mut assembler = Assembler::new();
    assembler.assemble(vec![
        Instruction::Push(1),
        Instruction::Push(2),
        Instruction::Add,
        Instruction::Print,
        Instruction::Halt,
    ]);
    assert_eq!(
        assembler.machine_code,
        vec![
            OpCode::Push.id(),
            1,
            OpCode::Push.id(),
            2,
            OpCode::Add.id(),
            OpCode::Print.id(),
            OpCode::Halt.id()
        ]
    );
}

#[test]
fn test_virtual_machine() {
    let mut vm = VirtualMachine::new(1024, 1024);
    let image = vec![
        OpCode::Push.id(),
        1,
        OpCode::Push.id(),
        2,
        OpCode::Add.id(),
        OpCode::Print.id(),
        OpCode::Halt.id(),
    ];
    vm.load_program(&image).unwrap();
    let (_, status) = vm.execute(1024);
    assert_eq!(status, RunStatus::Halted);
    assert_eq!(vm.stack_top(), Some(3));
}

#[test]
fn add_program_emits_three_and_halts() {
    let (_, outputs, status) = run_program(vec![
        Instruction::Push(1),
        Instruction::Push(2),
        Instruction::Add,
        Instruction::Print,
        Instruction::Halt,
    ]);
    assert_eq!(outputs, vec![3]);
    assert_eq!(status, RunStatus::Halted);
}

#[test]
fn arithmetic_program_emits_fifteen() {
    let (_, outputs, status) = run_program(vec![
        Instruction::Push(6),
        Instruction::Push(5),
        Instruction::Mul,
        Instruction::Push(4),
        Instruction::Add,
        Instruction::Push(3),
        Instruction::Sub,
        Instruction::Push(1),
        Instruction::Sub,
        Instruction::Push(2),
        Instruction::Div,
        Instruction::Print,
        Instruction::Halt,
    ]);
    assert_eq!(outputs, vec![15]);
    assert_eq!(status, RunStatus::Halted);
}

#[test]
fn division_by_zero_faults() {
    let (_, outputs, status) = run_program(vec![
        Instruction::Push(5),
        Instruction::Push(0),
        Instruction::Div,
        Instruction::Print,
        Instruction::Halt,
    ]);
    assert_eq!(status, RunStatus::Faulted { err: VmError::DivisionByZero });
    assert_eq!(outputs, Vec::<i64>::new());
}

#[test]
fn pop_on_empty_stack_underflows() {
    let (vm, outputs, status) = run_program(vec![Instruction::Pop, Instruction::Halt]);
    assert_eq!(status, RunStatus::Faulted { err: VmError::StackUnderflow });
    assert_eq!(outputs, Vec::<i64>::new());
    assert_eq!(vm.stack_top(), None);
}

#[test]
fn return_on_empty_stack_underflows() {
    let (_, _, status) = run_program(vec![Instruction::Return, Instruction::Halt]);
    assert_eq!(status, RunStatus::Faulted { err: VmError::StackUnderflow });
}

#[test]
fn oversized_image_is_rejected_and_memory_left_untouched() {
    let mut vm = VirtualMachine::new(8, 4);
    let image = assemble_program(vec![
        Instruction::Push(1),
        Instruction::Push(2),
        Instruction::Add,
        Instruction::Halt,
    ]);
    assert!(image.len() > 4);
    assert_eq!(vm.load_program(&image), Err(VmError::ProgramTooLarge));
    // Memory is still all zeros, so the machine halts at once on the
    // zero opcode, with nothing on the stack and nothing emitted.
    let (outputs, status) = vm.execute(16);
    assert_eq!(status, RunStatus::Halted);
    assert_eq!(outputs, Vec::<i64>::new());
    assert_eq!(vm.stack_top(), None);
}

#[test]
fn call_resumes_after_the_call_on_return() {
    // 0: Call 6 | 2: Load 12 | 4: Print | 5: Halt
    // 6: Push 42 | 8: Store 12 | 10: Return
    let (_, outputs, status) = run_program(vec![
        Instruction::Call(6),
        Instruction::Load(12),
        Instruction::Print,
        Instruction::Halt,
        Instruction::Push(42),
        Instruction::Store(12),
        Instruction::Return,
    ]);
    assert_eq!(status, RunStatus::Halted);
    assert_eq!(outputs, vec![42]);
}

#[test]
fn identical_images_on_fresh_machines_emit_identically() {
    let program = vec![
        Instruction::Push(6),
        Instruction::Push(5),
        Instruction::Mul,
        Instruction::Print,
        Instruction::Push(2),
        Instruction::Add,
        Instruction::Print,
        Instruction::Halt,
    ];
    let image = assemble_program(program);
    let mut first = VirtualMachine::new(256, 256);
    let mut second = VirtualMachine::new(256, 256);
    first.load_program(&image).unwrap();
    second.load_program(&image).unwrap();
    let (out1, status1) = first.execute(10_000);
    let (out2, status2) = second.execute(10_000);
    assert_eq!(out1, out2);
    assert_eq!(status1, status2);
    assert_eq!(out1, vec![30, 32]);
}

#[test]
fn print_peeks_without_popping() {
    let (vm, outputs, status) = run_program(vec![
        Instruction::Push(3),
        Instruction::Print,
        Instruction::Print,
        Instruction::Halt,
    ]);
    assert_eq!(status, RunStatus::Halted);
    assert_eq!(outputs, vec![3, 3]);
    assert_eq!(vm.stack_top(), Some(3));
}

#[test]
fn sub_subtracts_top_from_second() {
    let (_, outputs, _) = run_program(vec![
        Instruction::Push(10),
        Instruction::Push(4),
        Instruction::Sub,
        Instruction::Print,
        Instruction::Halt,
    ]);
    assert_eq!(outputs, vec![6]);
}

#[test]
fn div_truncates_toward_zero() {
    let (_, outputs, _) = run_program(vec![
        Instruction::Push(-7),
        Instruction::Push(2),
        Instruction::Div,
        Instruction::Print,
        Instruction::Halt,
    ]);
    assert_eq!(outputs, vec![-3]);
}

#[test]
fn add_wraps_on_overflow() {
    let (_, outputs, _) = run_program(vec![
        Instruction::Push(i64::MAX),
        Instruction::Push(1),
        Instruction::Add,
        Instruction::Print,
        Instruction::Halt,
    ]);
    assert_eq!(outputs, vec![i64::MIN]);
}

#[test]
fn conditional_jump_taken() {
    // 0: Push 2 | 2: Push 2 | 4: JumpIfEqual 8 | 6: Halt (padded by arity)
    // 8: Push 3 | 10: Print | 11: Halt
    let (_, outputs, status) = run_program(vec![
        Instruction::Push(2),
        Instruction::Push(2),
        Instruction::JumpIfEqual(8),
        Instruction::Halt,
        Instruction::Pop, // filler at address 7, never reached
        Instruction::Push(3),
        Instruction::Print,
        Instruction::Halt,
    ]);
    assert_eq!(status, RunStatus::Halted);
    assert_eq!(outputs, vec![3]);
}

#[test]
fn conditional_jump_not_taken_falls_through() {
    let (_, outputs, status) = run_program(vec![
        Instruction::Push(1),
        Instruction::Push(2),
        Instruction::JumpIfEqual(100),
        Instruction::Push(9),
        Instruction::Print,
        Instruction::Halt,
    ]);
    assert_eq!(status, RunStatus::Halted);
    assert_eq!(outputs, vec![9]);
}

#[test]
fn unknown_opcode_faults() {
    let mut vm = VirtualMachine::new(16, 16);
    vm.load_program(&[99]).unwrap();
    let (_, status) = vm.execute(16);
    assert_eq!(status, RunStatus::Faulted { err: VmError::InvalidOpcode(99) });
}

#[test]
fn jump_out_of_range_faults() {
    let (_, _, status) = run_program(vec![Instruction::Jump(-5), Instruction::Halt]);
    assert_eq!(status, RunStatus::Faulted { err: VmError::AddressOutOfRange(-5) });
}

#[test]
fn store_out_of_range_faults() {
    let (_, _, status) = run_program(vec![
        Instruction::Push(1),
        Instruction::Store(5000),
        Instruction::Halt,
    ]);
    assert_eq!(status, RunStatus::Faulted { err: VmError::AddressOutOfRange(5000) });
}

#[test]
fn endless_loop_runs_out_of_steps_and_resumes() {
    let image = assemble_program(vec![Instruction::Push(7), Instruction::Jump(0)]);
    let mut vm = VirtualMachine::new(64, 64);
    vm.load_program(&image).unwrap();
    let (_, status) = vm.execute(10);
    assert_eq!(status, RunStatus::OutOfSteps);
    // The machine is still running and can be driven further.
    let (_, status) = vm.execute(10);
    assert_eq!(status, RunStatus::OutOfSteps);
}

#[test]
fn values_emitted_before_the_budget_ran_out_are_returned() {
    // 0: Push 7 | 2: Print | 3: Pop | 4: Jump 0 — one emission per cycle.
    let image = assemble_program(vec![
        Instruction::Push(7),
        Instruction::Print,
        Instruction::Pop,
        Instruction::Jump(0),
    ]);
    let mut vm = VirtualMachine::new(64, 64);
    vm.load_program(&image).unwrap();
    let (outputs, status) = vm.execute(8);
    assert_eq!(status, RunStatus::OutOfSteps);
    assert_eq!(outputs, vec![7, 7]);
}

#[test]
fn to_usize_narrows_nonnegative_words() {
    let vm = VirtualMachine::new(4, 4);
    assert_eq!(vm.to_usize(0), 0);
    assert_eq!(vm.to_usize(1024), 1024);
}
