use cindervm::bytecode::{Instruction, Program};
use cindervm::interpreter::{Interpreter, InterpreterError};

fn run(instructions: Vec<Instruction>) -> Result<i64, InterpreterError> {
    Interpreter::new(Program::new(instructions, 1024)).execute()
}

fn counting_loop() -> Vec<Instruction> {
    vec![
        Instruction::PushInt(0),
        Instruction::Store(0),
        Instruction::Load(0),
        Instruction::PushInt(5),
        Instruction::Eq,
        Instruction::JumpIfZero(8),
        Instruction::Load(0),
        Instruction::Return,
        Instruction::Load(0),
        Instruction::PushInt(1),
        Instruction::Add,
        Instruction::Store(0),
        Instruction::Jump(2),
    ]
}

#[test]
fn adds_three_and_four() {
    let result = run(vec![
        Instruction::PushInt(3),
        Instruction::PushInt(4),
        Instruction::Add,
        Instruction::Return,
    ]);
    assert_eq!(result, Ok(7));
}

#[test]
fn subtracts_the_later_operand_from_the_earlier() {
    let result = run(vec![
        Instruction::PushInt(10),
        Instruction::PushInt(3),
        Instruction::Sub,
        Instruction::Return,
    ]);
    assert_eq!(result, Ok(7));
}

#[test]
fn multiplies() {
    let result = run(vec![Instruction::PushInt(-6), Instruction::PushInt(7), Instruction::Mul]);
    assert_eq!(result, Ok(-42));
}

#[test]
fn division_by_zero_is_a_fault() {
    let result = run(vec![
        Instruction::PushInt(1),
        Instruction::PushInt(0),
        Instruction::Div,
        Instruction::Return,
    ]);
    assert_eq!(result, Err(InterpreterError::DivisionByZero));
}

#[test]
fn division_truncates_towards_zero() {
    assert_eq!(run(vec![Instruction::PushInt(7), Instruction::PushInt(2), Instruction::Div]), Ok(3));
    assert_eq!(
        run(vec![Instruction::PushInt(-7), Instruction::PushInt(2), Instruction::Div]),
        Ok(-3)
    );
    assert_eq!(
        run(vec![Instruction::PushInt(7), Instruction::PushInt(-2), Instruction::Div]),
        Ok(-3)
    );
    assert_eq!(
        run(vec![Instruction::PushInt(-7), Instruction::PushInt(-2), Instruction::Div]),
        Ok(3)
    );
}

#[test]
fn arithmetic_wraps_to_64_bits() {
    assert_eq!(
        run(vec![Instruction::PushInt(i64::MAX), Instruction::PushInt(1), Instruction::Add]),
        Ok(i64::MIN)
    );
    assert_eq!(
        run(vec![Instruction::PushInt(i64::MIN), Instruction::PushInt(1), Instruction::Sub]),
        Ok(i64::MAX)
    );
    assert_eq!(
        run(vec![Instruction::PushInt(i64::MAX), Instruction::PushInt(2), Instruction::Mul]),
        Ok(-2)
    );
    assert_eq!(
        run(vec![Instruction::PushInt(i64::MIN), Instruction::PushInt(-1), Instruction::Div]),
        Ok(i64::MIN)
    );
}

#[test]
fn comparisons_push_one_or_zero() {
    let compare = |a: i64, b: i64, op: Instruction| {
        run(vec![Instruction::PushInt(a), Instruction::PushInt(b), op])
    };
    assert_eq!(compare(2, 2, Instruction::Eq), Ok(1));
    assert_eq!(compare(2, 3, Instruction::Eq), Ok(0));
    assert_eq!(compare(-1, 2, Instruction::Lt), Ok(1));
    assert_eq!(compare(2, 2, Instruction::Lt), Ok(0));
    assert_eq!(compare(3, 2, Instruction::Gt), Ok(1));
    assert_eq!(compare(-3, 2, Instruction::Gt), Ok(0));
}

#[test]
fn counting_loop_returns_five() {
    assert_eq!(run(counting_loop()), Ok(5));
}

#[test]
fn counting_loop_ends_within_its_step_count() {
    let mut interpreter = Interpreter::new(Program::new(counting_loop(), 1024));
    assert_eq!(interpreter.run_for(10), None);
    assert_eq!(interpreter.run_for(1000), Some(Ok(5)));
}

#[test]
fn push_register_always_fails() {
    assert_eq!(run(vec![Instruction::PushReg(0)]), Err(InterpreterError::StackUnderflow));
    assert_eq!(
        run(vec![Instruction::PushInt(1), Instruction::PushReg(2), Instruction::Return]),
        Err(InterpreterError::StackUnderflow)
    );
}

#[test]
fn popping_an_empty_stack_underflows() {
    assert_eq!(run(vec![Instruction::Pop]), Err(InterpreterError::StackUnderflow));
    assert_eq!(
        run(vec![Instruction::PushInt(1), Instruction::Add]),
        Err(InterpreterError::StackUnderflow)
    );
    assert_eq!(run(vec![Instruction::JumpIfZero(0)]), Err(InterpreterError::StackUnderflow));
    assert_eq!(run(vec![Instruction::JumpIfNotZero(0)]), Err(InterpreterError::StackUnderflow));
    assert_eq!(run(vec![Instruction::Store(0)]), Err(InterpreterError::StackUnderflow));
}

#[test]
fn pop_removes_the_top() {
    let result = run(vec![Instruction::PushInt(1), Instruction::PushInt(2), Instruction::Pop]);
    assert_eq!(result, Ok(1));
}

#[test]
fn jump_out_of_the_program_is_a_fault() {
    assert_eq!(
        run(vec![Instruction::Jump(5), Instruction::Return, Instruction::Halt]),
        Err(InterpreterError::InvalidJumpTarget(5))
    );
    assert_eq!(
        run(vec![Instruction::PushInt(0), Instruction::JumpIfZero(2)]),
        Err(InterpreterError::InvalidJumpTarget(2))
    );
    assert_eq!(
        run(vec![Instruction::PushInt(1), Instruction::JumpIfNotZero(9)]),
        Err(InterpreterError::InvalidJumpTarget(9))
    );
}

#[test]
fn a_conditional_jump_that_is_not_taken_checks_no_target() {
    assert_eq!(
        run(vec![Instruction::PushInt(1), Instruction::JumpIfZero(99), Instruction::PushInt(8)]),
        Ok(8)
    );
    assert_eq!(
        run(vec![Instruction::PushInt(0), Instruction::JumpIfNotZero(99), Instruction::PushInt(9)]),
        Ok(9)
    );
}

#[test]
fn memory_has_at_least_1024_zeroed_cells() {
    let program = Program::new(vec![Instruction::Load(1023), Instruction::Return], 4);
    assert_eq!(Interpreter::new(program).execute(), Ok(0));
    let program = Program::new(vec![Instruction::Load(1024), Instruction::Return], 4);
    assert_eq!(
        Interpreter::new(program).execute(),
        Err(InterpreterError::InvalidMemoryAccess(1024))
    );
    let program = Program::new(vec![Instruction::Load(2000), Instruction::Return], 2001);
    assert_eq!(Interpreter::new(program).execute(), Ok(0));
}

#[test]
fn store_checks_the_offset_before_the_stack() {
    let program = Program::new(vec![Instruction::Store(5000)], 8);
    assert_eq!(
        Interpreter::new(program).execute(),
        Err(InterpreterError::InvalidMemoryAccess(5000))
    );
}

#[test]
fn store_then_load_gives_the_value_back() {
    let result = run(vec![
        Instruction::PushInt(41),
        Instruction::Store(7),
        Instruction::Load(7),
        Instruction::Halt,
    ]);
    assert_eq!(result, Ok(41));
}

#[test]
fn native_calls_are_skipped() {
    let result = run(vec![
        Instruction::PushInt(6),
        Instruction::CallNative(0x1234),
        Instruction::Return,
    ]);
    assert_eq!(result, Ok(6));
}

#[test]
fn an_empty_stack_yields_zero() {
    assert_eq!(run(vec![]), Ok(0));
    assert_eq!(run(vec![Instruction::Return]), Ok(0));
    assert_eq!(run(vec![Instruction::Halt]), Ok(0));
}

#[test]
fn running_off_the_end_yields_the_top() {
    assert_eq!(run(vec![Instruction::PushInt(1), Instruction::PushInt(42)]), Ok(42));
}

#[test]
fn halt_stops_before_later_instructions() {
    let result = run(vec![Instruction::PushInt(1), Instruction::Halt, Instruction::PushInt(2)]);
    assert_eq!(result, Ok(1));
}

#[test]
fn step_reports_running_until_the_end() {
    let program = Program::new(vec![Instruction::PushInt(9), Instruction::Return], 1);
    let mut interpreter = Interpreter::new(program);
    assert_eq!(interpreter.step(), None);
    assert_eq!(interpreter.step(), Some(Ok(9)));
}

#[test]
fn a_budget_that_runs_out_leaves_the_machine_running() {
    let mut interpreter = Interpreter::new(Program::new(vec![Instruction::Jump(0)], 1));
    assert_eq!(interpreter.run_for(0), None);
    assert_eq!(interpreter.run_for(100_000), None);
}

#[test]
fn a_run_that_has_ended_stays_ended() {
    let mut interpreter = Interpreter::new(Program::new(counting_loop(), 1024));
    assert_eq!(interpreter.execute(), Ok(5));
    assert_eq!(interpreter.execute(), Ok(5));
    assert_eq!(interpreter.step(), Some(Ok(5)));
    assert_eq!(interpreter.run_for(7), Some(Ok(5)));
    let mut interpreter = Interpreter::new(Program::new(
        vec![Instruction::PushInt(0), Instruction::JumpIfZero(9)],
        1,
    ));
    assert_eq!(interpreter.execute(), Err(InterpreterError::InvalidJumpTarget(9)));
    assert_eq!(interpreter.execute(), Err(InterpreterError::InvalidJumpTarget(9)));
}
