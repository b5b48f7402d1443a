use cindervm::bytecode::{Instruction, Program};
use cindervm::interpreter::{Interpreter, InterpreterError};
use cindervm::sandbox::{Sandbox, ValidationError};

#[test]
fn jump_past_the_end_is_refused() {
    let program =
        Program::new(vec![Instruction::Jump(5), Instruction::PushInt(1), Instruction::Return], 1024);
    let error = Sandbox::new(&program).validate().unwrap_err();
    assert_eq!(error, ValidationError::OutOfBoundsJump { index: 0, target: 5 });
    assert_eq!(error.index(), 0);
}

#[test]
fn load_past_the_memory_is_refused() {
    let program = Program::new(vec![Instruction::Load(2000), Instruction::Return], 1024);
    assert_eq!(
        Sandbox::new(&program).validate(),
        Err(ValidationError::OutOfBoundsMemoryAccess { index: 0, offset: 2000, memory_size: 1024 })
    );
}

#[test]
fn store_at_the_memory_size_is_refused() {
    let program = Program::new(vec![Instruction::PushInt(1), Instruction::Store(8)], 8);
    assert_eq!(
        Sandbox::new(&program).validate(),
        Err(ValidationError::OutOfBoundsMemoryAccess { index: 1, offset: 8, memory_size: 8 })
    );
    let program = Program::new(vec![Instruction::PushInt(1), Instruction::Store(7)], 8);
    assert_eq!(Sandbox::new(&program).validate(), Ok(()));
}

#[test]
fn conditional_jumps_are_checked_too() {
    let program = Program::new(vec![Instruction::PushInt(0), Instruction::JumpIfZero(2)], 1);
    assert_eq!(
        Sandbox::new(&program).validate(),
        Err(ValidationError::OutOfBoundsJump { index: 1, target: 2 })
    );
    let program = Program::new(vec![Instruction::PushInt(0), Instruction::JumpIfNotZero(7)], 1);
    assert_eq!(
        Sandbox::new(&program).validate(),
        Err(ValidationError::OutOfBoundsJump { index: 1, target: 7 })
    );
}

#[test]
fn default_whitelist_holds_one_and_two() {
    let sandbox = Sandbox::new(&Program::new(vec![], 1));
    assert!(sandbox.is_native_allowed(0x01));
    assert!(sandbox.is_native_allowed(0x02));
    assert!(!sandbox.is_native_allowed(0x00));
    assert!(!sandbox.is_native_allowed(0x03));
    assert!(!sandbox.is_native_allowed(0x1234));
}

#[test]
fn allowing_a_native_puts_it_on_the_whitelist() {
    let mut sandbox = Sandbox::new(&Program::new(vec![], 1));
    sandbox.allow_native(0x1234);
    assert!(sandbox.is_native_allowed(0x1234));
    assert!(sandbox.is_native_allowed(0x01));
    assert!(!sandbox.is_native_allowed(0x1235));
    sandbox.allow_native(0x1234);
    assert!(sandbox.is_native_allowed(0x1234));
}

#[test]
fn call_outside_the_whitelist_is_refused() {
    let program = Program::new(vec![Instruction::CallNative(1), Instruction::CallNative(9)], 1);
    let mut sandbox = Sandbox::new(&program);
    assert_eq!(
        sandbox.validate(),
        Err(ValidationError::DisallowedNativeCall { index: 1, id: 9 })
    );
    sandbox.allow_native(9);
    assert_eq!(sandbox.validate(), Ok(()));
}

#[test]
fn the_first_violation_is_the_one_reported() {
    let program = Program::new(
        vec![
            Instruction::PushInt(1),
            Instruction::Load(50),
            Instruction::Jump(70),
            Instruction::CallNative(77),
        ],
        10,
    );
    let error = Sandbox::new(&program).validate().unwrap_err();
    assert_eq!(
        error,
        ValidationError::OutOfBoundsMemoryAccess { index: 1, offset: 50, memory_size: 10 }
    );
    assert_eq!(error.index(), 1);
}

#[test]
fn plain_instructions_pass() {
    let program = Program::new(
        vec![
            Instruction::PushInt(1),
            Instruction::PushReg(200),
            Instruction::Pop,
            Instruction::Add,
            Instruction::Sub,
            Instruction::Mul,
            Instruction::Div,
            Instruction::Eq,
            Instruction::Lt,
            Instruction::Gt,
            Instruction::Return,
            Instruction::Halt,
        ],
        0,
    );
    assert_eq!(Sandbox::new(&program).validate(), Ok(()));
    assert_eq!(Sandbox::new(&Program::new(vec![], 0)).validate(), Ok(()));
}

#[test]
fn the_sandbox_holds_a_copy_of_the_program() {
    let program = Program::new(vec![Instruction::Jump(0)], 3);
    let sandbox = Sandbox::new(&program);
    assert_eq!(sandbox.program().instructions, program.instructions);
    assert_eq!(sandbox.program().memory_size, 3);
}

#[test]
fn a_validated_program_stays_in_bounds_when_interpreted() {
    let programs = vec![
        Program::new(vec![Instruction::Jump(1), Instruction::Load(3), Instruction::Return], 4),
        Program::new(vec![Instruction::PushInt(0), Instruction::JumpIfZero(0)], 1),
        Program::new(vec![Instruction::Store(0), Instruction::Jump(0)], 1),
        Program::new(vec![Instruction::PushInt(2), Instruction::Store(1), Instruction::Load(1)], 2),
    ];
    for program in programs {
        assert_eq!(Sandbox::new(&program).validate(), Ok(()));
        match Interpreter::new(program).run_for(10_000) {
            Some(Err(InterpreterError::InvalidJumpTarget(_))) => panic!("jump out of bounds"),
            Some(Err(InterpreterError::InvalidMemoryAccess(_))) => panic!("access out of bounds"),
            _ => {}
        }
    }
}
