use cindervm::bytecode::{Instruction, Program};
use cindervm::jit::{CompileError, EmissionError, JitCompiler};
use cindervm::sandbox::ValidationError;

fn padded(mut code: Vec<u8>, size: usize) -> Vec<u8> {
    assert!(code.len() <= size);
    code.resize(size, 0);
    code
}

fn counting_loop() -> Vec<Instruction> {
    vec![
        Instruction::PushInt(0),
        Instruction::Store(0),
        Instruction::Load(0),
        Instruction::PushInt(5),
        Instruction::Eq,
        Instruction::JumpIfZero(8),
        Instruction::Load(0),
        Instruction::Return,
        Instruction::Load(0),
        Instruction::PushInt(1),
        Instruction::Add,
        Instruction::Store(0),
        Instruction::Jump(2),
    ]
}

fn sum_code() -> Vec<u8> {
    vec![
        0x55, 0x48, 0x89, 0xE5, 0xB9, 0x02, 0x04, 0x00, 0x00, 0x31, 0xC0, 0x50, 0x48, 0xFF, 0xC9,
        0x75, 0xFA, 0x48, 0xB8, 0x03, 0x00, 0x00, 0x00, 0x00, 0x00, 0x00, 0x00, 0x50, 0x48, 0xB8,
        0x04, 0x00, 0x00, 0x00, 0x00, 0x00, 0x00, 0x00, 0x50, 0x59, 0x58, 0x48, 0x01, 0xC8, 0x50,
        0x58, 0x31, 0xD2, 0x48, 0x89, 0xEC, 0x5D, 0xC3, 0x58, 0x31, 0xD2, 0x48, 0x89, 0xEC, 0x5D,
        0xC3, 0xBA, 0x01, 0x00, 0x00, 0x00, 0xEB, 0x05, 0xBA, 0x02, 0x00, 0x00, 0x00, 0x31, 0xC0,
        0x48, 0x89, 0xEC, 0x5D, 0xC3,
    ]
}

fn counting_loop_code() -> Vec<u8> {
    vec![
        0x55, 0x48, 0x89, 0xE5, 0xB9, 0x02, 0x04, 0x00, 0x00, 0x31, 0xC0, 0x50, 0x48, 0xFF, 0xC9,
        0x75, 0xFA, 0x48, 0xB8, 0x00, 0x00, 0x00, 0x00, 0x00, 0x00, 0x00, 0x00, 0x50, 0x58, 0x48,
        0x89, 0x85, 0xF8, 0xFF, 0xFF, 0xFF, 0x48, 0x8B, 0x85, 0xF8, 0xFF, 0xFF, 0xFF, 0x50, 0x48,
        0xB8, 0x05, 0x00, 0x00, 0x00, 0x00, 0x00, 0x00, 0x00, 0x50, 0x59, 0x58, 0x48, 0x39, 0xC8,
        0x0F, 0x94, 0xC0, 0x48, 0x0F, 0xB6, 0xC0, 0x50, 0x58, 0x48, 0x85, 0xC0, 0x0F, 0x84, 0x10,
        0x00, 0x00, 0x00, 0x48, 0x8B, 0x85, 0xF8, 0xFF, 0xFF, 0xFF, 0x50, 0x58, 0x31, 0xD2, 0x48,
        0x89, 0xEC, 0x5D, 0xC3, 0x48, 0x8B, 0x85, 0xF8, 0xFF, 0xFF, 0xFF, 0x50, 0x48, 0xB8, 0x01,
        0x00, 0x00, 0x00, 0x00, 0x00, 0x00, 0x00, 0x50, 0x59, 0x58, 0x48, 0x01, 0xC8, 0x50, 0x58,
        0x48, 0x89, 0x85, 0xF8, 0xFF, 0xFF, 0xFF, 0xE9, 0xA0, 0xFF, 0xFF, 0xFF, 0x58, 0x31, 0xD2,
        0x48, 0x89, 0xEC, 0x5D, 0xC3, 0xBA, 0x01, 0x00, 0x00, 0x00, 0xEB, 0x05, 0xBA, 0x02, 0x00,
        0x00, 0x00, 0x31, 0xC0, 0x48, 0x89, 0xEC, 0x5D, 0xC3,
    ]
}

fn division_code() -> Vec<u8> {
    vec![
        0x55, 0x48, 0x89, 0xE5, 0xB9, 0x06, 0x00, 0x00, 0x00, 0x31, 0xC0, 0x50, 0x48, 0xFF, 0xC9,
        0x75, 0xFA, 0x48, 0xB8, 0x01, 0x00, 0x00, 0x00, 0x00, 0x00, 0x00, 0x00, 0x50, 0x48, 0xB8,
        0x00, 0x00, 0x00, 0x00, 0x00, 0x00, 0x00, 0x00, 0x50, 0x59, 0x58, 0x48, 0x85, 0xC9, 0x0F,
        0x84, 0x21, 0x00, 0x00, 0x00, 0x48, 0x83, 0xF9, 0xFF, 0x75, 0x05, 0x48, 0xF7, 0xD8, 0xEB,
        0x05, 0x48, 0x99, 0x48, 0xF7, 0xF9, 0x50, 0x58, 0x31, 0xD2, 0x48, 0x89, 0xEC, 0x5D, 0xC3,
        0x58, 0x31, 0xD2, 0x48, 0x89, 0xEC, 0x5D, 0xC3, 0xBA, 0x01, 0x00, 0x00, 0x00, 0xEB, 0x05,
        0xBA, 0x02, 0x00, 0x00, 0x00, 0x31, 0xC0, 0x48, 0x89, 0xEC, 0x5D, 0xC3,
    ]
}

fn every_kind_code() -> Vec<u8> {
    vec![
        0x55, 0x48, 0x89, 0xE5, 0xB9, 0x02, 0x00, 0x00, 0x00, 0x31, 0xC0, 0x50, 0x48, 0xFF, 0xC9,
        0x75, 0xFA, 0x48, 0xB8, 0xFE, 0xFF, 0xFF, 0xFF, 0xFF, 0xFF, 0xFF, 0xFF, 0x50, 0xE9, 0x67,
        0x00, 0x00, 0x00, 0x58, 0x59, 0x58, 0x48, 0x29, 0xC8, 0x50, 0x59, 0x58, 0x48, 0x0F, 0xAF,
        0xC1, 0x50, 0x59, 0x58, 0x48, 0x39, 0xC8, 0x0F, 0x9C, 0xC0, 0x48, 0x0F, 0xB6, 0xC0, 0x50,
        0x59, 0x58, 0x48, 0x39, 0xC8, 0x0F, 0x9F, 0xC0, 0x48, 0x0F, 0xB6, 0xC0, 0x50, 0x58, 0x48,
        0x85, 0xC0, 0x0F, 0x85, 0xBE, 0xFF, 0xFF, 0xFF, 0x48, 0x89, 0xE0, 0x48, 0x83, 0xE4, 0xF0,
        0x50, 0x50, 0x48, 0x83, 0xEC, 0x20, 0x48, 0xB8, 0x88, 0x77, 0x66, 0x55, 0x44, 0x33, 0x22,
        0x11, 0xFF, 0xD0, 0x48, 0x8B, 0x64, 0x24, 0x20, 0x58, 0x31, 0xD2, 0x48, 0x89, 0xEC, 0x5D,
        0xC3, 0x58, 0x31, 0xD2, 0x48, 0x89, 0xEC, 0x5D, 0xC3, 0xBA, 0x01, 0x00, 0x00, 0x00, 0xEB,
        0x05, 0xBA, 0x02, 0x00, 0x00, 0x00, 0x31, 0xC0, 0x48, 0x89, 0xEC, 0x5D, 0xC3,
    ]
}

#[test]
fn compiles_a_sum() {
    let program = Program::new(
        vec![
            Instruction::PushInt(3),
            Instruction::PushInt(4),
            Instruction::Add,
            Instruction::Return,
        ],
        1024,
    );
    let region = JitCompiler::new(program).compile().unwrap();
    assert_eq!(region.size(), 4 * 32 + 64);
    assert_eq!(region.as_slice(), &padded(sum_code(), 192)[..]);
}

#[test]
fn resolves_forward_and_backward_jumps() {
    let program = Program::new(counting_loop(), 1024);
    let region = JitCompiler::new(program).compile().unwrap();
    assert_eq!(region.size(), 13 * 32 + 64);
    assert_eq!(region.as_slice(), &padded(counting_loop_code(), 480)[..]);
    // the conditional jump at instruction 5 ends at 78 and leads to instruction 8 at 94
    assert_eq!(&region.as_slice()[74..78], &[0x10, 0x00, 0x00, 0x00]);
    // the jump at instruction 12 ends at 132 and leads back to instruction 2 at 36
    assert_eq!(&region.as_slice()[128..132], &[0xA0, 0xFF, 0xFF, 0xFF]);
}

#[test]
fn guards_a_division_against_zero() {
    let program = Program::new(
        vec![
            Instruction::PushInt(1),
            Instruction::PushInt(0),
            Instruction::Div,
            Instruction::Return,
        ],
        3,
    );
    let region = JitCompiler::new(program).compile().unwrap();
    assert_eq!(region.as_slice(), &padded(division_code(), 192)[..]);
}

#[test]
fn translates_every_kind() {
    let program = Program::new(
        vec![
            Instruction::PushInt(-2),
            Instruction::PushReg(0),
            Instruction::Pop,
            Instruction::Sub,
            Instruction::Mul,
            Instruction::Lt,
            Instruction::Gt,
            Instruction::JumpIfNotZero(0),
            Instruction::CallNative(1),
            Instruction::Halt,
        ],
        0,
    );
    let mut compiler = JitCompiler::new(program);
    compiler.register_native(1, 0x1122_3344_5566_7788);
    let region = compiler.compile().unwrap();
    assert_eq!(region.as_slice(), &padded(every_kind_code(), 384)[..]);
}

#[test]
fn compiles_an_empty_program() {
    let region = JitCompiler::new(Program::new(vec![], 1)).compile().unwrap();
    assert_eq!(region.size(), 64);
    let code = region.as_slice();
    assert_eq!(
        &code[..17],
        &[
            0x55, 0x48, 0x89, 0xE5, 0xB9, 0x04, 0x00, 0x00, 0x00, 0x31, 0xC0, 0x50, 0x48, 0xFF,
            0xC9, 0x75, 0xFA
        ]
    );
    assert_eq!(&code[17..25], &[0x58, 0x31, 0xD2, 0x48, 0x89, 0xEC, 0x5D, 0xC3]);
    assert_eq!(&code[44..], &[0u8; 20][..]);
}

#[test]
fn estimate_is_thirty_two_bytes_an_instruction_and_sixty_four() {
    assert_eq!(JitCompiler::new(Program::new(vec![], 1)).estimate_code_size(), 64);
    let program = Program::new(vec![Instruction::Halt; 10], 1);
    assert_eq!(JitCompiler::new(program).estimate_code_size(), 384);
}

#[test]
fn estimate_covers_the_longest_translations() {
    let program = Program::new(vec![Instruction::CallNative(1); 200], 1);
    let mut compiler = JitCompiler::new(program);
    compiler.register_native(1, 8);
    let region = compiler.compile().unwrap();
    assert_eq!(region.size(), 200 * 32 + 64);
    // prologue, 200 calls of 30 bytes, epilogue and fault exits
    let end = 17 + 200 * 30 + 8 + 19;
    assert_eq!(region.as_slice()[end - 1], 0xC3);
    assert!(region.as_slice()[end..].iter().all(|byte| *byte == 0));
}

#[test]
fn validation_failure_stops_compilation() {
    let program =
        Program::new(vec![Instruction::Jump(5), Instruction::PushInt(1), Instruction::Return], 8);
    assert_eq!(
        JitCompiler::new(program).compile().unwrap_err(),
        CompileError::Validation(ValidationError::OutOfBoundsJump { index: 0, target: 5 })
    );
    let program = Program::new(vec![Instruction::Load(2000)], 1024);
    assert_eq!(
        JitCompiler::new(program).compile().unwrap_err(),
        CompileError::Validation(ValidationError::OutOfBoundsMemoryAccess {
            index: 0,
            offset: 2000,
            memory_size: 1024
        })
    );
}

#[test]
fn a_call_off_the_whitelist_stops_compilation() {
    let program = Program::new(vec![Instruction::CallNative(0x1234)], 1);
    let mut compiler = JitCompiler::new(program);
    compiler.register_native(0x1234, 0x1000);
    assert_eq!(
        compiler.compile().unwrap_err(),
        CompileError::Validation(ValidationError::DisallowedNativeCall { index: 0, id: 0x1234 })
    );
    compiler.allow_native(0x1234);
    assert!(compiler.compile().is_ok());
}

#[test]
fn a_call_without_an_address_is_an_unresolved_patch() {
    let program = Program::new(vec![Instruction::CallNative(1), Instruction::Return], 1);
    let mut compiler = JitCompiler::new(program);
    assert_eq!(
        compiler.compile().unwrap_err(),
        CompileError::Emission(EmissionError::UnresolvedPatch)
    );
    compiler.register_native(2, 0x2000);
    assert_eq!(
        compiler.compile().unwrap_err(),
        CompileError::Emission(EmissionError::UnresolvedPatch)
    );
    compiler.register_native(1, 0x1000);
    assert!(compiler.compile().is_ok());
}

#[test]
fn the_latest_address_of_a_native_is_used() {
    let program = Program::new(vec![Instruction::CallNative(2)], 1);
    let mut compiler = JitCompiler::new(program);
    compiler.register_native(2, 0x0102_0304_0506_0708);
    compiler.register_native(2, 0xA1A2_A3A4_A5A6_A7A8);
    let region = compiler.compile().unwrap();
    assert_eq!(
        &region.as_slice()[17 + 15..17 + 23],
        &[0xA8, 0xA7, 0xA6, 0xA5, 0xA4, 0xA3, 0xA2, 0xA1]
    );
}

#[test]
fn too_many_memory_cells_are_refused() {
    let program = Program::new(vec![Instruction::Return], 0x1000_0001);
    assert_eq!(JitCompiler::new(program).compile().unwrap_err(), CompileError::FrameTooLarge);
    let program = Program::new(vec![Instruction::Load(0x0FFF_FFFF), Instruction::Return], 0x1000_0000);
    let region = JitCompiler::new(program).compile().unwrap();
    // cell 0x0FFF_FFFF lies 0x8000_0000 bytes below the frame base
    assert_eq!(&region.as_slice()[17..25], &[0x48, 0x8B, 0x85, 0x00, 0x00, 0x00, 0x80, 0x50]);
    // the frame has 0x1000_0002 slots
    assert_eq!(&region.as_slice()[5..9], &[0x02, 0x00, 0x00, 0x10]);
}

#[test]
fn an_odd_memory_size_is_rounded_up_to_an_even_number_of_slots() {
    let region = JitCompiler::new(Program::new(vec![], 3)).compile().unwrap();
    assert_eq!(&region.as_slice()[5..9], &[0x06, 0x00, 0x00, 0x00]);
    let region = JitCompiler::new(Program::new(vec![], 4)).compile().unwrap();
    assert_eq!(&region.as_slice()[5..9], &[0x06, 0x00, 0x00, 0x00]);
}

#[test]
fn compiling_twice_gives_the_same_code() {
    let mut compiler = JitCompiler::new(Program::new(counting_loop(), 16));
    let first = compiler.compile().unwrap();
    let second = compiler.compile().unwrap();
    assert_eq!(first.as_slice(), second.as_slice());
}
