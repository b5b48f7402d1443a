use cindervm::bytecode::{Instruction, OpCode, Program};

const DEFINED: [(u8, OpCode); 18] = [
    (0x01, OpCode::PushInt),
    (0x02, OpCode::PushReg),
    (0x03, OpCode::Pop),
    (0x10, OpCode::Add),
    (0x11, OpCode::Sub),
    (0x12, OpCode::Mul),
    (0x13, OpCode::Div),
    (0x20, OpCode::Eq),
    (0x21, OpCode::Lt),
    (0x22, OpCode::Gt),
    (0x30, OpCode::Jump),
    (0x31, OpCode::JumpIfZero),
    (0x32, OpCode::JumpIfNotZero),
    (0x40, OpCode::Load),
    (0x41, OpCode::Store),
    (0x50, OpCode::CallNative),
    (0x51, OpCode::Return),
    (0xFF, OpCode::Halt),
];

#[test]
fn every_defined_tag_decodes_to_its_kind() {
    for (byte, op) in DEFINED {
        assert_eq!(OpCode::from_u8(byte), Some(op));
        assert_eq!(op.to_u8(), byte);
    }
}

#[test]
fn decoding_an_encoded_kind_gives_it_back() {
    for (_, op) in DEFINED {
        assert_eq!(OpCode::from_u8(op.to_u8()), Some(op));
    }
}

#[test]
fn undefined_bytes_decode_to_nothing() {
    assert_eq!(OpCode::from_u8(0x00), None);
    assert_eq!(OpCode::from_u8(0x99), None);
    assert_eq!(OpCode::from_u8(0x04), None);
    assert_eq!(OpCode::from_u8(0xFE), None);
}

#[test]
fn exactly_the_defined_bytes_decode() {
    let mut decoded = 0;
    for byte in 0..=255u8 {
        match OpCode::from_u8(byte) {
            Some(op) => {
                assert_eq!(op.to_u8(), byte);
                decoded += 1;
            }
            None => assert!(DEFINED.iter().all(|(tag, _)| *tag != byte)),
        }
    }
    assert_eq!(decoded, 18);
}

#[test]
fn instruction_reports_its_kind() {
    assert_eq!(Instruction::PushInt(-4).opcode(), OpCode::PushInt);
    assert_eq!(Instruction::PushReg(3).opcode(), OpCode::PushReg);
    assert_eq!(Instruction::Jump(7).opcode(), OpCode::Jump);
    assert_eq!(Instruction::Store(0).opcode(), OpCode::Store);
    assert_eq!(Instruction::CallNative(2).opcode(), OpCode::CallNative);
    assert_eq!(Instruction::Halt.opcode(), OpCode::Halt);
}

#[test]
fn program_keeps_what_it_is_given() {
    let instructions = vec![Instruction::PushInt(1), Instruction::Return];
    let program = Program::new(instructions.clone(), 16);
    assert_eq!(program.instructions, instructions);
    assert_eq!(program.memory_size, 16);
}

#[test]
fn program_clone_is_equal() {
    let program = Program::new(vec![Instruction::Load(3), Instruction::Halt], 8);
    let copy = program.clone();
    assert_eq!(copy.instructions, program.instructions);
    assert_eq!(copy.memory_size, 8);
}
