//! The instruction model: operation tags, decoded instructions and programs.

use vstd::prelude::*;

verus! {

/// The one-byte tag that identifies an operation kind.
#[derive(Debug, Clone, Copy, PartialEq, Eq, Structural)]
pub enum OpCode {
    PushInt,
    PushReg,
    Pop,
    Add,
    Sub,
    Mul,
    Div,
    Eq,
    Lt,
    Gt,
    Jump,
    JumpIfZero,
    JumpIfNotZero,
    Load,
    Store,
    CallNative,
    Return,
    Halt,
}

impl OpCode {
    /// The tag byte of each operation kind.
    pub open spec fn tag(self) -> u8 {
        match self {
            OpCode::PushInt => 0x01,
            OpCode::PushReg => 0x02,
            OpCode::Pop => 0x03,
            OpCode::Add => 0x10,
            OpCode::Sub => 0x11,
            OpCode::Mul => 0x12,
            OpCode::Div => 0x13,
            OpCode::Eq => 0x20,
            OpCode::Lt => 0x21,
            OpCode::Gt => 0x22,
            OpCode::Jump => 0x30,
            OpCode::JumpIfZero => 0x31,
            OpCode::JumpIfNotZero => 0x32,
            OpCode::Load => 0x40,
            OpCode::Store => 0x41,
            OpCode::CallNative => 0x50,
            OpCode::Return => 0x51,
            OpCode::Halt => 0xFF,
        }
    }

    /// The operation kind that `byte` tags, if there is one.
    pub open spec fn decode(byte: u8) -> Option<OpCode> {
        if byte == 0x01 {
            Some(OpCode::PushInt)
        } else if byte == 0x02 {
            Some(OpCode::PushReg)
        } else if byte == 0x03 {
            Some(OpCode::Pop)
        } else if byte == 0x10 {
            Some(OpCode::Add)
        } else if byte == 0x11 {
            Some(OpCode::Sub)
        } else if byte == 0x12 {
            Some(OpCode::Mul)
        } else if byte == 0x13 {
            Some(OpCode::Div)
        } else if byte == 0x20 {
            Some(OpCode::Eq)
        } else if byte == 0x21 {
            Some(OpCode::Lt)
        } else if byte == 0x22 {
            Some(OpCode::Gt)
        } else if byte == 0x30 {
            Some(OpCode::Jump)
        } else if byte == 0x31 {
            Some(OpCode::JumpIfZero)
        } else if byte == 0x32 {
            Some(OpCode::JumpIfNotZero)
        } else if byte == 0x40 {
            Some(OpCode::Load)
        } else if byte == 0x41 {
            Some(OpCode::Store)
        } else if byte == 0x50 {
            Some(OpCode::CallNative)
        } else if byte == 0x51 {
            Some(OpCode::Return)
        } else if byte == 0xFF {
            Some(OpCode::Halt)
        } else {
            None
        }
    }

    /// The operation kind tagged `byte`, or `None` where no kind has that tag.
    pub fn from_u8(byte: u8) -> (r: Option<OpCode>)
        ensures
            r == Self::decode(byte),
    {
        match byte {
            0x01 => Some(OpCode::PushInt),
            0x02 => Some(OpCode::PushReg),
            0x03 => Some(OpCode::Pop),
            0x10 => Some(OpCode::Add),
            0x11 => Some(OpCode::Sub),
            0x12 => Some(OpCode::Mul),
            0x13 => Some(OpCode::Div),
            0x20 => Some(OpCode::Eq),
            0x21 => Some(OpCode::Lt),
            0x22 => Some(OpCode::Gt),
            0x30 => Some(OpCode::Jump),
            0x31 => Some(OpCode::JumpIfZero),
            0x32 => Some(OpCode::JumpIfNotZero),
            0x40 => Some(OpCode::Load),
            0x41 => Some(OpCode::Store),
            0x50 => Some(OpCode::CallNative),
            0x51 => Some(OpCode::Return),
            0xFF => Some(OpCode::Halt),
            _ => None,
        }
    }

    /// The tag byte of this operation kind.
    pub fn to_u8(self) -> (r: u8)
        ensures
            r == self.tag(),
    {
        match self {
            OpCode::PushInt => 0x01,
            OpCode::PushReg => 0x02,
            OpCode::Pop => 0x03,
            OpCode::Add => 0x10,
            OpCode::Sub => 0x11,
            OpCode::Mul => 0x12,
            OpCode::Div => 0x13,
            OpCode::Eq => 0x20,
            OpCode::Lt => 0x21,
            OpCode::Gt => 0x22,
            OpCode::Jump => 0x30,
            OpCode::JumpIfZero => 0x31,
            OpCode::JumpIfNotZero => 0x32,
            OpCode::Load => 0x40,
            OpCode::Store => 0x41,
            OpCode::CallNative => 0x50,
            OpCode::Return => 0x51,
            OpCode::Halt => 0xFF,
        }
    }

    /// Decoding the tag of an operation kind gives that kind back.
    pub proof fn lemma_decode_tag(op: OpCode)
        ensures
            Self::decode(op.tag()) == Some(op),
    {
    }

    /// A byte decodes to a kind exactly when it is that kind's tag, so a byte
    /// that is no kind's tag decodes to nothing.
    pub proof fn lemma_decode_exact(byte: u8, op: OpCode)
        ensures
            Self::decode(byte) == Some(op) <==> op.tag() == byte,
            Self::decode(byte) is None <==> forall|other: OpCode| other.tag() != byte,
    {
        if Self::decode(byte) is Some {
            let found = Self::decode(byte).unwrap();
            assert(found.tag() == byte);
        }
        assert forall|other: OpCode| Self::decode(byte) is None implies other.tag() != byte by {
            Self::lemma_decode_tag(other);
        }
    }
}

/// One decoded operation with its operands.
#[derive(Debug, Clone, Copy, PartialEq, Eq, Structural)]
pub enum Instruction {
    PushInt(i64),
    PushReg(u8),
    Pop,
    Add,
    Sub,
    Mul,
    Div,
    Eq,
    Lt,
    Gt,
    Jump(usize),
    JumpIfZero(usize),
    JumpIfNotZero(usize),
    Load(usize),
    Store(usize),
    CallNative(u32),
    Return,
    Halt,
}

impl Instruction {
    /// The operation kind of this instruction.
    pub open spec fn kind(self) -> OpCode {
        match self {
            Instruction::PushInt(_) => OpCode::PushInt,
            Instruction::PushReg(_) => OpCode::PushReg,
            Instruction::Pop => OpCode::Pop,
            Instruction::Add => OpCode::Add,
            Instruction::Sub => OpCode::Sub,
            Instruction::Mul => OpCode::Mul,
            Instruction::Div => OpCode::Div,
            Instruction::Eq => OpCode::Eq,
            Instruction::Lt => OpCode::Lt,
            Instruction::Gt => OpCode::Gt,
            Instruction::Jump(_) => OpCode::Jump,
            Instruction::JumpIfZero(_) => OpCode::JumpIfZero,
            Instruction::JumpIfNotZero(_) => OpCode::JumpIfNotZero,
            Instruction::Load(_) => OpCode::Load,
            Instruction::Store(_) => OpCode::Store,
            Instruction::CallNative(_) => OpCode::CallNative,
            Instruction::Return => OpCode::Return,
            Instruction::Halt => OpCode::Halt,
        }
    }

    /// The operation kind of this instruction.
    pub fn opcode(&self) -> (r: OpCode)
        ensures
            r == self.kind(),
    {
        match self {
            Instruction::PushInt(_) => OpCode::PushInt,
            Instruction::PushReg(_) => OpCode::PushReg,
            Instruction::Pop => OpCode::Pop,
            Instruction::Add => OpCode::Add,
            Instruction::Sub => OpCode::Sub,
            Instruction::Mul => OpCode::Mul,
            Instruction::Div => OpCode::Div,
            Instruction::Eq => OpCode::Eq,
            Instruction::Lt => OpCode::Lt,
            Instruction::Gt => OpCode::Gt,
            Instruction::Jump(_) => OpCode::Jump,
            Instruction::JumpIfZero(_) => OpCode::JumpIfZero,
            Instruction::JumpIfNotZero(_) => OpCode::JumpIfNotZero,
            Instruction::Load(_) => OpCode::Load,
            Instruction::Store(_) => OpCode::Store,
            Instruction::CallNative(_) => OpCode::CallNative,
            Instruction::Return => OpCode::Return,
            Instruction::Halt => OpCode::Halt,
        }
    }
}

/// An ordered instruction sequence and the number of memory cells it declares.
#[derive(Debug)]
pub struct Program {
    pub instructions: Vec<Instruction>,
    pub memory_size: usize,
}

impl Program {
    /// A program of the given instructions and memory size.
    pub fn new(instructions: Vec<Instruction>, memory_size: usize) -> (r: Self)
        ensures
            r.instructions == instructions,
            r.memory_size == memory_size,
    {
        Self { instructions, memory_size }
    }
}

impl Clone for Program {
    fn clone(&self) -> (r: Self)
        ensures
            r.instructions@ == self.instructions@,
            r.memory_size == self.memory_size,
    {
        let mut instructions: Vec<Instruction> = Vec::new();
        let mut i: usize = 0;
        while i < self.instructions.len()
            invariant
                i <= self.instructions.len(),
                instructions@ == self.instructions@.subrange(0, i as int),
            decreases self.instructions.len() - i,
        {
            instructions.push(self.instructions[i]);
            i = i + 1;
        }
        Self { instructions, memory_size: self.memory_size }
    }
}

} // verus!
