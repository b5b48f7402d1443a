//! The machine code of a program, byte for byte: the layout of the generated
//! function, the translation of each instruction and the operand fields that
//! are filled in once every offset is known.
//!
//! The generated function takes no arguments and returns in `rax`. It uses
//! the hardware stack as the operand stack and `rax` and `rcx` as scratch
//! registers. Memory cell `k` lives at `[rbp - 8 * (k + 1)]`, in a frame that
//! the prologue fills with zeros. On return `edx` is 0; it is 1 after a
//! division by zero and 2 after a register push, with `rax` 0.

use crate::bytecode::Instruction;
use crate::jit::memory::overwritten;
use vstd::prelude::*;

verus! {

/// The number of bytes before the translation of the first instruction.
pub const PROLOGUE_SIZE: usize = 17;

/// The number of bytes that return the top of the operand stack.
pub const EPILOGUE_SIZE: usize = 8;

/// The number of bytes of the two fault exits after the epilogue.
pub const FAULT_EXITS_SIZE: usize = 19;

/// The offset of the register-fault exit within the fault exits.
pub const REGISTER_FAULT_EXIT: usize = 7;

/// The largest number of bytes that one instruction translates to.
pub const MAX_TRANSLATION_SIZE: usize = 30;

/// The largest declared memory size whose cells a 32-bit displacement reaches.
pub const MAX_MEMORY_CELLS: usize = 0x1000_0000;

/// The `width` low bytes of `value`, least significant first.
pub open spec fn le_bytes(value: nat, width: nat) -> Seq<u8>
    decreases width,
{
    if width == 0 {
        Seq::empty()
    } else {
        seq![(value % 256) as u8] + le_bytes(value / 256, (width - 1) as nat)
    }
}

/// The unsigned number with the same 32 bits as the signed `value`.
pub open spec fn unsigned32(value: int) -> nat
    recommends
        -0x8000_0000 <= value < 0x8000_0000,
{
    if value < 0 {
        (value + 0x1_0000_0000) as nat
    } else {
        value as nat
    }
}

/// The unsigned number with the same 64 bits as the signed `value`.
pub open spec fn unsigned64(value: i64) -> nat {
    if value < 0 {
        (value + 0x1_0000_0000_0000_0000) as nat
    } else {
        value as nat
    }
}

/// The number of 8-byte slots that the prologue zeroes: one per declared
/// cell, rounded up to an even number, and two more that stay zero below them.
pub open spec fn frame_slots(memory_size: usize) -> nat {
    (memory_size + memory_size % 2 + 2) as nat
}

/// Where memory cell `offset` lies, relative to the frame base.
pub open spec fn cell_displacement(offset: usize) -> int {
    -8 * (offset + 1)
}

/// Saves and repoints the frame base, then pushes `frame_slots` zeros.
pub open spec fn prologue(memory_size: usize) -> Seq<u8> {
    seq![0x55u8, 0x48, 0x89, 0xE5, 0xB9] + le_bytes(frame_slots(memory_size), 4)
        + seq![0x31u8, 0xC0, 0x50, 0x48, 0xFF, 0xC9, 0x75, 0xFA]
}

/// Pops the result into `rax`, clears `edx`, restores the frame and returns.
pub open spec fn epilogue() -> Seq<u8> {
    seq![0x58u8, 0x31, 0xD2, 0x48, 0x89, 0xEC, 0x5D, 0xC3]
}

/// The division-fault exit, the register-fault exit and their common end.
pub open spec fn fault_exits() -> Seq<u8> {
    seq![
        0xBAu8, 0x01, 0x00, 0x00, 0x00, 0xEB, 0x05, 0xBA, 0x02, 0x00, 0x00, 0x00, 0x31, 0xC0,
        0x48, 0x89, 0xEC, 0x5D, 0xC3,
    ]
}

/// Pops `rcx` and `rax`, compares them and pushes 1 where `condition` (the
/// second byte of a `setcc`) holds of `rax` against `rcx`, else 0.
pub open spec fn comparison(condition: u8) -> Seq<u8> {
    seq![0x59u8, 0x58, 0x48, 0x39, 0xC8, 0x0F, condition, 0xC0, 0x48, 0x0F, 0xB6, 0xC0, 0x50]
}

/// What an operand field is filled with once all offsets are known.
#[derive(Debug, Clone, Copy, PartialEq, Eq, Structural)]
pub enum PatchTarget {
    /// The displacement to the translation of the instruction at this index.
    Instruction(usize),
    /// The displacement to the division-fault exit.
    DivisionFault,
    /// The displacement to the register-fault exit.
    RegisterFault,
    /// The address of the native function with this identifier.
    Native(u32),
}

/// One operand field that was emitted as zeros and is still to be filled.
#[derive(Debug, Clone, Copy, PartialEq, Eq, Structural)]
pub struct Patch {
    /// The offset of the field's first byte in the region.
    pub site: usize,
    /// What the field is to hold.
    pub target: PatchTarget,
}

/// The number of bytes in the field of a patch to `target`: 8 for an
/// address, 4 for a displacement.
pub open spec fn field_width(target: PatchTarget) -> nat {
    if target is Native {
        8
    } else {
        4
    }
}

/// The translation of `instruction` as it is first emitted: complete but for
/// an operand field of zeros where `operand` names one.
pub open spec fn template(instruction: Instruction) -> Seq<u8> {
    match instruction {
        Instruction::PushInt(value) => seq![0x48u8, 0xB8] + le_bytes(unsigned64(value), 8)
            + seq![0x50u8],
        Instruction::PushReg(_) => seq![0xE9u8, 0, 0, 0, 0],
        Instruction::Pop => seq![0x58u8],
        Instruction::Add => seq![0x59u8, 0x58, 0x48, 0x01, 0xC8, 0x50],
        Instruction::Sub => seq![0x59u8, 0x58, 0x48, 0x29, 0xC8, 0x50],
        Instruction::Mul => seq![0x59u8, 0x58, 0x48, 0x0F, 0xAF, 0xC1, 0x50],
        Instruction::Div => seq![
            0x59u8, 0x58, 0x48, 0x85, 0xC9, 0x0F, 0x84, 0, 0, 0, 0, 0x48, 0x83, 0xF9, 0xFF, 0x75,
            0x05, 0x48, 0xF7, 0xD8, 0xEB, 0x05, 0x48, 0x99, 0x48, 0xF7, 0xF9, 0x50,
        ],
        Instruction::Eq => comparison(0x94),
        Instruction::Lt => comparison(0x9C),
        Instruction::Gt => comparison(0x9F),
        Instruction::Jump(_) => seq![0xE9u8, 0, 0, 0, 0],
        Instruction::JumpIfZero(_) => seq![0x58u8, 0x48, 0x85, 0xC0, 0x0F, 0x84, 0, 0, 0, 0],
        Instruction::JumpIfNotZero(_) => seq![0x58u8, 0x48, 0x85, 0xC0, 0x0F, 0x85, 0, 0, 0, 0],
        Instruction::Load(offset) => seq![0x48u8, 0x8B, 0x85] + le_bytes(
            unsigned32(cell_displacement(offset)),
            4,
        ) + seq![0x50u8],
        Instruction::Store(offset) => seq![0x58u8, 0x48, 0x89, 0x85] + le_bytes(
            unsigned32(cell_displacement(offset)),
            4,
        ),
        Instruction::CallNative(_) => seq![
            0x48u8, 0x89, 0xE0, 0x48, 0x83, 0xE4, 0xF0, 0x50, 0x50, 0x48, 0x83, 0xEC, 0x20, 0x48,
            0xB8, 0, 0, 0, 0, 0, 0, 0, 0, 0xFF, 0xD0, 0x48, 0x8B, 0x64, 0x24, 0x20,
        ],
        Instruction::Return => epilogue(),
        Instruction::Halt => epilogue(),
    }
}

/// The number of bytes that `instruction` translates to.
pub open spec fn translation_size(instruction: Instruction) -> nat {
    match instruction {
        Instruction::PushInt(_) => 11,
        Instruction::PushReg(_) => 5,
        Instruction::Pop => 1,
        Instruction::Add => 6,
        Instruction::Sub => 6,
        Instruction::Mul => 7,
        Instruction::Div => 28,
        Instruction::Eq => 13,
        Instruction::Lt => 13,
        Instruction::Gt => 13,
        Instruction::Jump(_) => 5,
        Instruction::JumpIfZero(_) => 10,
        Instruction::JumpIfNotZero(_) => 10,
        Instruction::Load(_) => 8,
        Instruction::Store(_) => 8,
        Instruction::CallNative(_) => 30,
        Instruction::Return => 8,
        Instruction::Halt => 8,
    }
}

/// The operand field of `instruction` that is filled in after emission: its
/// position within the translation and what it is to hold.
pub open spec fn operand(instruction: Instruction) -> Option<(nat, PatchTarget)> {
    match instruction {
        Instruction::PushReg(_) => Some((1, PatchTarget::RegisterFault)),
        Instruction::Div => Some((7, PatchTarget::DivisionFault)),
        Instruction::Jump(target) => Some((1, PatchTarget::Instruction(target))),
        Instruction::JumpIfZero(target) => Some((6, PatchTarget::Instruction(target))),
        Instruction::JumpIfNotZero(target) => Some((6, PatchTarget::Instruction(target))),
        Instruction::CallNative(id) => Some((15, PatchTarget::Native(id))),
        _ => None,
    }
}

/// The offset at which the translation of instruction `index` starts. For
/// `index == code.len()` this is where the epilogue starts.
pub open spec fn start_of(code: Seq<Instruction>, index: int) -> int
    decreases index,
{
    if index <= 0 {
        PROLOGUE_SIZE as int
    } else {
        start_of(code, index - 1) + translation_size(code[index - 1])
    }
}

/// The offset that a displacement to `target` leads to.
pub open spec fn target_offset(code: Seq<Instruction>, target: PatchTarget) -> int {
    match target {
        PatchTarget::Instruction(index) => start_of(code, index as int),
        PatchTarget::DivisionFault => start_of(code, code.len() as int) + EPILOGUE_SIZE,
        _ => start_of(code, code.len() as int) + EPILOGUE_SIZE + REGISTER_FAULT_EXIT,
    }
}

/// The bytes that fill the field of `patch`: the address of a native
/// function, or the displacement from the end of the field to its target.
pub open spec fn resolved(code: Seq<Instruction>, natives: Map<u32, u64>, patch: Patch) -> Seq<u8> {
    match patch.target {
        PatchTarget::Native(id) => le_bytes(natives[id] as nat, 8),
        target => le_bytes(unsigned32(target_offset(code, target) - (patch.site + 4)), 4),
    }
}

/// The final translation of the instruction at `index`.
pub open spec fn translation(code: Seq<Instruction>, natives: Map<u32, u64>, index: int) -> Seq<u8>
    recommends
        0 <= index < code.len(),
{
    match operand(code[index]) {
        None => template(code[index]),
        Some((position, target)) => overwritten(
            template(code[index]),
            position as int,
            resolved(
                code,
                natives,
                Patch { site: (start_of(code, index) + position) as usize, target },
            ),
        ),
    }
}

/// The final translations of the first `count` instructions, in order.
pub open spec fn body(code: Seq<Instruction>, natives: Map<u32, u64>, count: int) -> Seq<u8>
    decreases count,
{
    if count <= 0 {
        Seq::empty()
    } else {
        body(code, natives, count - 1) + translation(code, natives, count - 1)
    }
}

/// The machine code of a program: prologue, translations, epilogue, fault exits.
pub open spec fn machine_code(
    code: Seq<Instruction>,
    memory_size: usize,
    natives: Map<u32, u64>,
) -> Seq<u8> {
    prologue(memory_size) + body(code, natives, code.len() as int) + epilogue() + fault_exits()
}

/// The templates of the first `count` instructions, in order.
pub open spec fn draft(code: Seq<Instruction>, count: int) -> Seq<u8>
    decreases count,
{
    if count <= 0 {
        Seq::empty()
    } else {
        draft(code, count - 1) + template(code[count - 1])
    }
}

/// The patches that the first `count` instructions leave behind, in order.
pub open spec fn patch_table(code: Seq<Instruction>, count: int) -> Seq<Patch>
    decreases count,
{
    if count <= 0 {
        Seq::empty()
    } else {
        let before = patch_table(code, count - 1);
        match operand(code[count - 1]) {
            None => before,
            Some((position, target)) => before.push(
                Patch { site: (start_of(code, count - 1) + position) as usize, target },
            ),
        }
    }
}

/// The region after each of `patches` has been filled in, in order.
pub open spec fn patched(
    region: Seq<u8>,
    code: Seq<Instruction>,
    natives: Map<u32, u64>,
    patches: Seq<Patch>,
) -> Seq<u8>
    decreases patches.len(),
{
    if patches.len() == 0 {
        region
    } else {
        overwritten(
            patched(region, code, natives, patches.drop_last()),
            patches.last().site as int,
            resolved(code, natives, patches.last()),
        )
    }
}

/// Whether every native function that a patch of `code` names has an address.
pub open spec fn resolvable(code: Seq<Instruction>, natives: Map<u32, u64>) -> bool {
    forall|j: int|
        0 <= j < patch_table(code, code.len() as int).len() ==> (#[trigger] patch_table(
            code,
            code.len() as int,
        )[j].target matches PatchTarget::Native(id) ==> natives.dom().contains(id))
}

/// Whether `instruction` leaves a patch to `target` behind.
pub open spec fn leaves_patch(instruction: Instruction, target: PatchTarget) -> bool {
    operand(instruction) matches Some((_, found)) && found == target
}

/// Whether every native call of `code` names a function that has an address.
pub open spec fn calls_have_addresses(code: Seq<Instruction>, natives: Map<u32, u64>) -> bool {
    forall|i: int|
        0 <= i < code.len() ==> (#[trigger] code[i] matches Instruction::CallNative(id)
            ==> natives.dom().contains(id))
}

/// The number that the bytes `bytes` write, least significant first.
pub open spec fn le_value(bytes: Seq<u8>) -> nat
    decreases bytes.len(),
{
    if bytes.len() == 0 {
        0
    } else {
        bytes[0] as nat + 256 * le_value(bytes.drop_first())
    }
}

/// The signed number with the same 32 bits as the unsigned `value`.
pub open spec fn signed32(value: nat) -> int
    recommends
        value < 0x1_0000_0000,
{
    if value >= 0x8000_0000 {
        value - 0x1_0000_0000
    } else {
        value as int
    }
}

/// Whether the patch target `target` is an offset in the machine code of
/// `code`: a fault exit, or an instruction of the program.
pub open spec fn is_place(code: Seq<Instruction>, target: PatchTarget) -> bool {
    match target {
        PatchTarget::Instruction(index) => index < code.len(),
        PatchTarget::Native(_) => false,
        _ => true,
    }
}

} // verus!
