//! The compiler: validation, size estimate, emission and patch resolution.

use crate::bytecode::{Instruction, Program};
use crate::jit::encoding::{
    calls_have_addresses, comparison, draft, epilogue, fault_exits, frame_slots, le_bytes, leaves_patch, machine_code,
    operand, patch_table, patched, prologue, resolvable, resolved, start_of, template, unsigned32,
    unsigned64, Patch, PatchTarget, EPILOGUE_SIZE, FAULT_EXITS_SIZE, MAX_MEMORY_CELLS,
    PROLOGUE_SIZE, REGISTER_FAULT_EXIT,
};
use crate::jit::layout::{
    lemma_body_len, lemma_le_bytes_len, lemma_machine_code_len, lemma_patch_table_sites,
    lemma_patched_draft, lemma_resolvable_calls, lemma_resolved_len, lemma_start_of_ordered,
    lemma_start_of_step, lemma_template_size,
};
use crate::jit::memory::{overwritten, ExecutableMemory, MemoryError, MAX_REGION_SIZE};
use crate::sandbox::{
    accepts, default_natives, lemma_verdict_accepts, verdict, violation_at, Sandbox,
    ValidationError,
};
use vstd::prelude::*;

verus! {

/// Why code could not be emitted.
#[derive(Debug, Clone, Copy, PartialEq, Eq, Structural)]
pub enum EmissionError {
    /// The region was too small for the code.
    WriteOutOfBounds,
    /// A patch names a native function that has no address.
    UnresolvedPatch,
    /// A native call reached emission without being on the whitelist.
    DisallowedNativeAtEmission,
}

/// Why a program was not compiled.
#[derive(Debug, Clone, Copy, PartialEq, Eq, Structural)]
pub enum CompileError {
    /// The sandbox refused the program.
    Validation(ValidationError),
    /// The program declares more than `MAX_MEMORY_CELLS` memory cells.
    FrameTooLarge,
    /// No region of the estimated size was granted.
    Allocation(MemoryError),
    /// Emission failed.
    Emission(EmissionError),
}

/// The number of bytes that are set aside for each instruction.
pub const BYTES_PER_INSTRUCTION: usize = 32;

/// The number of bytes that are set aside besides those for instructions.
pub const FIXED_BYTES: usize = 64;

/// The size of the region that is asked for to compile `count` instructions.
pub open spec fn estimated_size(count: nat) -> nat {
    count * BYTES_PER_INSTRUCTION as nat + FIXED_BYTES as nat
}

/// A region of `size` bytes that starts with `code` and is zero after it.
pub open spec fn padded(code: Seq<u8>, size: nat) -> Seq<u8> {
    code + Seq::new((size - code.len()) as nat, |i: int| 0u8)
}

/// What a write of `code` at `offset` does to a region and returns: the
/// offset after the code, or `WriteOutOfBounds` with the region untouched.
pub open spec fn emitted(
    before: Seq<u8>,
    after: Seq<u8>,
    offset: usize,
    code: Seq<u8>,
    r: Result<usize, EmissionError>,
) -> bool {
    match r {
        Ok(next) => offset + code.len() <= before.len() && next == offset + code.len() && after
            == overwritten(before, offset as int, code),
        Err(error) => error == EmissionError::WriteOutOfBounds && offset + code.len()
            > before.len() && after == before,
    }
}

/// What the emission of `instruction` at `offset` does to the patch table:
/// where it succeeds and the instruction has an operand field, the patch for
/// that field is added.
pub open spec fn recorded(
    before: Seq<Patch>,
    after: Seq<Patch>,
    offset: usize,
    instruction: Instruction,
    r: Result<usize, EmissionError>,
) -> bool {
    match operand(instruction) {
        Some((position, target)) if r is Ok => after == before.push(
            Patch { site: (offset + position) as usize, target },
        ),
        _ => after == before,
    }
}

/// Whether `instruction` is a call to a native function outside `allowed`.
pub open spec fn is_disallowed_call(instruction: Instruction, allowed: Set<u32>) -> bool {
    instruction matches Instruction::CallNative(id) && !allowed.contains(id)
}

/// What the emission of one instruction does: a call outside the whitelist
/// is refused and nothing changes; any other instruction has its template
/// written and its patch recorded.
pub open spec fn emission(
    before: Seq<u8>,
    after: Seq<u8>,
    patches_before: Seq<Patch>,
    patches_after: Seq<Patch>,
    offset: usize,
    instruction: Instruction,
    allowed: Set<u32>,
    r: Result<usize, EmissionError>,
) -> bool {
    if is_disallowed_call(instruction, allowed) {
        &&& r == Err::<usize, EmissionError>(EmissionError::DisallowedNativeAtEmission)
        &&& after == before
        &&& patches_after == patches_before
    } else {
        &&& emitted(before, after, offset, template(instruction), r)
        &&& recorded(patches_before, patches_after, offset, instruction, r)
    }
}

/// What compiling a program gives: the error of the first step that fails,
/// or a region of the estimated size that starts with the machine code.
/// Validation comes first, then the frame, then the region, and last the
/// patches, which fail where a native call names a function without an
/// address.
pub open spec fn compilation(
    code: Seq<Instruction>,
    memory_size: usize,
    allowed: Set<u32>,
    natives: Map<u32, u64>,
) -> Result<Seq<u8>, CompileError> {
    match verdict(code, memory_size, allowed) {
        Err(error) => Err(CompileError::Validation(error)),
        Ok(()) => if memory_size > MAX_MEMORY_CELLS {
            Err(CompileError::FrameTooLarge)
        } else if estimated_size(code.len()) > MAX_REGION_SIZE {
            Err(CompileError::Allocation(MemoryError::AllocationFailed))
        } else if !calls_have_addresses(code, natives) {
            Err(CompileError::Emission(EmissionError::UnresolvedPatch))
        } else {
            Ok(padded(machine_code(code, memory_size, natives), estimated_size(code.len())))
        },
    }
}

/// The estimate never undercounts: the machine code of every program fits
/// in a region of the estimated size.
pub proof fn lemma_estimate_covers_code(
    code: Seq<Instruction>,
    memory_size: usize,
    natives: Map<u32, u64>,
)
    ensures
        machine_code(code, memory_size, natives).len() <= estimated_size(code.len()),
{
    lemma_machine_code_len(code, memory_size, natives);
}

/// A compiled region holds the machine code from its first byte on and has
/// the estimated size.
pub proof fn lemma_compiled_region(
    code: Seq<Instruction>,
    memory_size: usize,
    allowed: Set<u32>,
    natives: Map<u32, u64>,
)
    requires
        compilation(code, memory_size, allowed, natives) is Ok,
    ensures
        ({
            let region = compilation(code, memory_size, allowed, natives)->Ok_0;
            let image = machine_code(code, memory_size, natives);
            &&& region.len() == estimated_size(code.len())
            &&& region.subrange(0, image.len() as int) == image
        }),
{
    lemma_estimate_covers_code(code, memory_size, natives);
    let region = compilation(code, memory_size, allowed, natives)->Ok_0;
    let image = machine_code(code, memory_size, natives);
    assert(region.subrange(0, image.len() as int) =~= image);
}

/// The address table as a map: a later entry for an identifier replaces an
/// earlier one.
pub open spec fn address_map(entries: Seq<(u32, u64)>) -> Map<u32, u64>
    decreases entries.len(),
{
    if entries.len() == 0 {
        Map::empty()
    } else {
        address_map(entries.drop_last()).insert(entries.last().0, entries.last().1)
    }
}

/// The `width` low bytes of `value`, least significant first.
fn le_bytes_of(value: u64, width: usize) -> (r: Vec<u8>)
    requires
        width <= 8,
    ensures
        r@ == le_bytes(value as nat, width as nat),
{
    let mut bytes: Vec<u8> = Vec::new();
    let mut rest: u64 = value;
    let mut i: usize = 0;
    while i < width
        invariant
            i <= width,
            bytes@ + le_bytes(rest as nat, (width - i) as nat) == le_bytes(
                value as nat,
                width as nat,
            ),
        decreases width - i,
    {
        let ghost before = bytes@;
        bytes.push((rest % 256) as u8);
        proof {
            assert(bytes@ + le_bytes((rest / 256) as nat, (width - i - 1) as nat) =~= before
                + le_bytes(rest as nat, (width - i) as nat));
        }
        rest = rest / 256;
        i = i + 1;
    }
    assert(bytes@ + le_bytes(rest as nat, 0) =~= bytes@);
    bytes
}

/// The bytes of a signed 32-bit number, least significant first.
fn signed32_bytes(value: i64) -> (r: Vec<u8>)
    requires
        -0x8000_0000 <= value < 0x8000_0000,
    ensures
        r@ == le_bytes(unsigned32(value as int), 4),
{
    let bits: u64 = if value < 0 {
        (value + 0x1_0000_0000) as u64
    } else {
        value as u64
    };
    le_bytes_of(bits, 4)
}

/// The bytes of a signed 64-bit number, least significant first.
fn signed64_bytes(value: i64) -> (r: Vec<u8>)
    ensures
        r@ == le_bytes(unsigned64(value), 8),
{
    let bits: u64 = if value < 0 {
        ((value - i64::MIN) as u64) + 0x8000_0000_0000_0000
    } else {
        value as u64
    };
    le_bytes_of(bits, 8)
}

/// The bytes of the displacement from the end of the 4-byte field at `site`
/// to `target`.
fn displacement_bytes(target: usize, site: usize) -> (r: Vec<u8>)
    requires
        target <= MAX_REGION_SIZE,
        site + 4 <= MAX_REGION_SIZE,
    ensures
        r@ == le_bytes(unsigned32(target - (site + 4)), 4),
{
    signed32_bytes(target as i64 - (site as i64 + 4))
}

/// Writes `code` into the region at `offset` and returns the offset after it.
fn emit(memory: &mut ExecutableMemory, offset: usize, code: &Vec<u8>) -> (r: Result<
    usize,
    EmissionError,
>)
    ensures
        emitted(old(memory)@, final(memory)@, offset, code@, r),
{
    match memory.write(offset, code.as_slice()) {
        Ok(()) => Ok(offset + code.len()),
        Err(_) => Err(EmissionError::WriteOutOfBounds),
    }
}

/// Writes `code`, which has an operand field of zeros at `position`, and
/// records the patch that is to fill the field with `target`.
fn emit_with_patch(
    memory: &mut ExecutableMemory,
    patches: &mut Vec<Patch>,
    offset: usize,
    code: &Vec<u8>,
    position: usize,
    target: PatchTarget,
) -> (r: Result<usize, EmissionError>)
    requires
        position <= code@.len(),
    ensures
        emitted(old(memory)@, final(memory)@, offset, code@, r),
        r is Ok ==> final(patches)@ == old(patches)@.push(
            Patch { site: (offset + position) as usize, target },
        ),
        r is Err ==> final(patches)@ == old(patches)@,
{
    let next = emit(memory, offset, code)?;
    patches.push(Patch { site: offset + position, target });
    Ok(next)
}

/// A compiler for one program, with the sandbox that judges it and the
/// table of native functions that its calls may reach.
pub struct JitCompiler {
    sandbox: Sandbox,
    natives: Vec<(u32, u64)>,
}

impl JitCompiler {
    /// The instructions that are compiled.
    pub closed spec fn code(&self) -> Seq<Instruction> {
        self.sandbox.code()
    }

    /// The declared memory size of the program.
    pub closed spec fn memory_size(&self) -> usize {
        self.sandbox.memory_size()
    }

    /// The identifiers on the sandbox's whitelist.
    pub closed spec fn allowed(&self) -> Set<u32> {
        self.sandbox.allowed()
    }

    /// The addresses of the native functions that calls may be resolved to.
    pub closed spec fn natives(&self) -> Map<u32, u64> {
        address_map(self.natives@)
    }

    /// A compiler for `program`, with the default whitelist and no addresses.
    pub fn new(program: Program) -> (r: Self)
        ensures
            r.code() == program.instructions@,
            r.memory_size() == program.memory_size,
            r.allowed() == default_natives(),
            r.natives() == Map::<u32, u64>::empty(),
    {
        Self { sandbox: Sandbox::new(&program), natives: Vec::new() }
    }

    /// Puts the native function `id` on the sandbox's whitelist.
    pub fn allow_native(&mut self, id: u32)
        ensures
            final(self).allowed() == old(self).allowed().insert(id),
            final(self).code() == old(self).code(),
            final(self).memory_size() == old(self).memory_size(),
            final(self).natives() == old(self).natives(),
    {
        self.sandbox.allow_native(id);
    }

    /// Gives the native function `id` the address that calls to it go to.
    pub fn register_native(&mut self, id: u32, address: u64)
        ensures
            final(self).natives() == old(self).natives().insert(id, address),
            final(self).allowed() == old(self).allowed(),
            final(self).code() == old(self).code(),
            final(self).memory_size() == old(self).memory_size(),
    {
        self.natives.push((id, address));
        assert(self.natives@.drop_last() =~= old(self).natives@);
    }

    /// The address of the native function `id`, if it has one.
    fn native_address(&self, id: u32) -> (r: Option<u64>)
        ensures
            r == (if self.natives().dom().contains(id) {
                Some(self.natives()[id])
            } else {
                None
            }),
    {
        let mut i: usize = self.natives.len();
        assert(self.natives@.subrange(0, i as int) =~= self.natives@);
        while i > 0
            invariant
                i <= self.natives.len(),
                address_map(self.natives@).dom().contains(id) == address_map(
                    self.natives@.subrange(0, i as int),
                ).dom().contains(id),
                address_map(self.natives@).dom().contains(id) ==> address_map(self.natives@)[id]
                    == address_map(self.natives@.subrange(0, i as int))[id],
            decreases i,
        {
            let entry = self.natives[i - 1];
            assert(self.natives@.subrange(0, i as int).drop_last() =~= self.natives@.subrange(
                0,
                i - 1,
            ));
            if entry.0 == id {
                return Some(entry.1);
            }
            i = i - 1;
        }
        None
    }

    /// A conservative upper bound on the size of the generated code, capped
    /// at `usize::MAX`.
    pub fn estimate_code_size(&self) -> (r: usize)
        ensures
            r == (if estimated_size(self.code().len()) <= usize::MAX {
                estimated_size(self.code().len())
            } else {
                usize::MAX as nat
            }),
    {
        match self.sandbox.program().instructions.len().checked_mul(BYTES_PER_INSTRUCTION) {
            Some(product) => match product.checked_add(FIXED_BYTES) {
                Some(size) => size,
                None => usize::MAX,
            },
            None => usize::MAX,
        }
    }

    /// Compiles the program: validates it, allocates a region of the
    /// estimated size, emits prologue, translations, epilogue and fault
    /// exits, and fills in every operand field.
    pub fn compile(&mut self) -> (r: Result<ExecutableMemory, CompileError>)
        ensures
            *final(self) == *old(self),
            match r {
                Ok(region) => compilation(
                    old(self).code(),
                    old(self).memory_size(),
                    old(self).allowed(),
                    old(self).natives(),
                ) == Ok::<Seq<u8>, CompileError>(region@),
                Err(error) => compilation(
                    old(self).code(),
                    old(self).memory_size(),
                    old(self).allowed(),
                    old(self).natives(),
                ) == Err::<Seq<u8>, CompileError>(error),
            },
    {
        if let Err(error) = self.sandbox.validate() {
            return Err(CompileError::Validation(error));
        }
        let program = self.sandbox.program();
        let count = program.instructions.len();
        let ghost code = self.code();
        let ghost memory_size = self.memory_size();
        let ghost allowed = self.allowed();
        let ghost natives = self.natives();
        proof {
            lemma_verdict_accepts(code, memory_size, allowed);
        }
        if program.memory_size > MAX_MEMORY_CELLS {
            return Err(CompileError::FrameTooLarge);
        }
        let size = self.estimate_code_size();
        let mut memory = match ExecutableMemory::allocate(size) {
            Ok(memory) => memory,
            Err(error) => {
                return Err(CompileError::Allocation(error));
            },
        };
        let mut patches: Vec<Patch> = Vec::new();
        let mut offsets: Vec<usize> = Vec::new();
        proof {
            lemma_le_bytes_len(frame_slots(memory_size), 4);
        }
        let mut offset = match self.emit_prologue(&mut memory, 0) {
            Ok(next) => next,
            Err(error) => {
                return Err(CompileError::Emission(error));
            },
        };
        assert(memory@ =~= padded(prologue(memory_size) + draft(code, 0), size as nat));
        let mut index: usize = 0;
        while index < count
            invariant
                index <= count,
                count == code.len(),
                program.instructions@ == code,
                code == self.code(),
                allowed == self.allowed(),
                memory_size <= MAX_MEMORY_CELLS,
                accepts(code, memory_size, allowed),
                size == estimated_size(code.len()),
                size <= MAX_REGION_SIZE,
                prologue(memory_size).len() == PROLOGUE_SIZE,
                offset == start_of(code, index as int),
                memory@ == padded(prologue(memory_size) + draft(code, index as int), size as nat),
                patches@ == patch_table(code, index as int),
                offsets@.len() == index,
                forall|k: int| 0 <= k < index ==> offsets@[k] == start_of(code, k),
            decreases count - index,
        {
            let instruction = &program.instructions[index];
            proof {
                assert(violation_at(code, memory_size, allowed, index as int) is None);
                lemma_start_of_step(code, index as int);
                lemma_template_size(code[index as int]);
                lemma_body_len(code, natives, index as int);
            }
            let ghost before = memory@;
            offsets.push(offset);
            offset = match self.emit_instruction(&mut memory, &mut patches, offset, instruction) {
                Ok(next) => next,
                Err(error) => {
                    return Err(CompileError::Emission(error));
                },
            };
            assert(memory@ =~= padded(
                prologue(memory_size) + draft(code, index + 1),
                size as nat,
            ));
            index = index + 1;
        }
        let end = offset;
        proof {
            lemma_start_of_step(code, count as int);
            lemma_body_len(code, natives, count as int);
            lemma_resolvable_calls(code, natives);
        }
        match self.emit_epilogue(&mut memory, offset) {
            Ok(_) => {},
            Err(error) => {
                return Err(CompileError::Emission(error));
            },
        }
        let ghost tail = epilogue() + fault_exits() + Seq::new(
            (size - end - EPILOGUE_SIZE - FAULT_EXITS_SIZE) as nat,
            |i: int| 0u8,
        );
        let ghost drafted = memory@;
        assert(drafted =~= prologue(memory_size) + draft(code, count as int) + tail);
        assert forall|j: int| 0 <= j < patches@.len() implies (#[trigger] patches@[j].target matches PatchTarget::Instruction(
            target,
        ) ==> target < code.len()) by {
            lemma_patch_table_sites(code, count as int, j);
            let i = choose|i: int|
                0 <= i < count && #[trigger] leaves_patch(code[i], patches@[j].target);
            assert(violation_at(code, memory_size, allowed, i) is None);
        }
        match self.resolve_patches(&mut memory, &patches, &offsets, end) {
            Ok(()) => {},
            Err(error) => {
                return Err(CompileError::Emission(error));
            },
        }
        proof {
            lemma_patched_draft(prologue(memory_size), tail, code, natives, count as int);
            assert(memory@ =~= padded(machine_code(code, memory_size, natives), size as nat));
        }
        Ok(memory)
    }

    /// Fills in every operand field that emission left as zeros: a jump's
    /// field with the displacement to its target, a call's with the address
    /// of its native function.
    fn resolve_patches(
        &self,
        memory: &mut ExecutableMemory,
        patches: &Vec<Patch>,
        offsets: &Vec<usize>,
        end: usize,
    ) -> (r: Result<(), EmissionError>)
        requires
            offsets@.len() == self.code().len(),
            forall|k: int| 0 <= k < offsets@.len() ==> offsets@[k] == start_of(self.code(), k),
            end == start_of(self.code(), self.code().len() as int),
            patches@ == patch_table(self.code(), self.code().len() as int),
            end + EPILOGUE_SIZE + FAULT_EXITS_SIZE <= old(memory)@.len() <= MAX_REGION_SIZE,
            forall|j: int|
                0 <= j < patches@.len() ==> (#[trigger] patches@[j].target matches PatchTarget::Instruction(
                    target,
                ) ==> target < self.code().len()),
        ensures
            match r {
                Ok(()) => resolvable(self.code(), self.natives()) && final(memory)@ == patched(
                    old(memory)@,
                    self.code(),
                    self.natives(),
                    patches@,
                ),
                Err(error) => error == EmissionError::UnresolvedPatch && !resolvable(
                    self.code(),
                    self.natives(),
                ),
            },
    {
        let ghost code = self.code();
        let ghost natives = self.natives();
        let ghost count = code.len() as int;
        let mut j: usize = 0;
        assert(patches@.subrange(0, 0) =~= Seq::<Patch>::empty());
        while j < patches.len()
            invariant
                j <= patches.len(),
                code == self.code(),
                natives == self.natives(),
                count == code.len(),
                offsets@.len() == code.len(),
                forall|k: int| 0 <= k < offsets@.len() ==> offsets@[k] == start_of(code, k),
                end == start_of(code, count),
                patches@ == patch_table(code, count),
                end + EPILOGUE_SIZE + FAULT_EXITS_SIZE <= memory@.len() <= MAX_REGION_SIZE,
                forall|k: int|
                    0 <= k < patches@.len() ==> (#[trigger] patches@[k].target matches PatchTarget::Instruction(
                        target,
                    ) ==> target < code.len()),
                forall|k: int|
                    0 <= k < j ==> (#[trigger] patches@[k].target matches PatchTarget::Native(id)
                        ==> natives.dom().contains(id)),
                memory@ == patched(old(memory)@, code, natives, patches@.subrange(0, j as int)),
            decreases patches.len() - j,
        {
            let patch = patches[j];
            proof {
                lemma_patch_table_sites(code, count, j as int);
                lemma_resolved_len(code, natives, patch);
            }
            let field = match patch.target {
                PatchTarget::Instruction(target) => {
                    proof {
                        lemma_start_of_ordered(code, target as int, count);
                    }
                    displacement_bytes(offsets[target], patch.site)
                },
                PatchTarget::DivisionFault => displacement_bytes(end + EPILOGUE_SIZE, patch.site),
                PatchTarget::RegisterFault => displacement_bytes(
                    end + EPILOGUE_SIZE + REGISTER_FAULT_EXIT,
                    patch.site,
                ),
                PatchTarget::Native(id) => match self.native_address(id) {
                    Some(address) => le_bytes_of(address, 8),
                    None => {
                        return Err(EmissionError::UnresolvedPatch);
                    },
                },
            };
            assert(field@ == resolved(code, natives, patch));
            match memory.write(patch.site, field.as_slice()) {
                Ok(()) => {},
                Err(_) => {
                    return Err(EmissionError::WriteOutOfBounds);
                },
            }
            proof {
                assert(patches@.subrange(0, j + 1).drop_last() =~= patches@.subrange(0, j as int));
            }
            j = j + 1;
        }
        assert(patches@.subrange(0, j as int) =~= patches@);
        Ok(())
    }

    /// Emits the prologue: `push rbp; mov rbp, rsp`, then a loop that pushes
    /// one zero for each slot of the frame.
    fn emit_prologue(&self, memory: &mut ExecutableMemory, offset: usize) -> (r: Result<
        usize,
        EmissionError,
    >)
        requires
            self.memory_size() <= MAX_MEMORY_CELLS,
        ensures
            emitted(old(memory)@, final(memory)@, offset, prologue(self.memory_size()), r),
    {
        let memory_size = self.sandbox.program().memory_size;
        let slots: u64 = (memory_size + memory_size % 2 + 2) as u64;
        // push rbp; mov rbp, rsp; mov ecx, slots
        let mut code: Vec<u8> = vec![0x55, 0x48, 0x89, 0xE5, 0xB9];
        let mut count = le_bytes_of(slots, 4);
        code.append(&mut count);
        // xor eax, eax; push rax; dec rcx; jnz -6
        let mut zeroing: Vec<u8> = vec![0x31, 0xC0, 0x50, 0x48, 0xFF, 0xC9, 0x75, 0xFA];
        code.append(&mut zeroing);
        emit(memory, offset, &code)
    }

    /// Emits the epilogue, which returns the top of the operand stack, and
    /// after it the two fault exits.
    fn emit_epilogue(&self, memory: &mut ExecutableMemory, offset: usize) -> (r: Result<
        usize,
        EmissionError,
    >)
        ensures
            emitted(old(memory)@, final(memory)@, offset, epilogue() + fault_exits(), r),
    {
        // pop rax; xor edx, edx; mov rsp, rbp; pop rbp; ret
        let mut code: Vec<u8> = vec![0x58, 0x31, 0xD2, 0x48, 0x89, 0xEC, 0x5D, 0xC3];
        // mov edx, 1; jmp +5; mov edx, 2; xor eax, eax; mov rsp, rbp; pop rbp; ret
        let mut exits: Vec<u8> = vec![
            0xBA, 0x01, 0x00, 0x00, 0x00, 0xEB, 0x05, 0xBA, 0x02, 0x00, 0x00, 0x00, 0x31, 0xC0,
            0x48, 0x89, 0xEC, 0x5D, 0xC3,
        ];
        code.append(&mut exits);
        emit(memory, offset, &code)
    }

    /// Emits the translation of one instruction, with zeros in its operand
    /// field, and records the patch for that field.
    fn emit_instruction(
        &self,
        memory: &mut ExecutableMemory,
        patches: &mut Vec<Patch>,
        offset: usize,
        instruction: &Instruction,
    ) -> (r: Result<usize, EmissionError>)
        requires
            instruction matches Instruction::Load(cell) ==> cell < MAX_MEMORY_CELLS,
            instruction matches Instruction::Store(cell) ==> cell < MAX_MEMORY_CELLS,
        ensures
            emission(
                old(memory)@,
                final(memory)@,
                old(patches)@,
                final(patches)@,
                offset,
                *instruction,
                self.allowed(),
                r,
            ),
    {
        match instruction {
            Instruction::PushInt(value) => self.emit_push_int(memory, offset, *value),
            Instruction::PushReg(_) => self.emit_push_reg(memory, patches, offset),
            Instruction::Pop => self.emit_pop(memory, offset),
            Instruction::Add => self.emit_add(memory, offset),
            Instruction::Sub => self.emit_sub(memory, offset),
            Instruction::Mul => self.emit_mul(memory, offset),
            Instruction::Div => self.emit_div(memory, patches, offset),
            Instruction::Eq => self.emit_eq(memory, offset),
            Instruction::Lt => self.emit_lt(memory, offset),
            Instruction::Gt => self.emit_gt(memory, offset),
            Instruction::Jump(target) => self.emit_jump(memory, patches, offset, *target),
            Instruction::JumpIfZero(target) => self.emit_jump_if_zero(
                memory,
                patches,
                offset,
                *target,
            ),
            Instruction::JumpIfNotZero(target) => self.emit_jump_if_not_zero(
                memory,
                patches,
                offset,
                *target,
            ),
            Instruction::Load(cell) => self.emit_load(memory, offset, *cell),
            Instruction::Store(cell) => self.emit_store(memory, offset, *cell),
            Instruction::CallNative(id) => self.emit_call_native(memory, patches, offset, *id),
            Instruction::Return => self.emit_return(memory, offset),
            Instruction::Halt => self.emit_halt(memory, offset),
        }
    }

    fn emit_push_int(&self, memory: &mut ExecutableMemory, offset: usize, value: i64) -> (r:
        Result<usize, EmissionError>)
        ensures
            emitted(old(memory)@, final(memory)@, offset, template(Instruction::PushInt(value)), r),
    {
        // mov rax, value
        let mut code: Vec<u8> = vec![0x48, 0xB8];
        let mut immediate = signed64_bytes(value);
        code.append(&mut immediate);
        // push rax
        code.push(0x50);
        assert(code@ =~= template(Instruction::PushInt(value)));
        emit(memory, offset, &code)
    }

    fn emit_push_reg(
        &self,
        memory: &mut ExecutableMemory,
        patches: &mut Vec<Patch>,
        offset: usize,
    ) -> (r: Result<usize, EmissionError>)
        ensures
            emitted(old(memory)@, final(memory)@, offset, seq![0xE9u8, 0, 0, 0, 0], r),
            r is Ok ==> final(patches)@ == old(patches)@.push(
                Patch { site: (offset + 1) as usize, target: PatchTarget::RegisterFault },
            ),
            r is Err ==> final(patches)@ == old(patches)@,
    {
        // jmp register-fault exit
        let code: Vec<u8> = vec![0xE9, 0x00, 0x00, 0x00, 0x00];
        emit_with_patch(memory, patches, offset, &code, 1, PatchTarget::RegisterFault)
    }

    fn emit_pop(&self, memory: &mut ExecutableMemory, offset: usize) -> (r: Result<
        usize,
        EmissionError,
    >)
        ensures
            emitted(old(memory)@, final(memory)@, offset, template(Instruction::Pop), r),
    {
        // pop rax
        let code: Vec<u8> = vec![0x58];
        assert(code@ =~= template(Instruction::Pop));
        emit(memory, offset, &code)
    }

    fn emit_add(&self, memory: &mut ExecutableMemory, offset: usize) -> (r: Result<
        usize,
        EmissionError,
    >)
        ensures
            emitted(old(memory)@, final(memory)@, offset, template(Instruction::Add), r),
    {
        // pop rcx; pop rax; add rax, rcx; push rax
        let code: Vec<u8> = vec![0x59, 0x58, 0x48, 0x01, 0xC8, 0x50];
        emit(memory, offset, &code)
    }

    fn emit_sub(&self, memory: &mut ExecutableMemory, offset: usize) -> (r: Result<
        usize,
        EmissionError,
    >)
        ensures
            emitted(old(memory)@, final(memory)@, offset, template(Instruction::Sub), r),
    {
        // pop rcx; pop rax; sub rax, rcx; push rax
        let code: Vec<u8> = vec![0x59, 0x58, 0x48, 0x29, 0xC8, 0x50];
        emit(memory, offset, &code)
    }

    fn emit_mul(&self, memory: &mut ExecutableMemory, offset: usize) -> (r: Result<
        usize,
        EmissionError,
    >)
        ensures
            emitted(old(memory)@, final(memory)@, offset, template(Instruction::Mul), r),
    {
        // pop rcx; pop rax; imul rax, rcx; push rax
        let code: Vec<u8> = vec![0x59, 0x58, 0x48, 0x0F, 0xAF, 0xC1, 0x50];
        emit(memory, offset, &code)
    }

    fn emit_div(
        &self,
        memory: &mut ExecutableMemory,
        patches: &mut Vec<Patch>,
        offset: usize,
    ) -> (r: Result<usize, EmissionError>)
        ensures
            emitted(old(memory)@, final(memory)@, offset, template(Instruction::Div), r),
            r is Ok ==> final(patches)@ == old(patches)@.push(
                Patch { site: (offset + 7) as usize, target: PatchTarget::DivisionFault },
            ),
            r is Err ==> final(patches)@ == old(patches)@,
    {
        // pop rcx; pop rax; test rcx, rcx; jz division-fault exit
        let mut code: Vec<u8> = vec![0x59, 0x58, 0x48, 0x85, 0xC9, 0x0F, 0x84, 0, 0, 0, 0];
        // a divisor of -1 negates: the one quotient that does not fit wraps
        // test rcx against -1; jne +5; neg rax; jmp +5
        let mut negation: Vec<u8> = vec![
            0x48, 0x83, 0xF9, 0xFF, 0x75, 0x05, 0x48, 0xF7, 0xD8, 0xEB, 0x05,
        ];
        code.append(&mut negation);
        // cqo; idiv rcx; push rax
        let mut division: Vec<u8> = vec![0x48, 0x99, 0x48, 0xF7, 0xF9, 0x50];
        code.append(&mut division);
        assert(code@ =~= template(Instruction::Div));
        emit_with_patch(memory, patches, offset, &code, 7, PatchTarget::DivisionFault)
    }

    /// Emits a comparison that pushes 1 where `condition` holds, else 0.
    fn emit_comparison(&self, memory: &mut ExecutableMemory, offset: usize, condition: u8) -> (r:
        Result<usize, EmissionError>)
        ensures
            emitted(old(memory)@, final(memory)@, offset, comparison(condition), r),
    {
        // pop rcx; pop rax; compare rax with rcx
        let mut code: Vec<u8> = vec![0x59, 0x58, 0x48, 0x39, 0xC8];
        // set al on the condition; movzx rax, al; push rax
        let mut setting: Vec<u8> = vec![0x0F, condition, 0xC0, 0x48, 0x0F, 0xB6, 0xC0, 0x50];
        code.append(&mut setting);
        assert(code@ =~= comparison(condition));
        emit(memory, offset, &code)
    }

    fn emit_eq(&self, memory: &mut ExecutableMemory, offset: usize) -> (r: Result<
        usize,
        EmissionError,
    >)
        ensures
            emitted(old(memory)@, final(memory)@, offset, template(Instruction::Eq), r),
    {
        // sete
        self.emit_comparison(memory, offset, 0x94)
    }

    fn emit_lt(&self, memory: &mut ExecutableMemory, offset: usize) -> (r: Result<
        usize,
        EmissionError,
    >)
        ensures
            emitted(old(memory)@, final(memory)@, offset, template(Instruction::Lt), r),
    {
        // setl
        self.emit_comparison(memory, offset, 0x9C)
    }

    fn emit_gt(&self, memory: &mut ExecutableMemory, offset: usize) -> (r: Result<
        usize,
        EmissionError,
    >)
        ensures
            emitted(old(memory)@, final(memory)@, offset, template(Instruction::Gt), r),
    {
        // setg
        self.emit_comparison(memory, offset, 0x9F)
    }

    fn emit_jump(
        &self,
        memory: &mut ExecutableMemory,
        patches: &mut Vec<Patch>,
        offset: usize,
        target: usize,
    ) -> (r: Result<usize, EmissionError>)
        ensures
            emitted(old(memory)@, final(memory)@, offset, template(Instruction::Jump(target)), r),
            r is Ok ==> final(patches)@ == old(patches)@.push(
                Patch { site: (offset + 1) as usize, target: PatchTarget::Instruction(target) },
            ),
            r is Err ==> final(patches)@ == old(patches)@,
    {
        // jmp target
        let code: Vec<u8> = vec![0xE9, 0x00, 0x00, 0x00, 0x00];
        emit_with_patch(memory, patches, offset, &code, 1, PatchTarget::Instruction(target))
    }

    fn emit_jump_if_zero(
        &self,
        memory: &mut ExecutableMemory,
        patches: &mut Vec<Patch>,
        offset: usize,
        target: usize,
    ) -> (r: Result<usize, EmissionError>)
        ensures
            emitted(
                old(memory)@,
                final(memory)@,
                offset,
                template(Instruction::JumpIfZero(target)),
                r,
            ),
            r is Ok ==> final(patches)@ == old(patches)@.push(
                Patch { site: (offset + 6) as usize, target: PatchTarget::Instruction(target) },
            ),
            r is Err ==> final(patches)@ == old(patches)@,
    {
        // pop rax; test rax, rax; jz target
        let code: Vec<u8> = vec![0x58, 0x48, 0x85, 0xC0, 0x0F, 0x84, 0x00, 0x00, 0x00, 0x00];
        emit_with_patch(memory, patches, offset, &code, 6, PatchTarget::Instruction(target))
    }

    fn emit_jump_if_not_zero(
        &self,
        memory: &mut ExecutableMemory,
        patches: &mut Vec<Patch>,
        offset: usize,
        target: usize,
    ) -> (r: Result<usize, EmissionError>)
        ensures
            emitted(
                old(memory)@,
                final(memory)@,
                offset,
                template(Instruction::JumpIfNotZero(target)),
                r,
            ),
            r is Ok ==> final(patches)@ == old(patches)@.push(
                Patch { site: (offset + 6) as usize, target: PatchTarget::Instruction(target) },
            ),
            r is Err ==> final(patches)@ == old(patches)@,
    {
        // pop rax; test rax, rax; jnz target
        let code: Vec<u8> = vec![0x58, 0x48, 0x85, 0xC0, 0x0F, 0x85, 0x00, 0x00, 0x00, 0x00];
        emit_with_patch(memory, patches, offset, &code, 6, PatchTarget::Instruction(target))
    }

    fn emit_load(&self, memory: &mut ExecutableMemory, offset: usize, cell: usize) -> (r: Result<
        usize,
        EmissionError,
    >)
        requires
            cell < MAX_MEMORY_CELLS,
        ensures
            emitted(old(memory)@, final(memory)@, offset, template(Instruction::Load(cell)), r),
    {
        // mov rax, [rbp - 8 * (cell + 1)]
        let mut code: Vec<u8> = vec![0x48, 0x8B, 0x85];
        let mut displacement = signed32_bytes(-8 * (cell as i64 + 1));
        code.append(&mut displacement);
        // push rax
        code.push(0x50);
        assert(code@ =~= template(Instruction::Load(cell)));
        emit(memory, offset, &code)
    }

    fn emit_store(&self, memory: &mut ExecutableMemory, offset: usize, cell: usize) -> (r: Result<
        usize,
        EmissionError,
    >)
        requires
            cell < MAX_MEMORY_CELLS,
        ensures
            emitted(old(memory)@, final(memory)@, offset, template(Instruction::Store(cell)), r),
    {
        // pop rax; mov [rbp - 8 * (cell + 1)], rax
        let mut code: Vec<u8> = vec![0x58, 0x48, 0x89, 0x85];
        let mut displacement = signed32_bytes(-8 * (cell as i64 + 1));
        code.append(&mut displacement);
        assert(code@ =~= template(Instruction::Store(cell)));
        emit(memory, offset, &code)
    }

    fn emit_call_native(
        &self,
        memory: &mut ExecutableMemory,
        patches: &mut Vec<Patch>,
        offset: usize,
        id: u32,
    ) -> (r: Result<usize, EmissionError>)
        ensures
            emission(
                old(memory)@,
                final(memory)@,
                old(patches)@,
                final(patches)@,
                offset,
                Instruction::CallNative(id),
                self.allowed(),
                r,
            ),
    {
        if !self.sandbox.is_native_allowed(id) {
            return Err(EmissionError::DisallowedNativeAtEmission);
        }
        // mov rax, rsp; and rsp, -16; push rax; push rax; sub rsp, 32
        let mut code: Vec<u8> = vec![
            0x48, 0x89, 0xE0, 0x48, 0x83, 0xE4, 0xF0, 0x50, 0x50, 0x48, 0x83, 0xEC, 0x20,
        ];
        // mov rax, address; call rax
        let mut call: Vec<u8> = vec![0x48, 0xB8, 0, 0, 0, 0, 0, 0, 0, 0, 0xFF, 0xD0];
        code.append(&mut call);
        // mov rsp, [rsp + 32]
        let mut restore: Vec<u8> = vec![0x48, 0x8B, 0x64, 0x24, 0x20];
        code.append(&mut restore);
        assert(code@ =~= template(Instruction::CallNative(id)));
        emit_with_patch(memory, patches, offset, &code, 15, PatchTarget::Native(id))
    }

    fn emit_return(&self, memory: &mut ExecutableMemory, offset: usize) -> (r: Result<
        usize,
        EmissionError,
    >)
        ensures
            emitted(old(memory)@, final(memory)@, offset, epilogue(), r),
    {
        // pop rax; xor edx, edx; mov rsp, rbp; pop rbp; ret
        let code: Vec<u8> = vec![0x58, 0x31, 0xD2, 0x48, 0x89, 0xEC, 0x5D, 0xC3];
        emit(memory, offset, &code)
    }

    fn emit_halt(&self, memory: &mut ExecutableMemory, offset: usize) -> (r: Result<
        usize,
        EmissionError,
    >)
        ensures
            emitted(old(memory)@, final(memory)@, offset, epilogue(), r),
    {
        self.emit_return(memory, offset)
    }
}

} // verus!
