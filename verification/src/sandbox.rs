//! The static validator: every jump target, memory offset and native call of
//! a program is checked against policy before any code is generated.

use crate::bytecode::{Instruction, Program};
use vstd::prelude::*;

verus! {

/// Why a program was refused, with the index of the offending instruction.
#[derive(Debug, Clone, Copy, PartialEq, Eq, Structural)]
pub enum ValidationError {
    /// A jump names a target that is no instruction of the program.
    OutOfBoundsJump { index: usize, target: usize },
    /// A load or store names a cell beyond the declared memory size.
    OutOfBoundsMemoryAccess { index: usize, offset: usize, memory_size: usize },
    /// A native call names a function that is not on the whitelist.
    DisallowedNativeCall { index: usize, id: u32 },
}

impl ValidationError {
    /// The index of the instruction that the error is about.
    pub open spec fn at(self) -> usize {
        match self {
            ValidationError::OutOfBoundsJump { index, .. } => index,
            ValidationError::OutOfBoundsMemoryAccess { index, .. } => index,
            ValidationError::DisallowedNativeCall { index, .. } => index,
        }
    }

    /// The index of the instruction that the error is about.
    pub fn index(&self) -> (r: usize)
        ensures
            r == self.at(),
    {
        match self {
            ValidationError::OutOfBoundsJump { index, .. } => *index,
            ValidationError::OutOfBoundsMemoryAccess { index, .. } => *index,
            ValidationError::DisallowedNativeCall { index, .. } => *index,
        }
    }
}

/// The native functions that every sandbox allows from the start.
pub open spec fn default_natives() -> Set<u32> {
    set![1u32, 2u32]
}

/// What is wrong with `instruction`, standing at `index` in a program of
/// `count` instructions and `memory_size` cells, under the whitelist `allowed`.
pub open spec fn violation(
    instruction: Instruction,
    index: usize,
    count: nat,
    memory_size: usize,
    allowed: Set<u32>,
) -> Option<ValidationError> {
    match instruction {
        Instruction::Jump(target)
        | Instruction::JumpIfZero(target)
        | Instruction::JumpIfNotZero(target) => if target >= count {
            Some(ValidationError::OutOfBoundsJump { index, target })
        } else {
            None
        },
        Instruction::Load(offset) | Instruction::Store(offset) => if offset >= memory_size {
            Some(ValidationError::OutOfBoundsMemoryAccess { index, offset, memory_size })
        } else {
            None
        },
        Instruction::CallNative(id) => if !allowed.contains(id) {
            Some(ValidationError::DisallowedNativeCall { index, id })
        } else {
            None
        },
        _ => None,
    }
}

/// What is wrong with the instruction at `index` of `code`.
pub open spec fn violation_at(
    code: Seq<Instruction>,
    memory_size: usize,
    allowed: Set<u32>,
    index: int,
) -> Option<ValidationError>
    recommends
        0 <= index < code.len(),
{
    violation(code[index], index as usize, code.len(), memory_size, allowed)
}

/// Whether no instruction of `code` breaks policy.
pub open spec fn accepts(code: Seq<Instruction>, memory_size: usize, allowed: Set<u32>) -> bool {
    forall|i: int| 0 <= i < code.len() ==> violation_at(code, memory_size, allowed, i) is None
}

/// The violation of the first offending instruction at or after `from`.
pub open spec fn first_violation(
    code: Seq<Instruction>,
    memory_size: usize,
    allowed: Set<u32>,
    from: int,
) -> Option<ValidationError>
    decreases code.len() - from,
{
    if from < 0 || from >= code.len() {
        None
    } else if violation_at(code, memory_size, allowed, from) is Some {
        violation_at(code, memory_size, allowed, from)
    } else {
        first_violation(code, memory_size, allowed, from + 1)
    }
}

/// The verdict on a program: `Ok` where nothing is wrong, else the violation
/// of its first offending instruction.
pub open spec fn verdict(code: Seq<Instruction>, memory_size: usize, allowed: Set<u32>) -> Result<
    (),
    ValidationError,
> {
    match first_violation(code, memory_size, allowed, 0) {
        Some(error) => Err(error),
        None => Ok(()),
    }
}

/// From `from` on, nothing is reported exactly when no instruction offends;
/// what is reported is the violation of an instruction before which, from
/// `from` on, none offends.
pub proof fn lemma_first_violation(
    code: Seq<Instruction>,
    memory_size: usize,
    allowed: Set<u32>,
    from: int,
)
    requires
        0 <= from <= code.len(),
        code.len() <= usize::MAX,
    ensures
        match first_violation(code, memory_size, allowed, from) {
            None => forall|i: int|
                from <= i < code.len() ==> violation_at(code, memory_size, allowed, i) is None,
            Some(error) => {
                &&& from <= error.at() < code.len()
                &&& violation_at(code, memory_size, allowed, error.at() as int) == Some(error)
                &&& forall|i: int|
                    from <= i < error.at() ==> violation_at(code, memory_size, allowed, i) is None
            },
        },
    decreases code.len() - from,
{
    if from < code.len() && violation_at(code, memory_size, allowed, from) is None {
        lemma_first_violation(code, memory_size, allowed, from + 1);
    }
}

/// The verdict is `Ok` exactly on the programs that `accepts` describes.
pub proof fn lemma_verdict_accepts(code: Seq<Instruction>, memory_size: usize, allowed: Set<u32>)
    requires
        code.len() <= usize::MAX,
    ensures
        verdict(code, memory_size, allowed) is Ok <==> accepts(code, memory_size, allowed),
{
    lemma_first_violation(code, memory_size, allowed, 0);
}

/// A program held for analysis, with the whitelist of native functions that
/// it may call.
pub struct Sandbox {
    program: Program,
    allowed_natives: Vec<u32>,
}

impl Sandbox {
    /// The instructions under analysis.
    pub closed spec fn code(&self) -> Seq<Instruction> {
        self.program.instructions@
    }

    /// The declared memory size of the program under analysis.
    pub closed spec fn memory_size(&self) -> usize {
        self.program.memory_size
    }

    /// The identifiers on the whitelist.
    pub closed spec fn allowed(&self) -> Set<u32> {
        self.allowed_natives@.to_set()
    }

    /// A sandbox over a copy of `program`, with the default whitelist.
    pub fn new(program: &Program) -> (r: Self)
        ensures
            r.code() == program.instructions@,
            r.memory_size() == program.memory_size,
            r.allowed() == default_natives(),
    {
        let mut allowed_natives: Vec<u32> = Vec::new();
        allowed_natives.push(0x01);
        allowed_natives.push(0x02);
        assert(allowed_natives@.to_set() =~= default_natives()) by {
            assert(allowed_natives@[0] == 1u32);
            assert(allowed_natives@[1] == 2u32);
        }
        Self { program: program.clone(), allowed_natives }
    }

    /// The program under analysis.
    pub fn program(&self) -> (r: &Program)
        ensures
            r.instructions@ == self.code(),
            r.memory_size == self.memory_size(),
    {
        &self.program
    }

    /// Checks every instruction, in order, and reports the first violation.
    pub fn validate(&self) -> (r: Result<(), ValidationError>)
        ensures
            r == verdict(self.code(), self.memory_size(), self.allowed()),
    {
        let count = self.program.instructions.len();
        let memory_size = self.program.memory_size;
        let mut index: usize = 0;
        while index < count
            invariant
                index <= count,
                count == self.program.instructions.len(),
                memory_size == self.program.memory_size,
                first_violation(self.code(), self.memory_size(), self.allowed(), 0)
                    == first_violation(
                    self.code(),
                    self.memory_size(),
                    self.allowed(),
                    index as int,
                ),
            decreases count - index,
        {
            match self.program.instructions[index] {
                Instruction::Jump(target)
                | Instruction::JumpIfZero(target)
                | Instruction::JumpIfNotZero(target) => {
                    if target >= count {
                        return Err(ValidationError::OutOfBoundsJump { index, target });
                    }
                },
                Instruction::Load(offset) | Instruction::Store(offset) => {
                    if offset >= memory_size {
                        return Err(
                            ValidationError::OutOfBoundsMemoryAccess { index, offset, memory_size },
                        );
                    }
                },
                Instruction::CallNative(id) => {
                    if !self.is_native_allowed(id) {
                        return Err(ValidationError::DisallowedNativeCall { index, id });
                    }
                },
                _ => {},
            }
            index = index + 1;
        }
        Ok(())
    }

    /// Whether the native function `id` is on the whitelist.
    pub fn is_native_allowed(&self, id: u32) -> (r: bool)
        ensures
            r == self.allowed().contains(id),
    {
        let mut i: usize = 0;
        while i < self.allowed_natives.len()
            invariant
                i <= self.allowed_natives.len(),
                forall|k: int| 0 <= k < i ==> self.allowed_natives@[k] != id,
            decreases self.allowed_natives.len() - i,
        {
            if self.allowed_natives[i] == id {
                return true;
            }
            i = i + 1;
        }
        false
    }

    /// Puts the native function `id` on the whitelist.
    pub fn allow_native(&mut self, id: u32)
        ensures
            final(self).allowed() == old(self).allowed().insert(id),
            final(self).code() == old(self).code(),
            final(self).memory_size() == old(self).memory_size(),
    {
        if !self.is_native_allowed(id) {
            self.allowed_natives.push(id);
            assert(self.allowed_natives@.to_set() =~= old(self).allowed_natives@.to_set().insert(
                id,
            )) by {
                let before = old(self).allowed_natives@;
                let after = self.allowed_natives@;
                assert(after == before.push(id));
                assert forall|x: u32| after.contains(x) <==> (before.contains(x) || x == id) by {
                    if before.contains(x) {
                        let k = choose|k: int| 0 <= k < before.len() && before[k] == x;
                        assert(after[k] == x);
                    }
                    if x == id {
                        assert(after[before.len() as int] == x);
                    }
                }
            }
        } else {
            assert(old(self).allowed().insert(id) =~= old(self).allowed());
        }
    }
}

} // verus!
