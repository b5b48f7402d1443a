//! What validation buys: a program that the sandbox accepts never leaves its
//! own bounds when the interpreter runs it.

use crate::bytecode::Instruction;
use crate::interpreter::{initial, run, step, InterpreterError, Machine, Outcome};
use crate::sandbox::{accepts, lemma_verdict_accepts, verdict, violation_at};
use vstd::prelude::*;

verus! {

/// Whether `outcome` is a fault that the validator exists to rule out: a jump
/// out of the program or an access out of memory.
pub open spec fn is_bounds_fault(outcome: Outcome) -> bool {
    outcome matches Outcome::Faulted(fault) && (fault is InvalidJumpTarget
        || fault is InvalidMemoryAccess)
}

/// One instruction of an accepted program, on a machine with at least the
/// declared memory, is no bounds fault and keeps the size of the memory.
pub proof fn lemma_step_within_bounds(
    code: Seq<Instruction>,
    memory_size: usize,
    allowed: Set<u32>,
    m: Machine,
)
    requires
        accepts(code, memory_size, allowed),
        m.memory.len() >= memory_size,
    ensures
        !is_bounds_fault(step(code, m)),
        step(code, m) matches Outcome::Running(next) ==> next.memory.len() == m.memory.len(),
{
    if m.pc < code.len() {
        assert(violation_at(code, memory_size, allowed, m.pc as int) is None);
    }
}

/// No run of an accepted program, from a machine with at least the declared
/// memory, ends in a bounds fault, however many instructions it is given.
pub proof fn lemma_run_within_bounds(
    code: Seq<Instruction>,
    memory_size: usize,
    allowed: Set<u32>,
    m: Machine,
    limit: nat,
)
    requires
        accepts(code, memory_size, allowed),
        m.memory.len() >= memory_size,
    ensures
        !is_bounds_fault(run(code, m, limit)),
    decreases limit,
{
    if limit > 0 {
        lemma_step_within_bounds(code, memory_size, allowed, m);
        match step(code, m) {
            Outcome::Running(next) => {
                lemma_run_within_bounds(code, memory_size, allowed, next, (limit - 1) as nat);
            },
            _ => {},
        }
    }
}

/// Validator soundness: a program on which validation passes never faults
/// with `InvalidJumpTarget` or `InvalidMemoryAccess` when it is interpreted
/// from its initial state, whatever the whitelist and however long it runs.
pub proof fn lemma_validated_program_stays_in_bounds(
    code: Seq<Instruction>,
    memory_size: usize,
    allowed: Set<u32>,
    limit: nat,
)
    requires
        code.len() <= usize::MAX,
        verdict(code, memory_size, allowed) is Ok,
    ensures
        !(run(code, initial(memory_size), limit) matches Outcome::Faulted(
            InterpreterError::InvalidJumpTarget(_),
        )),
        !(run(code, initial(memory_size), limit) matches Outcome::Faulted(
            InterpreterError::InvalidMemoryAccess(_),
        )),
{
    lemma_verdict_accepts(code, memory_size, allowed);
    lemma_run_within_bounds(code, memory_size, allowed, initial(memory_size), limit);
}

} // verus!
