//! The reference interpreter: a stack machine that runs a program directly
//! and defines what every instruction means.

use crate::bytecode::{Instruction, Program};
use vstd::arithmetic::div_mod::{lemma_div_decreases, lemma_div_nonincreasing, lemma_div_pos_is_pos};
use vstd::prelude::*;

verus! {

/// Why a run was given up.
#[derive(Debug, Clone, Copy, PartialEq, Eq, Structural)]
pub enum InterpreterError {
    /// An instruction needed more operands than the stack holds.
    StackUnderflow,
    /// A load or store named a cell outside the memory array.
    InvalidMemoryAccess(usize),
    /// A taken jump named an index outside the program.
    InvalidJumpTarget(usize),
    /// The divisor of a division was zero.
    DivisionByZero,
    /// The program was still running after `u64::MAX` instructions.
    StepLimitExceeded,
}

/// The number of memory cells that every interpreter has at least.
pub const MIN_MEMORY_CELLS: usize = 1024;

/// The state of the machine between two instructions.
pub ghost struct Machine {
    /// The operand stack, top last.
    pub stack: Seq<i64>,
    /// The memory cells.
    pub memory: Seq<i64>,
    /// The index of the next instruction.
    pub pc: nat,
}

/// Where a machine stands after some instructions.
pub ghost enum Outcome {
    /// The machine can go on from this state.
    Running(Machine),
    /// The run ended with this value.
    Halted(i64),
    /// The run failed.
    Faulted(InterpreterError),
}

/// The 64-bit signed integer that is congruent to `x` modulo 2^64.
pub open spec fn wrap(x: int) -> i64 {
    let r = x % 0x1_0000_0000_0000_0000;
    if r > i64::MAX {
        (r - 0x1_0000_0000_0000_0000) as i64
    } else {
        r as i64
    }
}

/// The quotient of `a` by `b`, rounded towards zero.
pub open spec fn trunc_div(a: int, b: int) -> int
    recommends
        b != 0,
{
    if a >= 0 && b > 0 {
        a / b
    } else if a >= 0 {
        -(a / (-b))
    } else if b > 0 {
        -((-a) / b)
    } else {
        (-a) / (-b)
    }
}

/// The value that a run ends with: the top of the stack, or 0 on an empty stack.
pub open spec fn top_or_zero(stack: Seq<i64>) -> i64 {
    if stack.len() == 0 {
        0
    } else {
        stack.last()
    }
}

/// Whether `instruction` takes two operands and leaves one result.
pub open spec fn is_binary(instruction: Instruction) -> bool {
    instruction is Add || instruction is Sub || instruction is Mul || instruction is Div
        || instruction is Eq || instruction is Lt || instruction is Gt
}

/// The result of a binary operation on `a` (pushed first) and `b` (pushed
/// last). Sums, differences, products and quotients wrap to 64 bits.
pub open spec fn binary_result(instruction: Instruction, a: i64, b: i64) -> i64
    recommends
        is_binary(instruction),
        instruction is Div ==> b != 0,
{
    match instruction {
        Instruction::Add => wrap(a + b),
        Instruction::Sub => wrap(a - b),
        Instruction::Mul => wrap(a * b),
        Instruction::Div => wrap(trunc_div(a as int, b as int)),
        Instruction::Eq => if a == b { 1 } else { 0 },
        Instruction::Lt => if a < b { 1 } else { 0 },
        _ => if a > b { 1 } else { 0 },
    }
}

/// The machine after a conditional jump to `target` that pops its condition.
pub open spec fn branch(code: Seq<Instruction>, m: Machine, taken: bool, target: usize) -> Outcome {
    if m.stack.len() == 0 {
        Outcome::Faulted(InterpreterError::StackUnderflow)
    } else if !taken {
        Outcome::Running(Machine { stack: m.stack.drop_last(), pc: m.pc + 1, ..m })
    } else if target >= code.len() {
        Outcome::Faulted(InterpreterError::InvalidJumpTarget(target))
    } else {
        Outcome::Running(Machine { stack: m.stack.drop_last(), pc: target as nat, ..m })
    }
}

/// One instruction: the effect of `code[m.pc]` on `m`. A machine whose
/// program counter is past the last instruction halts. A binary operation
/// takes the top of the stack as its right operand and the value below as
/// its left. A register push always fails, for the machine has no
/// registers, and a native call does nothing: natives run in compiled code
/// only.
pub open spec fn step(code: Seq<Instruction>, m: Machine) -> Outcome {
    if m.pc >= code.len() {
        Outcome::Halted(top_or_zero(m.stack))
    } else {
        let instruction = code[m.pc as int];
        let depth = m.stack.len();
        match instruction {
            Instruction::PushInt(value) => Outcome::Running(
                Machine { stack: m.stack.push(value), pc: m.pc + 1, ..m },
            ),
            Instruction::PushReg(_) => Outcome::Faulted(InterpreterError::StackUnderflow),
            Instruction::Pop => if depth == 0 {
                Outcome::Faulted(InterpreterError::StackUnderflow)
            } else {
                Outcome::Running(Machine { stack: m.stack.drop_last(), pc: m.pc + 1, ..m })
            },
            Instruction::Jump(target) => if target >= code.len() {
                Outcome::Faulted(InterpreterError::InvalidJumpTarget(target))
            } else {
                Outcome::Running(Machine { pc: target as nat, ..m })
            },
            Instruction::JumpIfZero(target) => branch(
                code,
                m,
                depth > 0 && m.stack.last() == 0,
                target,
            ),
            Instruction::JumpIfNotZero(target) => branch(
                code,
                m,
                depth > 0 && m.stack.last() != 0,
                target,
            ),
            Instruction::Load(offset) => if offset >= m.memory.len() {
                Outcome::Faulted(InterpreterError::InvalidMemoryAccess(offset))
            } else {
                Outcome::Running(
                    Machine { stack: m.stack.push(m.memory[offset as int]), pc: m.pc + 1, ..m },
                )
            },
            Instruction::Store(offset) => if offset >= m.memory.len() {
                Outcome::Faulted(InterpreterError::InvalidMemoryAccess(offset))
            } else if depth == 0 {
                Outcome::Faulted(InterpreterError::StackUnderflow)
            } else {
                Outcome::Running(
                    Machine {
                        stack: m.stack.drop_last(),
                        memory: m.memory.update(offset as int, m.stack.last()),
                        pc: m.pc + 1,
                    },
                )
            },
            Instruction::CallNative(_) => Outcome::Running(Machine { pc: m.pc + 1, ..m }),
            Instruction::Return => Outcome::Halted(top_or_zero(m.stack)),
            Instruction::Halt => Outcome::Halted(top_or_zero(m.stack)),
            _ => if depth < 2 {
                Outcome::Faulted(InterpreterError::StackUnderflow)
            } else {
                let b = m.stack[depth - 1];
                let a = m.stack[depth - 2];
                if instruction is Div && b == 0 {
                    Outcome::Faulted(InterpreterError::DivisionByZero)
                } else {
                    Outcome::Running(
                        Machine {
                            stack: m.stack.drop_last().drop_last().push(
                                binary_result(instruction, a, b),
                            ),
                            pc: m.pc + 1,
                            ..m
                        },
                    )
                }
            },
        }
    }
}

/// Where `m` stands after at most `limit` instructions: the end of the run
/// if it comes within them, else the state reached.
pub open spec fn run(code: Seq<Instruction>, m: Machine, limit: nat) -> Outcome
    decreases limit,
{
    if limit == 0 {
        Outcome::Running(m)
    } else {
        match step(code, m) {
            Outcome::Running(next) => run(code, next, (limit - 1) as nat),
            ended => ended,
        }
    }
}

/// The state in which `m` stands after at most `limit` instructions: the
/// state reached, or the state in which the run ended. The instruction that
/// ends a run leaves the machine as it found it.
pub open spec fn state_after(code: Seq<Instruction>, m: Machine, limit: nat) -> Machine
    decreases limit,
{
    if limit == 0 {
        m
    } else {
        match step(code, m) {
            Outcome::Running(next) => state_after(code, next, (limit - 1) as nat),
            _ => m,
        }
    }
}

/// The state in which every run of `program` starts: an empty stack, zeroed
/// memory of the declared size or `MIN_MEMORY_CELLS`, whichever is larger, and
/// the program counter at the first instruction.
pub open spec fn initial(memory_size: usize) -> Machine {
    Machine {
        stack: Seq::empty(),
        memory: Seq::new(
            if memory_size > MIN_MEMORY_CELLS {
                memory_size as nat
            } else {
                MIN_MEMORY_CELLS as nat
            },
            |i: int| 0i64,
        ),
        pc: 0,
    }
}

/// What a caller is told of an outcome: the value of a run that ended, the
/// fault of one that failed, and `StepLimitExceeded` for one still running.
pub open spec fn report(outcome: Outcome) -> Result<i64, InterpreterError> {
    match outcome {
        Outcome::Running(_) => Err(InterpreterError::StepLimitExceeded),
        Outcome::Halted(value) => Ok(value),
        Outcome::Faulted(fault) => Err(fault),
    }
}

/// No instruction faults with `StepLimitExceeded`: a caller is told so only
/// of a run that the budget ended.
pub proof fn lemma_step_limit_only_from_budget(code: Seq<Instruction>, m: Machine, limit: nat)
    ensures
        run(code, m, limit) != Outcome::Faulted(InterpreterError::StepLimitExceeded),
        report(run(code, m, limit)) == Err::<i64, InterpreterError>(
            InterpreterError::StepLimitExceeded,
        ) <==> run(code, m, limit) is Running,
    decreases limit,
{
    if limit > 0 {
        match step(code, m) {
            Outcome::Running(next) => {
                lemma_step_limit_only_from_budget(code, next, (limit - 1) as nat);
            },
            _ => {},
        }
    }
}

/// A run that has ended within some budget ends in the same way within
/// every larger one.
pub proof fn lemma_run_is_stable(code: Seq<Instruction>, m: Machine, limit: nat, more: nat)
    requires
        !(run(code, m, limit) is Running),
        limit <= more,
    ensures
        run(code, m, more) == run(code, m, limit),
    decreases limit,
{
    if limit > 0 {
        match step(code, m) {
            Outcome::Running(next) => {
                lemma_run_is_stable(code, next, (limit - 1) as nat, (more - 1) as nat);
            },
            _ => {},
        }
    }
}

/// The quotient of `p` by `q` lies between 0 and `p`, and below `p` where
/// `q` is at least 2 and `p` is positive.
proof fn lemma_quotient_bounds(p: int, q: int)
    requires
        p >= 0,
        q >= 1,
    ensures
        0 <= p / q <= p,
        q >= 2 && p >= 1 ==> p / q < p,
{
    lemma_div_pos_is_pos(p, q);
    lemma_div_nonincreasing(p, q);
    if q >= 2 && p >= 1 {
        lemma_div_decreases(p, q);
    }
}

/// The quotient of `a` by `b`, rounded towards zero. The one quotient that
/// does not fit, that of `i64::MIN` by -1, wraps to `i64::MIN`.
fn wrapping_quotient(a: i64, b: i64) -> (r: i64)
    requires
        b != 0,
    ensures
        r == wrap(trunc_div(a as int, b as int)),
{
    proof {
        let x = a as int;
        let d = b as int;
        if x >= 0 && d > 0 {
            lemma_quotient_bounds(x, d);
        } else if x >= 0 {
            lemma_quotient_bounds(x, -d);
        } else if d > 0 {
            lemma_quotient_bounds(-x, d);
        } else {
            lemma_quotient_bounds(-x, -d);
            if d == -1 {
                assert((-x) / 1 == -x);
            }
        }
        assert(x * -1 == -x);
        assert(d * -1 == -d);
    }
    match a.checked_div(b) {
        Some(quotient) => quotient,
        None => i64::MIN,
    }
}

/// Applies a binary operation to its left operand `a` and its right operand `b`.
fn apply_binary(instruction: Instruction, a: i64, b: i64) -> (r: i64)
    requires
        is_binary(instruction),
        instruction is Div ==> b != 0,
    ensures
        r == binary_result(instruction, a, b),
{
    match instruction {
        Instruction::Add => a.wrapping_add(b),
        Instruction::Sub => a.wrapping_sub(b),
        Instruction::Mul => a.wrapping_mul(b),
        Instruction::Div => wrapping_quotient(a, b),
        Instruction::Eq => if a == b { 1 } else { 0 },
        Instruction::Lt => if a < b { 1 } else { 0 },
        _ => if a > b { 1 } else { 0 },
    }
}

/// A stack machine that owns one program and the state of one run of it.
pub struct Interpreter {
    stack: Vec<i64>,
    memory: Vec<i64>,
    pc: usize,
    program: Program,
}

impl View for Interpreter {
    type V = Machine;

    closed spec fn view(&self) -> Machine {
        Machine { stack: self.stack@, memory: self.memory@, pc: self.pc as nat }
    }
}

impl Interpreter {
    /// The instructions that this interpreter runs.
    pub closed spec fn code(&self) -> Seq<Instruction> {
        self.program.instructions@
    }

    /// An interpreter at the start of a run of `program`.
    pub fn new(program: Program) -> (r: Self)
        ensures
            r@ == initial(program.memory_size),
            r.code() == program.instructions@,
    {
        let memory_size = if program.memory_size > MIN_MEMORY_CELLS {
            program.memory_size
        } else {
            MIN_MEMORY_CELLS
        };
        let r = Self { stack: Vec::new(), memory: vec![0i64; memory_size], pc: 0, program };
        assert(r@.memory =~= initial(program.memory_size).memory);
        r
    }

    /// Executes the instruction at the program counter. Returns `None` where
    /// the machine can go on, and the result of the run where it has ended.
    pub fn step(&mut self) -> (r: Option<Result<i64, InterpreterError>>)
        ensures
            final(self).code() == old(self).code(),
            match r {
                None => step(old(self).code(), old(self)@) == Outcome::Running(final(self)@),
                Some(Ok(value)) => step(old(self).code(), old(self)@) == Outcome::Halted(value),
                Some(Err(fault)) => step(old(self).code(), old(self)@) == Outcome::Faulted(fault),
            },
            r is Some ==> final(self)@ == old(self)@,
    {
        let count = self.program.instructions.len();
        if self.pc >= count {
            return Some(Ok(self.top_or_zero()));
        }
        let instruction = self.program.instructions[self.pc];
        match instruction {
            Instruction::PushInt(value) => {
                self.stack.push(value);
                self.pc = self.pc + 1;
                None
            },
            Instruction::PushReg(_) => Some(Err(InterpreterError::StackUnderflow)),
            Instruction::Pop => {
                match self.stack.pop() {
                    Some(_) => {
                        self.pc = self.pc + 1;
                        None
                    },
                    None => Some(Err(InterpreterError::StackUnderflow)),
                }
            },
            Instruction::Jump(target) => {
                if target >= count {
                    Some(Err(InterpreterError::InvalidJumpTarget(target)))
                } else {
                    self.pc = target;
                    None
                }
            },
            Instruction::JumpIfZero(target) => self.jump_if(true, target),
            Instruction::JumpIfNotZero(target) => self.jump_if(false, target),
            Instruction::Load(offset) => {
                if offset >= self.memory.len() {
                    Some(Err(InterpreterError::InvalidMemoryAccess(offset)))
                } else {
                    self.stack.push(self.memory[offset]);
                    self.pc = self.pc + 1;
                    None
                }
            },
            Instruction::Store(offset) => {
                if offset >= self.memory.len() {
                    Some(Err(InterpreterError::InvalidMemoryAccess(offset)))
                } else {
                    match self.stack.pop() {
                        Some(value) => {
                            self.memory.set(offset, value);
                            self.pc = self.pc + 1;
                            None
                        },
                        None => {
                            assert(self.stack@ =~= old(self).stack@);
                            Some(Err(InterpreterError::StackUnderflow))
                        },
                    }
                }
            },
            Instruction::CallNative(_) => {
                self.pc = self.pc + 1;
                None
            },
            Instruction::Return => Some(Ok(self.top_or_zero())),
            Instruction::Halt => Some(Ok(self.top_or_zero())),
            _ => {
                if self.stack.len() < 2 {
                    return Some(Err(InterpreterError::StackUnderflow));
                }
                let b = self.stack[self.stack.len() - 1];
                let a = self.stack[self.stack.len() - 2];
                if b == 0 && matches!(instruction, Instruction::Div) {
                    return Some(Err(InterpreterError::DivisionByZero));
                }
                self.stack.pop();
                self.stack.pop();
                self.stack.push(apply_binary(instruction, a, b));
                self.pc = self.pc + 1;
                None
            },
        }
    }

    /// Executes at most `limit` instructions. Returns the result of the run
    /// if it ended within them, and `None` where the machine can still go on.
    pub fn run_for(&mut self, limit: u64) -> (r: Option<Result<i64, InterpreterError>>)
        ensures
            final(self).code() == old(self).code(),
            match r {
                None => run(old(self).code(), old(self)@, limit as nat) == Outcome::Running(
                    final(self)@,
                ),
                Some(Ok(value)) => run(old(self).code(), old(self)@, limit as nat)
                    == Outcome::Halted(value),
                Some(Err(fault)) => run(old(self).code(), old(self)@, limit as nat)
                    == Outcome::Faulted(fault),
            },
            final(self)@ == state_after(old(self).code(), old(self)@, limit as nat),
    {
        let mut left: u64 = limit;
        while left > 0
            invariant
                self.code() == old(self).code(),
                run(old(self).code(), old(self)@, limit as nat) == run(
                    self.code(),
                    self@,
                    left as nat,
                ),
                state_after(old(self).code(), old(self)@, limit as nat) == state_after(
                    self.code(),
                    self@,
                    left as nat,
                ),
            decreases left,
        {
            match self.step() {
                Some(result) => {
                    return Some(result);
                },
                None => {
                    left = left - 1;
                },
            }
        }
        None
    }

    /// Runs the program to its end and returns its value or its fault. A
    /// program that is still running after `u64::MAX` instructions is given
    /// up with `StepLimitExceeded`.
    pub fn execute(&mut self) -> (r: Result<i64, InterpreterError>)
        ensures
            final(self).code() == old(self).code(),
            r == report(run(old(self).code(), old(self)@, u64::MAX as nat)),
            final(self)@ == state_after(old(self).code(), old(self)@, u64::MAX as nat),
    {
        match self.run_for(u64::MAX) {
            Some(result) => result,
            None => Err(InterpreterError::StepLimitExceeded),
        }
    }

    /// The top of the stack, or 0 where the stack is empty.
    fn top_or_zero(&self) -> (r: i64)
        ensures
            r == top_or_zero(self@.stack),
    {
        if self.stack.len() == 0 {
            0
        } else {
            self.stack[self.stack.len() - 1]
        }
    }

    /// Executes a conditional jump that is taken on a zero where `on_zero`
    /// holds, and on any other value where it does not.
    fn jump_if(&mut self, on_zero: bool, target: usize) -> (r: Option<
        Result<i64, InterpreterError>,
    >)
        requires
            old(self).pc < old(self).program.instructions.len(),
        ensures
            final(self).program == old(self).program,
            match r {
                None => branch(
                    old(self).code(),
                    old(self)@,
                    old(self)@.stack.len() > 0 && (old(self)@.stack.last() == 0) == on_zero,
                    target,
                ) == Outcome::Running(final(self)@),
                Some(result) => final(self)@ == old(self)@ && result is Err && branch(
                    old(self).code(),
                    old(self)@,
                    old(self)@.stack.len() > 0 && (old(self)@.stack.last() == 0) == on_zero,
                    target,
                ) == Outcome::Faulted(result->Err_0),
            },
    {
        if self.stack.len() == 0 {
            return Some(Err(InterpreterError::StackUnderflow));
        }
        let taken = (self.stack[self.stack.len() - 1] == 0) == on_zero;
        if taken && target >= self.program.instructions.len() {
            return Some(Err(InterpreterError::InvalidJumpTarget(target)));
        }
        self.stack.pop();
        self.pc = if taken {
            target
        } else {
            self.pc + 1
        };
        None
    }
}

} // verus!
