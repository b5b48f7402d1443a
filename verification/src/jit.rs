//! Ahead-of-time compilation of a validated program to x86-64 machine code.

pub mod codegen;
pub mod encoding;
pub mod layout;
pub mod memory;

pub use codegen::{CompileError, EmissionError, JitCompiler};
pub use memory::{ExecutableMemory, FinalizedCode, MemoryError};
