//! A small stack-machine execution engine: a bytecode model, a reference
//! interpreter, a static validator and an x86-64 code generator.

pub mod bytecode;
pub mod interpreter;
pub mod jit;
pub mod parser;
pub mod sandbox;
pub mod soundness;
