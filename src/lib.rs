//! Execution core of a small scripting language: a scanner that turns source
//! text into tokens, a bytecode chunk with its constant pool, and a stack
//! machine that executes chunks.

pub mod chunk;
pub mod compiler;
pub mod scanner;
pub mod value;
pub mod vm;
