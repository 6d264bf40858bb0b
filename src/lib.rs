pub mod brackets;
pub mod codegen;
pub mod error;
pub mod interpreter;
pub mod opcode;
pub mod runner;
