//! A small stack machine: bytecode text is split into tokens, assembled into
//! a program with a label table, and run against an operand stack and a
//! table of named variables.

pub mod fault;
pub mod identifier;
pub mod instruction;
pub mod laws;
pub mod machine;
pub mod number;
pub mod program;
pub mod text;
