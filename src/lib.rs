//! A small interpreter for an eight-instruction tape machine: source text is
//! read into opcodes, loop brackets are paired in a jump table, and a
//! step-wise engine runs the program over a circular byte tape.

pub mod opcodes;
pub mod loader;
pub mod jumps;
pub mod interpreter;
