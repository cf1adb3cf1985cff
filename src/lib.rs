//! Code generator from a stack-based virtual machine language to the
//! instructions of a small accumulator machine (one data register `D`, one
//! address register `A`, word-addressed memory `M`).

pub mod behaviour;
pub mod count;
pub mod hack;
pub mod instruction;
pub mod laws;
pub mod lexer;
pub mod machine;
pub mod memory_segments;
pub mod parser;
pub mod std_types;
pub mod writer;
