//! Validated instructions of the virtual-machine language.
use vstd::prelude::*;
use crate::memory_segments::Segment;

verus! {

/// The zero-operand arithmetic, logical and comparison operations.
#[derive(Clone, Copy, Debug, PartialEq, Eq, Structural)]
pub enum Op {
    Add,
    Sub,
    Neg,
    Eq,
    Lt,
    Gt,
    And,
    Or,
    Not,
}

/// One instruction of the virtual machine, as the validator hands it on.
#[derive(Debug)]
pub enum Instruction {
    Push { segment: Segment, offset: String },
    Pop { segment: Segment, offset: String },
    Arithmetic(Op),
    Label(String),
    Goto(String),
    IfGoto(String),
    Call { function: String, n_args: String },
    Function { name: String, n_vars: String },
    Return,
}

/// The mathematical form of [`Instruction`].
pub ghost enum InstructionV {
    Push(Segment, Seq<char>),
    Pop(Segment, Seq<char>),
    Arithmetic(Op),
    Label(Seq<char>),
    Goto(Seq<char>),
    IfGoto(Seq<char>),
    Call(Seq<char>, Seq<char>),
    Function(Seq<char>, Seq<char>),
    Return,
}

impl View for Instruction {
    type V = InstructionV;

    open spec fn view(&self) -> InstructionV {
        match self {
            Instruction::Push { segment, offset } => InstructionV::Push(*segment, offset@),
            Instruction::Pop { segment, offset } => InstructionV::Pop(*segment, offset@),
            Instruction::Arithmetic(op) => InstructionV::Arithmetic(*op),
            Instruction::Label(l) => InstructionV::Label(l@),
            Instruction::Goto(l) => InstructionV::Goto(l@),
            Instruction::IfGoto(l) => InstructionV::IfGoto(l@),
            Instruction::Call { function, n_args } => InstructionV::Call(function@, n_args@),
            Instruction::Function { name, n_vars } => InstructionV::Function(name@, n_vars@),
            Instruction::Return => InstructionV::Return,
        }
    }
}

/// Operations that consume one stack value and leave one.
pub open spec fn is_unary(op: Op) -> bool {
    op == Op::Neg || op == Op::Not
}

/// Operations that leave a truth value.
pub open spec fn is_comparison(op: Op) -> bool {
    op == Op::Eq || op == Op::Lt || op == Op::Gt
}

} // verus!
