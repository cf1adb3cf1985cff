//! The validator: reads one source line into an instruction.
use vstd::prelude::*;
use crate::instruction::{Instruction, InstructionV, Op};
use crate::lexer::{code_words, tokens, views};
use crate::memory_segments::{Segment, same_text, segment_from_name, segment_named};

verus! {

/// Failures of the validator.
#[derive(Debug)]
pub enum Error {
    /// The source could not be read.
    Io(std::io::Error),
    UnknownInstruction { instruction: String },
    UnknownMemorySegement { memory_segment: String },
    /// Wrong operands; `expected` shows the shape that was expected.
    WrongSyntax { expected: String },
}

/// What the validator makes of a line.
pub ghost enum Parsed {
    /// Blank, or only a comment.
    Blank,
    Instruction(InstructionV),
    UnknownInstruction(Seq<char>),
    UnknownMemorySegment(Seq<char>),
    WrongSyntax(Seq<char>),
    Io,
}

pub open spec fn parsed(r: Result<Option<Instruction>, Error>) -> Parsed {
    match r {
        Ok(None) => Parsed::Blank,
        Ok(Some(i)) => Parsed::Instruction(i@),
        Err(Error::UnknownInstruction { instruction }) => Parsed::UnknownInstruction(instruction@),
        Err(Error::UnknownMemorySegement { memory_segment }) => Parsed::UnknownMemorySegment(
            memory_segment@,
        ),
        Err(Error::WrongSyntax { expected }) => Parsed::WrongSyntax(expected@),
        Err(Error::Io(_)) => Parsed::Io,
    }
}

/// The operation that a word names, if it names one.
pub open spec fn op_named(w: Seq<char>) -> Option<Op> {
    if w == "add"@ {
        Some(Op::Add)
    } else if w == "sub"@ {
        Some(Op::Sub)
    } else if w == "neg"@ {
        Some(Op::Neg)
    } else if w == "eq"@ {
        Some(Op::Eq)
    } else if w == "lt"@ {
        Some(Op::Lt)
    } else if w == "gt"@ {
        Some(Op::Gt)
    } else if w == "and"@ {
        Some(Op::And)
    } else if w == "or"@ {
        Some(Op::Or)
    } else if w == "not"@ {
        Some(Op::Not)
    } else {
        None
    }
}

pub open spec fn is_jump_word(w: Seq<char>) -> bool {
    w == "label"@ || w == "goto"@ || w == "if-goto"@
}

/// What the validator makes of the words of a line, comment left out.
pub open spec fn parse_words(ws: Seq<Seq<char>>) -> Parsed {
    if ws.len() == 0 {
        Parsed::Blank
    } else {
        let op = ws[0];
        let n = ws.len() - 1;
        if op == "push"@ || op == "pop"@ {
            if n == 0 {
                Parsed::WrongSyntax(op + " <segments> <i>"@)
            } else if op == "pop"@ && ws[1] == "constant"@ {
                Parsed::WrongSyntax("push constant <i> instead of pop constant <i>"@)
            } else if segment_named(ws[1]) is None {
                Parsed::UnknownMemorySegment(ws[1])
            } else if n != 2 {
                Parsed::WrongSyntax(op + " <segments> <i>"@)
            } else if op == "push"@ {
                Parsed::Instruction(InstructionV::Push(segment_named(ws[1])->0, ws[2]))
            } else {
                Parsed::Instruction(InstructionV::Pop(segment_named(ws[1])->0, ws[2]))
            }
        } else if is_jump_word(op) {
            if n != 1 {
                Parsed::WrongSyntax(op + " <destination>"@)
            } else if op == "label"@ {
                Parsed::Instruction(InstructionV::Label(ws[1]))
            } else if op == "goto"@ {
                Parsed::Instruction(InstructionV::Goto(ws[1]))
            } else {
                Parsed::Instruction(InstructionV::IfGoto(ws[1]))
            }
        } else if op == "call"@ {
            if n != 2 {
                Parsed::WrongSyntax("call <function> <n>"@)
            } else {
                Parsed::Instruction(InstructionV::Call(ws[1], ws[2]))
            }
        } else if op == "function"@ {
            if n != 2 {
                Parsed::WrongSyntax("function <name> <n>"@)
            } else {
                Parsed::Instruction(InstructionV::Function(ws[1], ws[2]))
            }
        } else if op == "return"@ || op_named(op) is Some {
            if n != 0 {
                Parsed::WrongSyntax(op)
            } else if op == "return"@ {
                Parsed::Instruction(InstructionV::Return)
            } else {
                Parsed::Instruction(InstructionV::Arithmetic(op_named(op)->0))
            }
        } else {
            Parsed::UnknownInstruction(op)
        }
    }
}

fn op_from_name(w: &str) -> (r: Option<Op>)
    ensures
        r == op_named(w@),
{
    if same_text(w, "add") {
        Some(Op::Add)
    } else if same_text(w, "sub") {
        Some(Op::Sub)
    } else if same_text(w, "neg") {
        Some(Op::Neg)
    } else if same_text(w, "eq") {
        Some(Op::Eq)
    } else if same_text(w, "lt") {
        Some(Op::Lt)
    } else if same_text(w, "gt") {
        Some(Op::Gt)
    } else if same_text(w, "and") {
        Some(Op::And)
    } else if same_text(w, "or") {
        Some(Op::Or)
    } else if same_text(w, "not") {
        Some(Op::Not)
    } else {
        None
    }
}

fn wrong_syntax(head: &str, tail: &str) -> (r: Error)
    ensures
        parsed(Err(r)) == Parsed::WrongSyntax(head@ + tail@),
{
    let mut expected = String::from_str(head);
    expected.append(tail);
    Error::WrongSyntax { expected }
}

/// Reads one source line. A blank line, or one that holds only a comment
/// (words from the first one that starts with `/` on), gives `None`.
pub fn parse_line(line: &str) -> (r: Result<Option<Instruction>, Error>)
    ensures
        parsed(r) == parse_words(code_words(line@)),
{
    let ws = tokens(line);
    let ghost w = code_words(line@);
    assert(views(ws@).len() == ws@.len());
    if ws.len() == 0 {
        return Ok(None);
    }
    assert(ws[0]@ == w[0]);
    let op = ws[0].as_str();
    let n = ws.len() - 1;
    if n >= 1 {
        assert(ws[1]@ == w[1]);
    }
    if n >= 2 {
        assert(ws[2]@ == w[2]);
    }
    if same_text(op, "push") || same_text(op, "pop") {
        let is_pop = same_text(op, "pop");
        if n == 0 {
            return Err(wrong_syntax(op, " <segments> <i>"));
        }
        let seg_word = ws[1].as_str();
        if is_pop && same_text(seg_word, "constant") {
            return Err(
                Error::WrongSyntax {
                    expected: String::from_str("push constant <i> instead of pop constant <i>"),
                },
            );
        }
        match segment_from_name(seg_word) {
            None => Err(Error::UnknownMemorySegement { memory_segment: String::from_str(seg_word) }),
            Some(segment) => {
                if n != 2 {
                    return Err(wrong_syntax(op, " <segments> <i>"));
                }
                let offset = ws[2].clone();
                if same_text(op, "push") {
                    Ok(Some(Instruction::Push { segment, offset }))
                } else {
                    Ok(Some(Instruction::Pop { segment, offset }))
                }
            },
        }
    } else if same_text(op, "label") || same_text(op, "goto") || same_text(op, "if-goto") {
        if n != 1 {
            return Err(wrong_syntax(op, " <destination>"));
        }
        let l = ws[1].clone();
        if same_text(op, "label") {
            Ok(Some(Instruction::Label(l)))
        } else if same_text(op, "goto") {
            Ok(Some(Instruction::Goto(l)))
        } else {
            Ok(Some(Instruction::IfGoto(l)))
        }
    } else if same_text(op, "call") {
        if n != 2 {
            return Err(Error::WrongSyntax { expected: String::from_str("call <function> <n>") });
        }
        Ok(Some(Instruction::Call { function: ws[1].clone(), n_args: ws[2].clone() }))
    } else if same_text(op, "function") {
        if n != 2 {
            return Err(Error::WrongSyntax { expected: String::from_str("function <name> <n>") });
        }
        Ok(Some(Instruction::Function { name: ws[1].clone(), n_vars: ws[2].clone() }))
    } else {
        let arith = op_from_name(op);
        let is_return = same_text(op, "return");
        if is_return || arith.is_some() {
            if n != 0 {
                return Err(Error::WrongSyntax { expected: String::from_str(op) });
            }
            if is_return {
                Ok(Some(Instruction::Return))
            } else {
                match arith {
                    Some(a) => Ok(Some(Instruction::Arithmetic(a))),
                    None => Ok(Some(Instruction::Return)),
                }
            }
        } else {
            Err(Error::UnknownInstruction { instruction: String::from_str(op) })
        }
    }
}

} // verus!
