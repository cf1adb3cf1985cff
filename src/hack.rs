//! Instructions of the target machine, as the generator emits them, and
//! their text form.
use vstd::prelude::*;
use crate::memory_segments::Reg;

verus! {

/// Registers that an assignment writes.
#[derive(Clone, Copy, Debug, PartialEq, Eq, Structural)]
pub enum Dest {
    A,
    D,
    M,
    DM,
}

/// The right-hand expressions that the target machine computes.
#[derive(Clone, Copy, Debug, PartialEq, Eq, Structural)]
pub enum Comp {
    Zero,
    MinusOne,
    A,
    D,
    M,
    NegM,
    NotM,
    MPlusOne,
    MMinusOne,
    DPlusA,
    DPlusM,
    DMinusA,
    MMinusD,
    DAndM,
    DOrM,
}

/// Jump conditions, tested on the value of the computed expression.
#[derive(Clone, Copy, Debug, PartialEq, Eq, Structural)]
pub enum Cond {
    Jeq,
    Jlt,
    Jgt,
    Jne,
    Jmp,
}

/// The operand of an address load.
#[derive(Debug)]
pub enum Sym {
    /// A predefined pointer cell.
    Reg(Reg),
    /// A number written by the generator.
    Num(u64),
    /// A token or label, written verbatim.
    Name(String),
}

/// One target-machine instruction.
#[derive(Debug)]
pub enum Instr {
    /// `@sym`: load the address register.
    At(Sym),
    /// `dest=comp`.
    Assign(Dest, Comp),
    /// `comp;cond`: jump to the address register if the condition holds.
    Jump(Comp, Cond),
    /// `(name)`: declare a label.
    Label(String),
}

/// The mathematical form of [`Sym`].
pub ghost enum SymV {
    Reg(Reg),
    Num(nat),
    Name(Seq<char>),
}

/// The mathematical form of [`Instr`].
pub ghost enum Line {
    At(SymV),
    Assign(Dest, Comp),
    Jump(Comp, Cond),
    Label(Seq<char>),
}

impl View for Sym {
    type V = SymV;

    open spec fn view(&self) -> SymV {
        match self {
            Sym::Reg(r) => SymV::Reg(*r),
            Sym::Num(n) => SymV::Num(*n as nat),
            Sym::Name(s) => SymV::Name(s@),
        }
    }
}

impl View for Instr {
    type V = Line;

    open spec fn view(&self) -> Line {
        match self {
            Instr::At(s) => Line::At(s@),
            Instr::Assign(d, c) => Line::Assign(*d, *c),
            Instr::Jump(c, j) => Line::Jump(*c, *j),
            Instr::Label(s) => Line::Label(s@),
        }
    }
}

/// The lines that a sequence of instructions stands for.
pub open spec fn lines(v: Seq<Instr>) -> Seq<Line> {
    v.map_values(|x: Instr| x@)
}

/// The character of a decimal digit.
pub open spec fn digit_char(d: nat) -> char {
    if d == 0 {
        '0'
    } else if d == 1 {
        '1'
    } else if d == 2 {
        '2'
    } else if d == 3 {
        '3'
    } else if d == 4 {
        '4'
    } else if d == 5 {
        '5'
    } else if d == 6 {
        '6'
    } else if d == 7 {
        '7'
    } else if d == 8 {
        '8'
    } else {
        '9'
    }
}

/// The decimal form of a natural number, without leading zeros.
pub open spec fn decimal(n: nat) -> Seq<char>
    decreases n,
{
    if n < 10 {
        seq![digit_char(n)]
    } else {
        decimal(n / 10).push(digit_char(n % 10))
    }
}

pub open spec fn reg_text(r: Reg) -> Seq<char> {
    match r {
        Reg::Sp => "SP"@,
        Reg::Lcl => "LCL"@,
        Reg::Arg => "ARG"@,
        Reg::This => "THIS"@,
        Reg::That => "THAT"@,
    }
}

pub open spec fn sym_text(s: SymV) -> Seq<char> {
    match s {
        SymV::Reg(r) => reg_text(r),
        SymV::Num(n) => decimal(n),
        SymV::Name(t) => t,
    }
}

pub open spec fn dest_text(d: Dest) -> Seq<char> {
    match d {
        Dest::A => "A"@,
        Dest::D => "D"@,
        Dest::M => "M"@,
        Dest::DM => "DM"@,
    }
}

pub open spec fn comp_text(c: Comp) -> Seq<char> {
    match c {
        Comp::Zero => "0"@,
        Comp::MinusOne => "-1"@,
        Comp::A => "A"@,
        Comp::D => "D"@,
        Comp::M => "M"@,
        Comp::NegM => "-M"@,
        Comp::NotM => "!M"@,
        Comp::MPlusOne => "M+1"@,
        Comp::MMinusOne => "M-1"@,
        Comp::DPlusA => "D+A"@,
        Comp::DPlusM => "D+M"@,
        Comp::DMinusA => "D-A"@,
        Comp::MMinusD => "M-D"@,
        Comp::DAndM => "D&M"@,
        Comp::DOrM => "D|M"@,
    }
}

pub open spec fn cond_text(j: Cond) -> Seq<char> {
    match j {
        Cond::Jeq => "JEQ"@,
        Cond::Jlt => "JLT"@,
        Cond::Jgt => "JGT"@,
        Cond::Jne => "JNE"@,
        Cond::Jmp => "JMP"@,
    }
}

/// The text of one line, without its line break.
pub open spec fn line_text(l: Line) -> Seq<char> {
    match l {
        Line::At(s) => "@"@ + sym_text(s),
        Line::Assign(d, c) => dest_text(d) + "="@ + comp_text(c),
        Line::Jump(c, j) => comp_text(c) + ";"@ + cond_text(j),
        Line::Label(t) => "("@ + t + ")"@,
    }
}

/// The text of a sequence of lines: each line followed by a line break.
pub open spec fn text(ls: Seq<Line>) -> Seq<char>
    decreases ls.len(),
{
    if ls.len() == 0 {
        Seq::empty()
    } else {
        text(ls.drop_last()) + line_text(ls.last()) + "\n"@
    }
}

fn digit_str(d: u64) -> (r: &'static str)
    requires
        d < 10,
    ensures
        r@ == seq![digit_char(d as nat)],
{
    proof {
        reveal_strlit("0");
        reveal_strlit("1");
        reveal_strlit("2");
        reveal_strlit("3");
        reveal_strlit("4");
        reveal_strlit("5");
        reveal_strlit("6");
        reveal_strlit("7");
        reveal_strlit("8");
        reveal_strlit("9");
    }
    let r = if d == 0 {
        "0"
    } else if d == 1 {
        "1"
    } else if d == 2 {
        "2"
    } else if d == 3 {
        "3"
    } else if d == 4 {
        "4"
    } else if d == 5 {
        "5"
    } else if d == 6 {
        "6"
    } else if d == 7 {
        "7"
    } else if d == 8 {
        "8"
    } else {
        "9"
    };
    assert(r@ =~= seq![digit_char(d as nat)]);
    r
}

/// The decimal form of `n`.
pub fn decimal_string(n: u64) -> (r: String)
    ensures
        r@ == decimal(n as nat),
    decreases n,
{
    if n < 10 {
        String::from_str(digit_str(n))
    } else {
        let mut s = decimal_string(n / 10);
        s.append(digit_str(n % 10));
        s
    }
}

fn reg_str(r: Reg) -> (s: &'static str)
    ensures
        s@ == reg_text(r),
{
    match r {
        Reg::Sp => "SP",
        Reg::Lcl => "LCL",
        Reg::Arg => "ARG",
        Reg::This => "THIS",
        Reg::That => "THAT",
    }
}

fn dest_str(d: Dest) -> (s: &'static str)
    ensures
        s@ == dest_text(d),
{
    match d {
        Dest::A => "A",
        Dest::D => "D",
        Dest::M => "M",
        Dest::DM => "DM",
    }
}

fn comp_str(c: Comp) -> (s: &'static str)
    ensures
        s@ == comp_text(c),
{
    match c {
        Comp::Zero => "0",
        Comp::MinusOne => "-1",
        Comp::A => "A",
        Comp::D => "D",
        Comp::M => "M",
        Comp::NegM => "-M",
        Comp::NotM => "!M",
        Comp::MPlusOne => "M+1",
        Comp::MMinusOne => "M-1",
        Comp::DPlusA => "D+A",
        Comp::DPlusM => "D+M",
        Comp::DMinusA => "D-A",
        Comp::MMinusD => "M-D",
        Comp::DAndM => "D&M",
        Comp::DOrM => "D|M",
    }
}

fn cond_str(j: Cond) -> (s: &'static str)
    ensures
        s@ == cond_text(j),
{
    match j {
        Cond::Jeq => "JEQ",
        Cond::Jlt => "JLT",
        Cond::Jgt => "JGT",
        Cond::Jne => "JNE",
        Cond::Jmp => "JMP",
    }
}

/// Appends the text of one line, without its line break, to `out`.
fn write_line(out: &mut String, l: &Instr)
    ensures
        final(out)@ == old(out)@ + line_text(l@),
{
    match l {
        Instr::At(s) => {
            out.append("@");
            match s {
                Sym::Reg(r) => out.append(reg_str(*r)),
                Sym::Num(n) => {
                    let t = decimal_string(*n);
                    out.append(t.as_str());
                },
                Sym::Name(t) => out.append(t.as_str()),
            }
        },
        Instr::Assign(d, c) => {
            out.append(dest_str(*d));
            out.append("=");
            out.append(comp_str(*c));
        },
        Instr::Jump(c, j) => {
            out.append(comp_str(*c));
            out.append(";");
            out.append(cond_str(*j));
        },
        Instr::Label(t) => {
            out.append("(");
            out.append(t.as_str());
            out.append(")");
        },
    }
}

/// The text of a burst of instructions, one per line.
pub fn render(code: &Vec<Instr>) -> (r: String)
    ensures
        r@ == text(lines(code@)),
{
    let mut out = String::new();
    let mut i: usize = 0;
    while i < code.len()
        invariant
            i <= code.len(),
            out@ == text(lines(code@.subrange(0, i as int))),
        decreases code.len() - i,
    {
        let ghost before = code@.subrange(0, i as int);
        write_line(&mut out, &code[i]);
        out.append("\n");
        proof {
            let next = code@.subrange(0, i + 1);
            assert(next.drop_last() == before);
            assert(lines(next).drop_last() =~= lines(before));
            assert(lines(next).last() == code@[i as int]@);
        }
        i = i + 1;
    }
    assert(code@.subrange(0, code.len() as int) == code@);
    out
}

} // verus!
