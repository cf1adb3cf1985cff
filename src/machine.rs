//! A model of the target machine, used to state what the generated code
//! does. Words are 16-bit two's complement values; addresses and labels are
//! resolved through a layout that the assembler would fix.
use vstd::prelude::*;
use crate::count::{all_digits, digits_value};
use crate::hack::{Comp, Cond, Dest, Line, SymV};
use crate::memory_segments::Reg;

verus! {

/// Registers and memory of the target machine.
pub ghost struct Machine {
    pub a: int,
    pub d: int,
    pub ram: spec_fn(int) -> int,
}

/// Where a block of code stands in program memory, and the addresses that
/// the assembler gives to symbols (labels and variables).
pub ghost struct Layout {
    pub base: int,
    pub symbols: spec_fn(Seq<char>) -> int,
}

/// How a run of a block ends.
pub ghost enum Outcome {
    /// Ran past the last line.
    Fell(Machine),
    /// Jumped to an address outside the rest of the block.
    Jumped(int, Machine),
}

/// The cell at address `x`.
pub open spec fn cell(m: Machine, x: int) -> int {
    (m.ram)(x)
}

pub open spec fn is_word(x: int) -> bool {
    -0x8000 <= x < 0x8000
}

/// `x` reduced to a 16-bit two's complement word.
pub open spec fn word(x: int) -> int {
    (x + 0x8000) % 0x10000 - 0x8000
}

pub open spec fn reg_addr(r: Reg) -> int {
    match r {
        Reg::Sp => 0,
        Reg::Lcl => 1,
        Reg::Arg => 2,
        Reg::This => 3,
        Reg::That => 4,
    }
}

pub open spec fn resolve(lay: Layout, s: SymV) -> int {
    match s {
        SymV::Reg(r) => reg_addr(r),
        SymV::Num(n) => n as int,
        SymV::Name(t) => if all_digits(t) {
            digits_value(t) as int
        } else {
            (lay.symbols)(t)
        },
    }
}

pub open spec fn bit_and(x: int, y: int) -> int {
    ((x as i16) & (y as i16)) as int
}

pub open spec fn bit_or(x: int, y: int) -> int {
    ((x as i16) | (y as i16)) as int
}

/// The value of an expression, before it is reduced to a word.
pub open spec fn eval(c: Comp, m: Machine) -> int {
    let v = (m.ram)(m.a);
    match c {
        Comp::Zero => 0,
        Comp::MinusOne => -1,
        Comp::A => m.a,
        Comp::D => m.d,
        Comp::M => v,
        Comp::NegM => -v,
        Comp::NotM => -v - 1,
        Comp::MPlusOne => v + 1,
        Comp::MMinusOne => v - 1,
        Comp::DPlusA => m.d + m.a,
        Comp::DPlusM => m.d + v,
        Comp::DMinusA => m.d - m.a,
        Comp::MMinusD => v - m.d,
        Comp::DAndM => bit_and(m.d, v),
        Comp::DOrM => bit_or(m.d, v),
    }
}

pub open spec fn holds(j: Cond, v: int) -> bool {
    match j {
        Cond::Jeq => v == 0,
        Cond::Jlt => v < 0,
        Cond::Jgt => v > 0,
        Cond::Jne => v != 0,
        Cond::Jmp => true,
    }
}

pub open spec fn update(ram: spec_fn(int) -> int, at: int, v: int) -> spec_fn(int) -> int {
    |x: int|
        if x == at {
            v
        } else {
            ram(x)
        }
}

/// Writes `v` to the destination; `M` is the cell that `A` held before.
pub open spec fn store(dst: Dest, v: int, m: Machine) -> Machine {
    match dst {
        Dest::A => Machine { a: v, ..m },
        Dest::D => Machine { d: v, ..m },
        Dest::M => Machine { ram: update(m.ram, m.a, v), ..m },
        Dest::DM => Machine { d: v, ram: update(m.ram, m.a, v), ..m },
    }
}

/// One line that does not jump (a jump line leaves the machine as it is).
pub open spec fn step(l: Line, lay: Layout, m: Machine) -> Machine {
    match l {
        Line::At(s) => Machine { a: resolve(lay, s), ..m },
        Line::Assign(dst, c) => store(dst, word(eval(c, m)), m),
        _ => m,
    }
}

/// The lines in turn, jumps left aside.
pub open spec fn exec_lines(x: Seq<Line>, lay: Layout, m: Machine) -> Machine
    decreases x.len(),
{
    if x.len() == 0 {
        m
    } else {
        exec_lines(x.drop_first(), lay, step(x[0], lay, m))
    }
}

/// Runs a block from line `pc`. A taken jump forward into the block goes
/// on there; any other taken jump ends the run.
pub open spec fn run(code: Seq<Line>, lay: Layout, pc: int, m: Machine) -> Outcome
    decreases code.len() - pc,
{
    if pc < 0 || pc >= code.len() {
        Outcome::Fell(m)
    } else {
        match code[pc] {
            Line::Jump(c, j) => if holds(j, word(eval(c, m))) {
                let t = m.a - lay.base;
                if pc < t < code.len() {
                    run(code, lay, t, m)
                } else {
                    Outcome::Jumped(m.a, m)
                }
            } else {
                run(code, lay, pc + 1, m)
            },
            _ => run(code, lay, pc + 1, step(code[pc], lay, m)),
        }
    }
}

/// Each label of the block stands at its own address.
pub open spec fn placed(code: Seq<Line>, lay: Layout) -> bool {
    forall|i: int|
        0 <= i < code.len() ==> (#[trigger] code[i] matches Line::Label(t) ==> (lay.symbols)(t)
            == lay.base + i)
}

pub open spec fn no_jumps(x: Seq<Line>) -> bool {
    forall|i: int| 0 <= i < x.len() ==> !(#[trigger] x[i] is Jump)
}

pub proof fn lemma_word_id(x: int)
    requires
        is_word(x),
    ensures
        word(x) == x,
{
    vstd::arithmetic::div_mod::lemma_small_mod((x + 0x8000) as nat, 0x10000);
}

pub proof fn lemma_exec_concat(x: Seq<Line>, y: Seq<Line>, lay: Layout, m: Machine)
    ensures
        exec_lines(x + y, lay, m) == exec_lines(y, lay, exec_lines(x, lay, m)),
    decreases x.len(),
{
    if x.len() > 0 {
        assert((x + y).drop_first() =~= x.drop_first() + y);
        assert((x + y)[0] == x[0]);
        lemma_exec_concat(x.drop_first(), y, lay, step(x[0], lay, m));
    } else {
        assert(x + y =~= y);
    }
}

/// A stretch without jumps runs line by line.
pub proof fn lemma_run_straight(code: Seq<Line>, lay: Layout, pc: int, k: int, m: Machine)
    requires
        0 <= pc,
        0 <= k,
        pc + k <= code.len(),
        no_jumps(code.subrange(pc, pc + k)),
    ensures
        run(code, lay, pc, m) == run(code, lay, pc + k, exec_lines(code.subrange(pc, pc + k), lay, m)),
    decreases k,
{
    if k > 0 {
        let x = code.subrange(pc, pc + k);
        assert(x[0] == code[pc]);
        assert(!(x[0] is Jump));
        assert(x.drop_first() =~= code.subrange(pc + 1, pc + k));
        assert forall|i: int| 0 <= i < k - 1 implies !(#[trigger] code.subrange(pc + 1, pc + k)[i] is Jump) by {
            assert(code.subrange(pc + 1, pc + k)[i] == x[i + 1]);
        }
        lemma_run_straight(code, lay, pc + 1, k - 1, step(code[pc], lay, m));
    } else {
        assert(code.subrange(pc, pc) =~= Seq::<Line>::empty());
    }
}

} // verus!
