//! The code generator: translates one validated instruction at a time into
//! a burst of target-machine instructions.
use vstd::prelude::*;
use crate::count::{is_count, count_value, read_count};
use crate::hack::{Comp, Cond, Dest, Instr, Line, Sym, SymV, decimal, decimal_string, lines, render, text};
use crate::instruction::{Instruction, Op, is_comparison};
use crate::memory_segments::{Base, Reg, Segment, same_text, spec_base, TEMP_BASE};

verus! {

/// Failures of the code generator.
#[derive(Debug)]
pub enum Error {
    /// The destination could not be written.
    Io(std::io::Error),
    /// A count of `call` or `function` is not a number.
    ParseIntError(std::num::ParseIntError),
    /// A segment that cannot be read (`push`) or written (`pop`) this way.
    InvalidSegment { segment: Segment },
}

/// The calling context of the function being translated.
pub struct FunctionFrame {
    /// The argument count that the frame was made with, as written.
    pub number_of_args: String,
    /// Calls translated so far in the current function.
    pub call: usize,
}

impl FunctionFrame {
    /// A context in which no call has been translated yet.
    pub fn new(number_of_args: String) -> (r: Self)
        ensures
            r.number_of_args@ == number_of_args@,
            r.call == 0,
    {
        FunctionFrame { number_of_args, call: 0 }
    }
}

/// The translation state, apart from the pending output.
pub ghost struct WriterState {
    /// Comparisons translated so far in the run.
    pub label_count: nat,
    /// Calls translated so far in the current function.
    pub call: nat,
    /// The function whose body is being translated.
    pub current: Seq<char>,
    /// The base name of the source file.
    pub file: Seq<char>,
}

/// The generator: translation state and the instructions not yet flushed.
pub struct Writer {
    hack_instruction: Vec<Instr>,
    pub label_count: usize,
    pub function_frames: FunctionFrame,
    pub current_function_executed: String,
    pub filename_without_extension: String,
}

// Lines of target code, as the spec functions below assemble them.

pub open spec fn at_reg(r: Reg) -> Line {
    Line::At(SymV::Reg(r))
}

pub open spec fn at_num(n: nat) -> Line {
    Line::At(SymV::Num(n))
}

pub open spec fn at_name(t: Seq<char>) -> Line {
    Line::At(SymV::Name(t))
}

pub open spec fn assign(d: Dest, c: Comp) -> Line {
    Line::Assign(d, c)
}

/// Pushes `D` onto the stack.
pub open spec fn push_d() -> Seq<Line> {
    seq![
        at_reg(Reg::Sp),
        assign(Dest::A, Comp::M),
        assign(Dest::M, Comp::D),
        at_reg(Reg::Sp),
        assign(Dest::M, Comp::MPlusOne),
    ]
}

/// Pops the top of the stack into `D`.
pub open spec fn pop_into_d() -> Seq<Line> {
    seq![
        at_reg(Reg::Sp),
        assign(Dest::M, Comp::MMinusOne),
        assign(Dest::A, Comp::M),
        assign(Dest::D, Comp::M),
    ]
}

/// With an address in `D`: pops the top of the stack into the cell at that
/// address. The address waits in the cell just above the top while the top
/// is read.
pub open spec fn pop_to_address_in_d() -> Seq<Line> {
    seq![at_reg(Reg::Sp), assign(Dest::A, Comp::M), assign(Dest::M, Comp::D)] + pop_into_d()
        + seq![
        at_reg(Reg::Sp),
        assign(Dest::A, Comp::MPlusOne),
        assign(Dest::A, Comp::M),
        assign(Dest::M, Comp::D),
    ]
}

/// The cell that `pointer <off>` names: `THIS` for offset `0`, else `THAT`.
pub open spec fn pointer_reg(off: Seq<char>) -> Reg {
    if off == "0"@ {
        Reg::This
    } else {
        Reg::That
    }
}

/// The symbol of `static <off>` in the file with base name `file`.
pub open spec fn static_name(file: Seq<char>, off: Seq<char>) -> Seq<char> {
    file + "."@ + off
}

/// Whether `push` can read the segment.
pub open spec fn readable(seg: Segment) -> bool {
    seg != Segment::Sp
}

/// Whether `pop` can write the segment.
pub open spec fn writable(seg: Segment) -> bool {
    seg != Segment::Sp && seg != Segment::Constant
}

/// `push seg off`: the source value into `D`, then onto the stack.
pub open spec fn push_code(seg: Segment, off: Seq<char>, file: Seq<char>) -> Seq<Line> {
    match spec_base(seg) {
        Base::Register(r) => seq![
            at_name(off),
            assign(Dest::D, Comp::A),
            at_reg(r),
            assign(Dest::A, Comp::DPlusM),
            assign(Dest::D, Comp::M),
        ] + push_d(),
        Base::Fixed(b) => seq![
            at_name(off),
            assign(Dest::D, Comp::A),
            at_num(b as nat),
            assign(Dest::A, Comp::DPlusA),
            assign(Dest::D, Comp::M),
        ] + push_d(),
        Base::Immediate => seq![at_name(off), assign(Dest::D, Comp::A)] + push_d(),
        Base::PointerCells => seq![at_reg(pointer_reg(off)), assign(Dest::D, Comp::M)] + push_d(),
        Base::Symbolic => seq![at_name(static_name(file, off)), assign(Dest::D, Comp::M)]
            + push_d(),
    }
}

/// `pop seg off`: the destination address first, then the top into it.
pub open spec fn pop_code(seg: Segment, off: Seq<char>, file: Seq<char>) -> Seq<Line> {
    match spec_base(seg) {
        Base::Register(r) => seq![
            at_reg(r),
            assign(Dest::D, Comp::M),
            at_name(off),
            assign(Dest::D, Comp::DPlusA),
        ] + pop_to_address_in_d(),
        Base::Fixed(b) => seq![
            at_num(b as nat),
            assign(Dest::D, Comp::A),
            at_name(off),
            assign(Dest::D, Comp::DPlusA),
        ] + pop_to_address_in_d(),
        Base::Symbolic => seq![at_name(static_name(file, off)), assign(Dest::D, Comp::A)]
            + pop_to_address_in_d(),
        Base::PointerCells => pop_into_d() + seq![at_reg(pointer_reg(off)), assign(Dest::M, Comp::D)],
        Base::Immediate => Seq::empty(),
    }
}

/// The expression that a one- or two-operand operation computes.
pub open spec fn op_comp(op: Op) -> Comp {
    match op {
        Op::Add => Comp::DPlusM,
        Op::Sub => Comp::MMinusD,
        Op::And => Comp::DAndM,
        Op::Or => Comp::DOrM,
        Op::Neg => Comp::NegM,
        _ => Comp::NotM,
    }
}

/// The jump condition of a comparison, tested on `second - top`.
pub open spec fn op_cond(op: Op) -> Cond {
    match op {
        Op::Eq => Cond::Jeq,
        Op::Lt => Cond::Jlt,
        _ => Cond::Jgt,
    }
}

/// The label that the comparison numbered `k` in the run branches to.
pub open spec fn compare_label(k: nat) -> Seq<char> {
    "LABEL."@ + decimal(k)
}

/// The return-address label of the call numbered `k` in function `f`.
pub open spec fn return_label(f: Seq<char>, k: nat) -> Seq<char> {
    f + "$ret."@ + decimal(k)
}

pub open spec fn loop_label(f: Seq<char>) -> Seq<char> {
    "LOOP_"@ + f
}

pub open spec fn end_loop_label(f: Seq<char>) -> Seq<char> {
    "END_LOOP_"@ + f
}

/// The cell that counts the locals still to clear at a function's entry.
pub open spec fn loop_var() -> Seq<char> {
    "i"@
}

/// The cell that holds the return address while a frame is taken down.
pub open spec fn return_var() -> Seq<char> {
    "return_address"@
}

/// `neg`, `not`: the top is replaced in place.
pub open spec fn unary_code(c: Comp) -> Seq<Line> {
    seq![at_reg(Reg::Sp), assign(Dest::A, Comp::MMinusOne), assign(Dest::M, c)]
}

/// `add`, `sub`, `and`, `or`: the top is popped into `D` and combined with
/// the new top in place.
pub open spec fn binary_code(c: Comp) -> Seq<Line> {
    pop_into_d() + seq![at_reg(Reg::Sp), assign(Dest::A, Comp::MMinusOne), assign(Dest::M, c)]
}

/// `eq`, `lt`, `gt`: true (-1) is written, then overwritten with false (0)
/// unless `second - top` meets the condition.
pub open spec fn compare_code(j: Cond, label: Seq<char>) -> Seq<Line> {
    pop_into_d() + seq![
        at_reg(Reg::Sp),
        assign(Dest::A, Comp::MMinusOne),
        assign(Dest::D, Comp::MMinusD),
        assign(Dest::M, Comp::MinusOne),
        at_name(label),
        Line::Jump(Comp::D, j),
        at_reg(Reg::Sp),
        assign(Dest::A, Comp::MMinusOne),
        assign(Dest::M, Comp::Zero),
        Line::Label(label),
    ]
}

/// `goto l`.
pub open spec fn goto_code(l: Seq<char>) -> Seq<Line> {
    seq![at_name(l), Line::Jump(Comp::Zero, Cond::Jmp)]
}

/// `if-goto l`: pops the top and jumps if it is not zero.
pub open spec fn if_goto_code(l: Seq<char>) -> Seq<Line> {
    pop_into_d() + seq![at_name(l), Line::Jump(Comp::D, Cond::Jne)]
}

/// Pushes the value of a pointer cell.
pub open spec fn push_pointer(r: Reg) -> Seq<Line> {
    seq![at_reg(r), assign(Dest::D, Comp::M)] + push_d()
}

/// The frame saved at a call: the return address, then the caller's
/// `ARG`, `LCL`, `THIS` and `THAT`.
pub open spec fn save_frame(ret: Seq<char>) -> Seq<Line> {
    seq![at_name(ret), assign(Dest::D, Comp::A)] + push_d() + push_pointer(Reg::Arg) + push_pointer(
        Reg::Lcl,
    ) + push_pointer(Reg::This) + push_pointer(Reg::That)
}

/// `call f n`, where `ret` is the return-address label.
pub open spec fn call_code(f: Seq<char>, n: nat, ret: Seq<char>) -> Seq<Line> {
    save_frame(ret) + seq![
        at_num(n),
        assign(Dest::D, Comp::A),
        at_num(5),
        assign(Dest::D, Comp::DPlusA),
        at_reg(Reg::Sp),
        assign(Dest::D, Comp::MMinusD),
        at_reg(Reg::Arg),
        assign(Dest::M, Comp::D),
        at_name(f),
        Line::Jump(Comp::Zero, Cond::Jmp),
        Line::Label(ret),
    ]
}

/// `function f k`: the entry label, `LCL` set to `SP`, then `k` cells
/// cleared and pushed by a counted loop.
pub open spec fn function_code(f: Seq<char>, k: nat) -> Seq<Line> {
    seq![
        Line::Label(f),
        at_reg(Reg::Sp),
        assign(Dest::D, Comp::M),
        at_reg(Reg::Lcl),
        assign(Dest::M, Comp::D),
        at_num(k),
        assign(Dest::D, Comp::A),
        at_name(end_loop_label(f)),
        Line::Jump(Comp::D, Cond::Jeq),
        at_name(loop_var()),
        assign(Dest::M, Comp::D),
        Line::Label(loop_label(f)),
        at_reg(Reg::Sp),
        assign(Dest::A, Comp::M),
        assign(Dest::M, Comp::Zero),
        at_reg(Reg::Sp),
        assign(Dest::M, Comp::MPlusOne),
        at_name(loop_var()),
        assign(Dest::M, Comp::MMinusOne),
        assign(Dest::D, Comp::M),
        at_name(loop_label(f)),
        Line::Jump(Comp::D, Cond::Jgt),
        Line::Label(end_loop_label(f)),
    ]
}

/// Sets `r` to the cell `k` below the callee's `LCL`.
pub open spec fn restore_code(r: Reg, k: nat) -> Seq<Line> {
    seq![
        at_reg(Reg::Lcl),
        assign(Dest::D, Comp::M),
        at_num(k),
        assign(Dest::A, Comp::DMinusA),
        assign(Dest::D, Comp::M),
        at_reg(r),
        assign(Dest::M, Comp::D),
    ]
}

/// `return`: the return address is read first; the return value goes to
/// the callee's `ARG` cell and `SP` just above it; then `THAT`, `THIS`,
/// `ARG` and `LCL` are restored from the saved frame, and control jumps
/// to the return address.
pub open spec fn return_code() -> Seq<Line> {
    seq![
        at_reg(Reg::Lcl),
        assign(Dest::D, Comp::M),
        at_num(5),
        assign(Dest::A, Comp::DMinusA),
        assign(Dest::D, Comp::M),
        at_name(return_var()),
        assign(Dest::M, Comp::D),
        at_reg(Reg::Sp),
        assign(Dest::A, Comp::MMinusOne),
        assign(Dest::D, Comp::M),
        at_reg(Reg::Arg),
        assign(Dest::A, Comp::M),
        assign(Dest::M, Comp::D),
        at_reg(Reg::Arg),
        assign(Dest::D, Comp::MPlusOne),
        at_reg(Reg::Sp),
        assign(Dest::M, Comp::D),
    ] + restore_code(Reg::That, 1) + restore_code(Reg::This, 2) + restore_code(Reg::Arg, 4)
        + restore_code(Reg::Lcl, 3) + seq![
        at_name(return_var()),
        assign(Dest::A, Comp::M),
        Line::Jump(Comp::Zero, Cond::Jmp),
    ]
}

/// Whether the generator translates the instruction (else it fails).
pub open spec fn accepted(ins: Instruction) -> bool {
    match ins {
        Instruction::Push { segment, .. } => readable(segment),
        Instruction::Pop { segment, .. } => writable(segment),
        Instruction::Call { n_args, .. } => is_count(n_args@),
        Instruction::Function { n_vars, .. } => is_count(n_vars@),
        _ => true,
    }
}

/// Whether the run's counters leave room for the instruction.
pub open spec fn counters_fit(w: WriterState, ins: Instruction) -> bool {
    &&& (ins matches Instruction::Arithmetic(op) && is_comparison(op)) ==> w.label_count
        < usize::MAX
    &&& ins is Call ==> w.call < usize::MAX
}

/// The target code of an accepted instruction in state `w`.
pub open spec fn code_for(w: WriterState, ins: Instruction) -> Seq<Line> {
    match ins {
        Instruction::Push { segment, offset } => push_code(segment, offset@, w.file),
        Instruction::Pop { segment, offset } => pop_code(segment, offset@, w.file),
        Instruction::Arithmetic(op) => if is_comparison(op) {
            compare_code(op_cond(op), compare_label(w.label_count))
        } else if op == Op::Neg || op == Op::Not {
            unary_code(op_comp(op))
        } else {
            binary_code(op_comp(op))
        },
        // Labels are declared verbatim, not qualified by the enclosing function.
        Instruction::Label(l) => seq![Line::Label(l@)],
        Instruction::Goto(l) => goto_code(l@),
        Instruction::IfGoto(l) => if_goto_code(l@),
        Instruction::Call { function, n_args } => call_code(
            function@,
            count_value(n_args@),
            return_label(w.current, w.call),
        ),
        Instruction::Function { name, n_vars } => function_code(name@, count_value(n_vars@)),
        Instruction::Return => return_code(),
    }
}

/// The state after an accepted instruction.
pub open spec fn next_state(w: WriterState, ins: Instruction) -> WriterState {
    match ins {
        Instruction::Arithmetic(op) => if is_comparison(op) {
            WriterState { label_count: w.label_count + 1, ..w }
        } else {
            w
        },
        Instruction::Call { .. } => WriterState { call: w.call + 1, ..w },
        Instruction::Function { name, .. } => WriterState {
            call: if w.current == name@ {
                w.call
            } else {
                0
            },
            current: name@,
            ..w
        },
        _ => w,
    }
}

/// The error for a rejected instruction.
pub open spec fn error_for(e: Error, ins: Instruction) -> bool {
    match ins {
        Instruction::Push { segment, .. } => e == Error::InvalidSegment { segment },
        Instruction::Pop { segment, .. } => e == Error::InvalidSegment { segment },
        _ => e is ParseIntError,
    }
}

impl View for Writer {
    type V = WriterState;

    closed spec fn view(&self) -> WriterState {
        WriterState {
            label_count: self.label_count as nat,
            call: self.function_frames.call as nat,
            current: self.current_function_executed@,
            file: self.filename_without_extension@,
        }
    }
}

impl Writer {
    /// The instructions translated and not yet flushed.
    pub closed spec fn pending(&self) -> Seq<Line> {
        lines(self.hack_instruction@)
    }

    /// A fresh generator for the source file with base name `filename`.
    pub fn new(filename: &str) -> (r: Writer)
        ensures
            r@ == (WriterState { label_count: 0, call: 0, current: Seq::empty(), file: filename@ }),
            r.pending() == Seq::<Line>::empty(),
    {
        let w = Writer {
            hack_instruction: Vec::new(),
            label_count: 0,
            function_frames: FunctionFrame::new(String::new()),
            current_function_executed: String::new(),
            filename_without_extension: String::from_str(filename),
        };
        assert(w.pending() =~= Seq::<Line>::empty());
        w
    }

    fn emit(&mut self, i: Instr)
        ensures
            final(self)@ == old(self)@,
            final(self).pending() == old(self).pending().push(i@),
    {
        let ghost before = self.hack_instruction@;
        self.hack_instruction.push(i);
        assert(lines(self.hack_instruction@) =~= lines(before).push(i@));
    }

    fn load_address_register(&mut self, r: Reg)
        ensures
            final(self)@ == old(self)@,
            final(self).pending() == old(self).pending().push(at_reg(r)),
    {
        self.emit(Instr::At(Sym::Reg(r)));
    }

    fn load_number(&mut self, n: u64)
        ensures
            final(self)@ == old(self)@,
            final(self).pending() == old(self).pending().push(at_num(n as nat)),
    {
        self.emit(Instr::At(Sym::Num(n)));
    }

    fn load_symbol(&mut self, name: &str)
        ensures
            final(self)@ == old(self)@,
            final(self).pending() == old(self).pending().push(at_name(name@)),
    {
        self.emit(Instr::At(Sym::Name(String::from_str(name))));
    }

    fn assign_value_to_selected_register(&mut self, d: Dest, c: Comp)
        ensures
            final(self)@ == old(self)@,
            final(self).pending() == old(self).pending().push(assign(d, c)),
    {
        self.emit(Instr::Assign(d, c));
    }

    fn write_jump_instruction(&mut self, c: Comp, j: Cond)
        ensures
            final(self)@ == old(self)@,
            final(self).pending() == old(self).pending().push(Line::Jump(c, j)),
    {
        self.emit(Instr::Jump(c, j));
    }

    fn write_label(&mut self, name: &str)
        ensures
            final(self)@ == old(self)@,
            final(self).pending() == old(self).pending().push(Line::Label(name@)),
    {
        self.emit(Instr::Label(String::from_str(name)));
    }

    fn push_register_d(&mut self)
        ensures
            final(self)@ == old(self)@,
            final(self).pending() == old(self).pending() + push_d(),
    {
        self.load_address_register(Reg::Sp);
        self.assign_value_to_selected_register(Dest::A, Comp::M);
        self.assign_value_to_selected_register(Dest::M, Comp::D);
        self.load_address_register(Reg::Sp);
        self.assign_value_to_selected_register(Dest::M, Comp::MPlusOne);
        assert(self.pending() =~= old(self).pending() + push_d());
    }

    fn load_and_decrement_stack_pointer(&mut self)
        ensures
            final(self)@ == old(self)@,
            final(self).pending() == old(self).pending() + seq![
                at_reg(Reg::Sp),
                assign(Dest::M, Comp::MMinusOne),
            ],
    {
        self.load_address_register(Reg::Sp);
        self.assign_value_to_selected_register(Dest::M, Comp::MMinusOne);
        assert(self.pending() =~= old(self).pending() + seq![
            at_reg(Reg::Sp),
            assign(Dest::M, Comp::MMinusOne),
        ]);
    }

    fn pop_into_register_d(&mut self)
        ensures
            final(self)@ == old(self)@,
            final(self).pending() == old(self).pending() + pop_into_d(),
    {
        self.load_and_decrement_stack_pointer();
        self.assign_value_to_selected_register(Dest::A, Comp::M);
        self.assign_value_to_selected_register(Dest::D, Comp::M);
        assert(self.pending() =~= old(self).pending() + pop_into_d());
    }

    fn pop_to_address_in_register_d(&mut self)
        ensures
            final(self)@ == old(self)@,
            final(self).pending() == old(self).pending() + pop_to_address_in_d(),
    {
        self.load_address_register(Reg::Sp);
        self.assign_value_to_selected_register(Dest::A, Comp::M);
        self.assign_value_to_selected_register(Dest::M, Comp::D);
        self.pop_into_register_d();
        self.load_address_register(Reg::Sp);
        self.assign_value_to_selected_register(Dest::A, Comp::MPlusOne);
        self.assign_value_to_selected_register(Dest::A, Comp::M);
        self.assign_value_to_selected_register(Dest::M, Comp::D);
        assert(self.pending() =~= old(self).pending() + pop_to_address_in_d());
    }

    /// The symbol of a static cell of this file.
    fn static_symbol(&self, off: &str) -> (r: String)
        ensures
            r@ == static_name(self@.file, off@),
    {
        let mut s = self.filename_without_extension.clone();
        s.append(".");
        s.append(off);
        s
    }

    /// Translates `push seg off`.
    fn push_memory_segment_onto_stack(&mut self, seg: Segment, off: &str)
        requires
            readable(seg),
        ensures
            final(self)@ == old(self)@,
            final(self).pending() == old(self).pending() + push_code(seg, off@, old(self)@.file),
    {
        match seg.base() {
            Base::Register(r) => {
                self.load_symbol(off);
                self.assign_value_to_selected_register(Dest::D, Comp::A);
                self.load_address_register(r);
                self.assign_value_to_selected_register(Dest::A, Comp::DPlusM);
                self.assign_value_to_selected_register(Dest::D, Comp::M);
            },
            Base::Fixed(b) => {
                self.load_symbol(off);
                self.assign_value_to_selected_register(Dest::D, Comp::A);
                self.load_number(b);
                self.assign_value_to_selected_register(Dest::A, Comp::DPlusA);
                self.assign_value_to_selected_register(Dest::D, Comp::M);
            },
            Base::Immediate => {
                self.load_symbol(off);
                self.assign_value_to_selected_register(Dest::D, Comp::A);
            },
            Base::PointerCells => {
                let r = if same_text(off, "0") {
                    Reg::This
                } else {
                    Reg::That
                };
                self.load_address_register(r);
                self.assign_value_to_selected_register(Dest::D, Comp::M);
            },
            Base::Symbolic => {
                let name = self.static_symbol(off);
                self.load_symbol(name.as_str());
                self.assign_value_to_selected_register(Dest::D, Comp::M);
            },
        }
        self.push_register_d();
        assert(self.pending() =~= old(self).pending() + push_code(seg, off@, old(self)@.file));
    }

    /// Translates `pop seg off`.
    fn pop_off_memory_segment_of_stack(&mut self, seg: Segment, off: &str)
        requires
            writable(seg),
        ensures
            final(self)@ == old(self)@,
            final(self).pending() == old(self).pending() + pop_code(seg, off@, old(self)@.file),
    {
        match seg.base() {
            Base::Register(r) => {
                self.load_address_register(r);
                self.assign_value_to_selected_register(Dest::D, Comp::M);
                self.load_symbol(off);
                self.assign_value_to_selected_register(Dest::D, Comp::DPlusA);
                self.pop_to_address_in_register_d();
            },
            Base::Fixed(b) => {
                self.load_number(b);
                self.assign_value_to_selected_register(Dest::D, Comp::A);
                self.load_symbol(off);
                self.assign_value_to_selected_register(Dest::D, Comp::DPlusA);
                self.pop_to_address_in_register_d();
            },
            Base::Symbolic => {
                let name = self.static_symbol(off);
                self.load_symbol(name.as_str());
                self.assign_value_to_selected_register(Dest::D, Comp::A);
                self.pop_to_address_in_register_d();
            },
            Base::PointerCells => {
                self.pop_into_register_d();
                let r = if same_text(off, "0") {
                    Reg::This
                } else {
                    Reg::That
                };
                self.load_address_register(r);
                self.assign_value_to_selected_register(Dest::M, Comp::D);
            },
            Base::Immediate => {},
        }
        assert(self.pending() =~= old(self).pending() + pop_code(seg, off@, old(self)@.file));
    }
    /// Translates `neg` and `not`.
    fn convert_single_operand_instruction_to_hack_instruction_set(&mut self, c: Comp)
        ensures
            final(self)@ == old(self)@,
            final(self).pending() == old(self).pending() + unary_code(c),
    {
        self.load_address_register(Reg::Sp);
        self.assign_value_to_selected_register(Dest::A, Comp::MMinusOne);
        self.assign_value_to_selected_register(Dest::M, c);
        assert(self.pending() =~= old(self).pending() + unary_code(c));
    }

    /// Translates `add`, `sub`, `and` and `or`.
    fn convert_double_operand_instruction_to_hack_instruction_set(&mut self, c: Comp)
        ensures
            final(self)@ == old(self)@,
            final(self).pending() == old(self).pending() + binary_code(c),
    {
        self.pop_into_register_d();
        self.load_address_register(Reg::Sp);
        self.assign_value_to_selected_register(Dest::A, Comp::MMinusOne);
        self.assign_value_to_selected_register(Dest::M, c);
        assert(self.pending() =~= old(self).pending() + binary_code(c));
    }

    /// Translates `eq`, `lt` and `gt`, with a label fresh in the run.
    fn convert_compare_instruction_to_hack_instruction_set(&mut self, j: Cond)
        requires
            old(self).label_count < usize::MAX,
        ensures
            final(self)@ == (WriterState { label_count: old(self)@.label_count + 1, ..old(self)@ }),
            final(self).pending() == old(self).pending() + compare_code(
                j,
                compare_label(old(self)@.label_count),
            ),
    {
        let mut label = String::from_str("LABEL.");
        let k = decimal_string(self.label_count as u64);
        label.append(k.as_str());
        self.pop_into_register_d();
        self.load_address_register(Reg::Sp);
        self.assign_value_to_selected_register(Dest::A, Comp::MMinusOne);
        self.assign_value_to_selected_register(Dest::D, Comp::MMinusD);
        self.assign_value_to_selected_register(Dest::M, Comp::MinusOne);
        self.load_symbol(label.as_str());
        self.write_jump_instruction(Comp::D, j);
        self.load_address_register(Reg::Sp);
        self.assign_value_to_selected_register(Dest::A, Comp::MMinusOne);
        self.assign_value_to_selected_register(Dest::M, Comp::Zero);
        self.write_label(label.as_str());
        self.label_count = self.label_count + 1;
        assert(self.pending() =~= old(self).pending() + compare_code(
            j,
            compare_label(old(self)@.label_count),
        ));
    }

    /// Translates `goto l`.
    fn jump_to_address(&mut self, l: &str)
        ensures
            final(self)@ == old(self)@,
            final(self).pending() == old(self).pending() + goto_code(l@),
    {
        self.load_symbol(l);
        self.write_jump_instruction(Comp::Zero, Cond::Jmp);
        assert(self.pending() =~= old(self).pending() + goto_code(l@));
    }

    /// Translates `if-goto l`.
    fn write_if_goto(&mut self, l: &str)
        ensures
            final(self)@ == old(self)@,
            final(self).pending() == old(self).pending() + if_goto_code(l@),
    {
        self.pop_into_register_d();
        self.load_symbol(l);
        self.write_jump_instruction(Comp::D, Cond::Jne);
        assert(self.pending() =~= old(self).pending() + if_goto_code(l@));
    }

    fn push_pointer_value(&mut self, r: Reg)
        ensures
            final(self)@ == old(self)@,
            final(self).pending() == old(self).pending() + push_pointer(r),
    {
        self.load_address_register(r);
        self.assign_value_to_selected_register(Dest::D, Comp::M);
        self.push_register_d();
        assert(self.pending() =~= old(self).pending() + push_pointer(r));
    }

    /// Translates `call f n` for a count `n` already read.
    fn handle_call_instruction(&mut self, f: &str, n: usize)
        requires
            old(self).function_frames.call < usize::MAX,
        ensures
            final(self)@ == (WriterState { call: old(self)@.call + 1, ..old(self)@ }),
            final(self).pending() == old(self).pending() + call_code(
                f@,
                n as nat,
                return_label(old(self)@.current, old(self)@.call),
            ),
    {
        let mut ret = self.current_function_executed.clone();
        ret.append("$ret.");
        let k = decimal_string(self.function_frames.call as u64);
        ret.append(k.as_str());
        let ghost start = self.pending();
        self.load_symbol(ret.as_str());
        self.assign_value_to_selected_register(Dest::D, Comp::A);
        self.push_register_d();
        self.push_pointer_value(Reg::Arg);
        self.push_pointer_value(Reg::Lcl);
        self.push_pointer_value(Reg::This);
        self.push_pointer_value(Reg::That);
        assert(self.pending() =~= start + save_frame(ret@));
        self.load_number(n as u64);
        self.assign_value_to_selected_register(Dest::D, Comp::A);
        self.load_number(5);
        self.assign_value_to_selected_register(Dest::D, Comp::DPlusA);
        self.load_address_register(Reg::Sp);
        self.assign_value_to_selected_register(Dest::D, Comp::MMinusD);
        self.load_address_register(Reg::Arg);
        self.assign_value_to_selected_register(Dest::M, Comp::D);
        self.jump_to_address(f);
        self.write_label(ret.as_str());
        self.function_frames.call = self.function_frames.call + 1;
        assert(self.pending() =~= old(self).pending() + call_code(f@, n as nat, ret@));
    }

    /// Translates `function f k` for a count `k` already read.
    fn handle_function_instruction(&mut self, f: &str, k: usize)
        ensures
            final(self)@ == (WriterState {
                call: if old(self)@.current == f@ {
                    old(self)@.call
                } else {
                    0
                },
                current: f@,
                ..old(self)@
            }),
            final(self).pending() == old(self).pending() + function_code(f@, k as nat),
    {
        let mut loop_label = String::from_str("LOOP_");
        loop_label.append(f);
        let mut end_loop_label = String::from_str("END_LOOP_");
        end_loop_label.append(f);
        self.write_label(f);
        self.load_address_register(Reg::Sp);
        self.assign_value_to_selected_register(Dest::D, Comp::M);
        self.load_address_register(Reg::Lcl);
        self.assign_value_to_selected_register(Dest::M, Comp::D);
        self.load_number(k as u64);
        self.assign_value_to_selected_register(Dest::D, Comp::A);
        self.load_symbol(end_loop_label.as_str());
        self.write_jump_instruction(Comp::D, Cond::Jeq);
        self.load_symbol("i");
        self.assign_value_to_selected_register(Dest::M, Comp::D);
        self.write_label(loop_label.as_str());
        self.load_address_register(Reg::Sp);
        self.assign_value_to_selected_register(Dest::A, Comp::M);
        self.assign_value_to_selected_register(Dest::M, Comp::Zero);
        self.load_address_register(Reg::Sp);
        self.assign_value_to_selected_register(Dest::M, Comp::MPlusOne);
        self.load_symbol("i");
        self.assign_value_to_selected_register(Dest::M, Comp::MMinusOne);
        self.assign_value_to_selected_register(Dest::D, Comp::M);
        self.load_symbol(loop_label.as_str());
        self.write_jump_instruction(Comp::D, Cond::Jgt);
        self.write_label(end_loop_label.as_str());
        if !same_text(self.current_function_executed.as_str(), f) {
            self.function_frames.call = 0;
        }
        self.current_function_executed = String::from_str(f);
        assert(self.pending() =~= old(self).pending() + function_code(f@, k as nat));
    }

    /// Sets `r` to the cell `k` below the callee's `LCL`.
    fn restore_pointer(&mut self, r: Reg, k: u64)
        ensures
            final(self)@ == old(self)@,
            final(self).pending() == old(self).pending() + restore_code(r, k as nat),
    {
        self.load_address_register(Reg::Lcl);
        self.assign_value_to_selected_register(Dest::D, Comp::M);
        self.load_number(k);
        self.assign_value_to_selected_register(Dest::A, Comp::DMinusA);
        self.assign_value_to_selected_register(Dest::D, Comp::M);
        self.load_address_register(r);
        self.assign_value_to_selected_register(Dest::M, Comp::D);
        assert(self.pending() =~= old(self).pending() + restore_code(r, k as nat));
    }

    /// Translates `return`.
    fn handle_return_instruction(&mut self)
        ensures
            final(self)@ == old(self)@,
            final(self).pending() == old(self).pending() + return_code(),
    {
        self.load_address_register(Reg::Lcl);
        self.assign_value_to_selected_register(Dest::D, Comp::M);
        self.load_number(5);
        self.assign_value_to_selected_register(Dest::A, Comp::DMinusA);
        self.assign_value_to_selected_register(Dest::D, Comp::M);
        self.load_symbol("return_address");
        self.assign_value_to_selected_register(Dest::M, Comp::D);
        self.load_address_register(Reg::Sp);
        self.assign_value_to_selected_register(Dest::A, Comp::MMinusOne);
        self.assign_value_to_selected_register(Dest::D, Comp::M);
        self.load_address_register(Reg::Arg);
        self.assign_value_to_selected_register(Dest::A, Comp::M);
        self.assign_value_to_selected_register(Dest::M, Comp::D);
        self.load_address_register(Reg::Arg);
        self.assign_value_to_selected_register(Dest::D, Comp::MPlusOne);
        self.load_address_register(Reg::Sp);
        self.assign_value_to_selected_register(Dest::M, Comp::D);
        self.restore_pointer(Reg::That, 1);
        self.restore_pointer(Reg::This, 2);
        self.restore_pointer(Reg::Arg, 4);
        self.restore_pointer(Reg::Lcl, 3);
        self.load_symbol("return_address");
        self.assign_value_to_selected_register(Dest::A, Comp::M);
        self.write_jump_instruction(Comp::Zero, Cond::Jmp);
        assert(self.pending() =~= old(self).pending() + return_code());
    }

    /// Translates one instruction, appending its target code to the pending
    /// output. On failure nothing changes.
    pub fn translate(&mut self, ins: &Instruction) -> (r: Result<(), Error>)
        requires
            counters_fit(old(self)@, *ins),
        ensures
            r is Ok <==> accepted(*ins),
            r is Ok ==> final(self)@ == next_state(old(self)@, *ins) && final(self).pending()
                == old(self).pending() + code_for(old(self)@, *ins),
            r matches Err(e) ==> error_for(e, *ins) && final(self)@ == old(self)@
                && final(self).pending() == old(self).pending(),
    {
        match ins {
            Instruction::Push { segment, offset } => {
                if *segment == Segment::Sp {
                    return Err(Error::InvalidSegment { segment: *segment });
                }
                self.push_memory_segment_onto_stack(*segment, offset.as_str());
            },
            Instruction::Pop { segment, offset } => {
                if *segment == Segment::Sp || *segment == Segment::Constant {
                    return Err(Error::InvalidSegment { segment: *segment });
                }
                self.pop_off_memory_segment_of_stack(*segment, offset.as_str());
            },
            Instruction::Arithmetic(op) => match op {
                Op::Add => self.convert_double_operand_instruction_to_hack_instruction_set(
                    Comp::DPlusM,
                ),
                Op::Sub => self.convert_double_operand_instruction_to_hack_instruction_set(
                    Comp::MMinusD,
                ),
                Op::And => self.convert_double_operand_instruction_to_hack_instruction_set(
                    Comp::DAndM,
                ),
                Op::Or => self.convert_double_operand_instruction_to_hack_instruction_set(
                    Comp::DOrM,
                ),
                Op::Neg => self.convert_single_operand_instruction_to_hack_instruction_set(
                    Comp::NegM,
                ),
                Op::Not => self.convert_single_operand_instruction_to_hack_instruction_set(
                    Comp::NotM,
                ),
                Op::Eq => self.convert_compare_instruction_to_hack_instruction_set(Cond::Jeq),
                Op::Lt => self.convert_compare_instruction_to_hack_instruction_set(Cond::Jlt),
                Op::Gt => self.convert_compare_instruction_to_hack_instruction_set(Cond::Jgt),
            },
            Instruction::Label(l) => {
                self.write_label(l.as_str());
                assert(self.pending() =~= old(self).pending() + seq![Line::Label(l@)]);
            },
            Instruction::Goto(l) => self.jump_to_address(l.as_str()),
            Instruction::IfGoto(l) => self.write_if_goto(l.as_str()),
            Instruction::Call { function, n_args } => {
                match read_count(n_args.as_str()) {
                    Ok(n) => self.handle_call_instruction(function.as_str(), n),
                    Err(e) => return Err(Error::ParseIntError(e)),
                }
            },
            Instruction::Function { name, n_vars } => {
                match read_count(n_vars.as_str()) {
                    Ok(k) => self.handle_function_instruction(name.as_str(), k),
                    Err(e) => return Err(Error::ParseIntError(e)),
                }
            },
            Instruction::Return => self.handle_return_instruction(),
        }
        Ok(())
    }

    /// Hands out the text of the pending output, one instruction per line,
    /// and clears it.
    pub fn flush(&mut self) -> (r: String)
        ensures
            r@ == text(old(self).pending()),
            final(self)@ == old(self)@,
            final(self).pending() == Seq::<Line>::empty(),
    {
        let r = render(&self.hack_instruction);
        self.hack_instruction = Vec::new();
        assert(self.pending() =~= Seq::<Line>::empty());
        r
    }
}

} // verus!
