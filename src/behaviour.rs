//! What the generated code does on the target machine.
use vstd::prelude::*;
use crate::count::{all_digits, count_value};
use crate::hack::{Comp, Cond, Dest, Line, SymV, decimal};
use crate::memory_segments::Reg;
use crate::instruction::{Instruction, Op, is_comparison, is_unary};
use crate::machine::{
    Layout, Machine, Outcome, bit_and, bit_or, cell, exec_lines, holds, is_word, lemma_exec_concat,
    lemma_run_straight, lemma_word_id, no_jumps, placed, reg_addr, resolve, run, word,
};
use crate::writer::{
    WriterState, assign, at_name, at_num, at_reg, binary_code, call_code, code_for, compare_code,
    compare_label, op_comp, op_cond, pop_into_d, push_d, push_pointer, restore_code, return_code,
    accepted, return_label, return_var, save_frame, unary_code,
};

verus! {

/// The stack pointer.
pub open spec fn sp(m: Machine) -> int {
    (m.ram)(0)
}

/// How an operation changes the stack height.
pub open spec fn stack_effect(op: Op) -> int {
    if is_unary(op) {
        0
    } else {
        -1
    }
}

/// The value that an operation leaves on top, from the top `y` and the
/// value below it `x` (only `y` for a one-operand operation). Truth is -1,
/// falsity 0.
pub open spec fn op_value(op: Op, x: int, y: int) -> int {
    match op {
        Op::Add => word(y + x),
        Op::Sub => word(x - y),
        Op::And => word(bit_and(y, x)),
        Op::Or => word(bit_or(y, x)),
        Op::Neg => word(-y),
        Op::Not => word(-y - 1),
        _ => if holds(op_cond(op), word(x - y)) {
            -1
        } else {
            0
        },
    }
}

proof fn lemma_straight_block(code: Seq<Line>, lay: Layout, m: Machine)
    requires
        no_jumps(code),
    ensures
        run(code, lay, 0, m) == Outcome::Fell(exec_lines(code, lay, m)),
{
    assert(code.subrange(0, code.len() as int) =~= code);
    lemma_run_straight(code, lay, 0, code.len() as int, m);
}

proof fn lemma_pop_into_d(lay: Layout, m: Machine)
    requires
        257 <= sp(m) < 0x8000,
        is_word((m.ram)(sp(m) - 1)),
    ensures
        ({
            let r = exec_lines(pop_into_d(), lay, m);
            &&& r.a == sp(m) - 1
            &&& r.d == (m.ram)(sp(m) - 1)
            &&& sp(r) == sp(m) - 1
            &&& forall|x: int| x != 0 ==> #[trigger] cell(r, x) == cell(m, x)
        }),
{
    reveal_with_fuel(exec_lines, 5);
    lemma_word_id(sp(m));
    lemma_word_id(sp(m) - 1);
    lemma_word_id((m.ram)(sp(m) - 1));
}

/// The value of an expression with `A` set to `at`.
pub open spec fn eval_at(c: Comp, m: Machine, at: int) -> int {
    crate::machine::eval(c, Machine { a: at, ..m })
}

proof fn lemma_unary(c: Comp, lay: Layout, m: Machine)
    requires
        257 <= sp(m) < 0x8000,
    ensures
        ({
            let r = exec_lines(unary_code(c), lay, m);
            &&& sp(r) == sp(m)
            &&& (r.ram)(sp(m) - 1) == word(eval_at(c, m, sp(m) - 1))
            &&& forall|x: int| x != sp(m) - 1 ==> #[trigger] cell(r, x) == cell(m, x)
        }),
{
    reveal_with_fuel(exec_lines, 4);
    lemma_word_id(sp(m) - 1);
}

proof fn lemma_word_range(v: int)
    ensures
        is_word(word(v)),
        word(word(v)) == word(v),
{
    assert(0 <= (v + 0x8000) % 0x10000 < 0x10000);
    lemma_word_id(word(v));
}

proof fn lemma_compare(j: Cond, l: Seq<char>, lay: Layout, m: Machine)
    requires
        258 <= sp(m) < 0x8000,
        is_word((m.ram)(sp(m) - 1)),
        is_word((m.ram)(sp(m) - 2)),
        placed(compare_code(j, l), lay),
        !all_digits(l),
    ensures
        run(compare_code(j, l), lay, 0, m) matches Outcome::Fell(r) && sp(r) == sp(m) - 1 && (
        r.ram)(sp(m) - 2) == if holds(j, word((m.ram)(sp(m) - 2) - (m.ram)(sp(m) - 1))) {
            -1
        } else {
            0
        },
{
    let code = compare_code(j, l);
    let s = sp(m);
    let x = (m.ram)(s - 2);
    let y = (m.ram)(s - 1);
    let mid = seq![
        crate::writer::at_reg(crate::memory_segments::Reg::Sp),
        crate::writer::assign(crate::hack::Dest::A, Comp::MMinusOne),
        crate::writer::assign(crate::hack::Dest::D, Comp::MMinusD),
        crate::writer::assign(crate::hack::Dest::M, Comp::MinusOne),
        crate::writer::at_name(l),
    ];
    assert(code.subrange(0, 9) =~= pop_into_d() + mid);
    assert(no_jumps(code.subrange(0, 9)));
    lemma_run_straight(code, lay, 0, 9, m);
    crate::machine::lemma_exec_concat(pop_into_d(), mid, lay, m);
    lemma_pop_into_d(lay, m);
    let m1 = exec_lines(pop_into_d(), lay, m);
    let m9 = exec_lines(mid, lay, m1);
    assert(code[13] == Line::Label(l));
    assert((lay.symbols)(l) == lay.base + 13);
    reveal_with_fuel(exec_lines, 6);
    lemma_word_id(s - 1);
    lemma_word_id(s - 2);
    lemma_word_id(-1);
    lemma_word_range(x - y);
    assert(m9.a == lay.base + 13);
    assert(cell(m9, 0) == s - 1);
    assert(m9.d == word(x - y));
    assert(cell(m9, s - 2) == -1);
    assert(code[9] == Line::Jump(Comp::D, j));
    if holds(j, word(x - y)) {
        assert(run(code, lay, 13, m9) == run(code, lay, 14, m9));
    } else {
        assert(no_jumps(code.subrange(10, 14)));
        lemma_run_straight(code, lay, 10, 4, m9);
        let tail = code.subrange(10, 14);
        let m14 = exec_lines(tail, lay, m9);
        assert(cell(m14, s - 2) == 0);
        assert(cell(m14, 0) == s - 1);
    }
}

proof fn lemma_push_d(lay: Layout, m: Machine)
    requires
        256 <= sp(m) < 0x7fff,
        is_word(m.d),
    ensures
        ({
            let r = exec_lines(push_d(), lay, m);
            &&& sp(r) == sp(m) + 1
            &&& cell(r, sp(m)) == m.d
            &&& forall|x: int| x != 0 && x != sp(m) ==> #[trigger] cell(r, x) == cell(m, x)
        }),
{
    reveal_with_fuel(exec_lines, 6);
    lemma_word_id(sp(m));
    lemma_word_id(sp(m) + 1);
    lemma_word_id(m.d);
}

proof fn lemma_push_pointer(p: Reg, lay: Layout, m: Machine)
    requires
        256 <= sp(m) < 0x7fff,
        is_word(cell(m, reg_addr(p))),
    ensures
        ({
            let r = exec_lines(push_pointer(p), lay, m);
            &&& sp(r) == sp(m) + 1
            &&& cell(r, sp(m)) == cell(m, reg_addr(p))
            &&& forall|x: int| x != 0 && x != sp(m) ==> #[trigger] cell(r, x) == cell(m, x)
        }),
{
    let head = seq![at_reg(p), assign(Dest::D, Comp::M)];
    assert(push_pointer(p) == head + push_d());
    lemma_exec_concat(head, push_d(), lay, m);
    reveal_with_fuel(exec_lines, 3);
    let m1 = exec_lines(head, lay, m);
    lemma_word_id(cell(m, reg_addr(p)));
    assert(m1.d == cell(m, reg_addr(p)));
    assert(sp(m1) == sp(m));
    lemma_push_d(lay, m1);
    assert forall|x: int| x != 0 && x != sp(m) implies #[trigger] cell(
        exec_lines(push_pointer(p), lay, m),
        x,
    ) == cell(m, x) by {
        assert(cell(m1, x) == cell(m, x));
    }
}

/// The pointer cells hold words.
pub open spec fn pointers_are_words(m: Machine) -> bool {
    forall|x: int| 1 <= x <= 4 ==> is_word(#[trigger] cell(m, x))
}

proof fn lemma_save_frame(ret: Seq<char>, lay: Layout, m: Machine)
    requires
        256 <= sp(m),
        sp(m) + 5 < 0x8000,
        is_word(resolve(lay, SymV::Name(ret))),
        pointers_are_words(m),
    ensures
        ({
            let r = exec_lines(save_frame(ret), lay, m);
            let s = sp(m);
            &&& sp(r) == s + 5
            &&& cell(r, s) == resolve(lay, SymV::Name(ret))
            &&& cell(r, s + 1) == cell(m, 2)
            &&& cell(r, s + 2) == cell(m, 1)
            &&& cell(r, s + 3) == cell(m, 3)
            &&& cell(r, s + 4) == cell(m, 4)
            &&& forall|x: int| x != 0 && !(s <= x < s + 5) ==> #[trigger] cell(r, x) == cell(m, x)
        }),
{
    let s = sp(m);
    let v = resolve(lay, SymV::Name(ret));
    let head = seq![at_name(ret), assign(Dest::D, Comp::A)];
    let x1 = head + push_d();
    let x2 = x1 + push_pointer(Reg::Arg);
    let x3 = x2 + push_pointer(Reg::Lcl);
    let x4 = x3 + push_pointer(Reg::This);
    assert(save_frame(ret) == x4 + push_pointer(Reg::That));
    reveal_with_fuel(exec_lines, 3);
    lemma_word_id(v);
    let m0 = exec_lines(head, lay, m);
    assert(m0.d == v && m0.ram == m.ram);
    lemma_exec_concat(head, push_d(), lay, m);
    lemma_push_d(lay, m0);
    let m1 = exec_lines(x1, lay, m);
    assert(cell(m1, 2) == cell(m, 2) && cell(m1, 1) == cell(m, 1));
    assert(cell(m1, 3) == cell(m, 3) && cell(m1, 4) == cell(m, 4));
    assert(is_word(cell(m, 2)) && is_word(cell(m, 1)) && is_word(cell(m, 3)) && is_word(
        cell(m, 4),
    ));
    lemma_exec_concat(x1, push_pointer(Reg::Arg), lay, m);
    lemma_push_pointer(Reg::Arg, lay, m1);
    let m2 = exec_lines(x2, lay, m);
    assert(cell(m2, 1) == cell(m, 1) && cell(m2, 3) == cell(m, 3) && cell(m2, 4) == cell(m, 4));
    lemma_exec_concat(x2, push_pointer(Reg::Lcl), lay, m);
    lemma_push_pointer(Reg::Lcl, lay, m2);
    let m3 = exec_lines(x3, lay, m);
    assert(cell(m3, 3) == cell(m, 3) && cell(m3, 4) == cell(m, 4));
    lemma_exec_concat(x3, push_pointer(Reg::This), lay, m);
    lemma_push_pointer(Reg::This, lay, m3);
    let m4 = exec_lines(x4, lay, m);
    assert(cell(m4, 4) == cell(m, 4));
    lemma_exec_concat(x4, push_pointer(Reg::That), lay, m);
    lemma_push_pointer(Reg::That, lay, m4);
    let r = exec_lines(save_frame(ret), lay, m);
    assert(cell(r, s) == cell(m4, s));
    assert(cell(m4, s) == cell(m3, s));
    assert(cell(m3, s) == cell(m2, s));
    assert(cell(m2, s) == cell(m1, s));
    assert(cell(r, s + 1) == cell(m4, s + 1));
    assert(cell(m4, s + 1) == cell(m3, s + 1));
    assert(cell(m3, s + 1) == cell(m2, s + 1));
    assert(cell(r, s + 2) == cell(m4, s + 2));
    assert(cell(m4, s + 2) == cell(m3, s + 2));
    assert(cell(r, s + 3) == cell(m4, s + 3));
    assert forall|x: int| x != 0 && !(s <= x < s + 5) implies #[trigger] cell(r, x) == cell(m, x) by {
        assert(cell(r, x) == cell(m4, x));
        assert(cell(m4, x) == cell(m3, x));
        assert(cell(m3, x) == cell(m2, x));
        assert(cell(m2, x) == cell(m1, x));
        assert(cell(m1, x) == cell(m0, x));
    }
}

proof fn lemma_call(f: Seq<char>, n: nat, ret: Seq<char>, lay: Layout, m: Machine)
    requires
        256 <= sp(m) - n,
        sp(m) + 5 < 0x8000,
        pointers_are_words(m),
        placed(call_code(f, n, ret), lay),
        !all_digits(ret),
        0 <= lay.base,
        lay.base + 46 <= 0x8000,
        resolve(lay, SymV::Name(f)) != lay.base + 45,
    ensures
        ({
            let s = sp(m);
            run(call_code(f, n, ret), lay, 0, m) matches Outcome::Jumped(t, r) && t == resolve(
                lay,
                SymV::Name(f),
            ) && sp(r) == s + 5 && cell(r, 2) == s - n && cell(r, s) == lay.base + 45 && cell(
                r,
                s + 1,
            ) == cell(m, 2) && cell(r, s + 2) == cell(m, 1) && cell(r, s + 3) == cell(m, 3)
                && cell(r, s + 4) == cell(m, 4) && cell(r, 1) == cell(m, 1) && cell(r, 3) == cell(
                m,
                3,
            ) && cell(r, 4) == cell(m, 4)
        }),
{
    let s = sp(m);
    let code = call_code(f, n, ret);
    assert(code.len() == 46);
    assert(code[45] == Line::Label(ret));
    assert(resolve(lay, SymV::Name(ret)) == lay.base + 45);
    let tail9 = seq![
        at_num(n),
        assign(Dest::D, Comp::A),
        at_num(5),
        assign(Dest::D, Comp::DPlusA),
        at_reg(Reg::Sp),
        assign(Dest::D, Comp::MMinusD),
        at_reg(Reg::Arg),
        assign(Dest::M, Comp::D),
        at_name(f),
    ];
    assert(code.subrange(0, 44) =~= save_frame(ret) + tail9);
    assert(no_jumps(code.subrange(0, 44)));
    lemma_run_straight(code, lay, 0, 44, m);
    lemma_save_frame(ret, lay, m);
    lemma_exec_concat(save_frame(ret), tail9, lay, m);
    let mf = exec_lines(save_frame(ret), lay, m);
    reveal_with_fuel(exec_lines, 10);
    lemma_word_id(n as int);
    lemma_word_id(n as int + 5);
    lemma_word_id(s - n);
    lemma_word_id(s + 5);
    let m44 = exec_lines(tail9, lay, mf);
    assert(sp(m44) == s + 5);
    assert(cell(m44, 2) == s - n);
    assert(cell(m44, s) == cell(mf, s));
    assert(cell(m44, s + 1) == cell(mf, s + 1));
    assert(cell(m44, s + 2) == cell(mf, s + 2));
    assert(cell(m44, s + 3) == cell(mf, s + 3));
    assert(cell(m44, s + 4) == cell(mf, s + 4));
    assert(cell(m44, 1) == cell(mf, 1));
    assert(cell(m44, 3) == cell(mf, 3));
    assert(cell(m44, 4) == cell(mf, 4));
    assert(code[44] == Line::Jump(Comp::Zero, Cond::Jmp));
    assert(m44.a == resolve(lay, SymV::Name(f)));
}

proof fn lemma_restore(p: Reg, k: nat, lay: Layout, m: Machine)
    requires
        256 <= cell(m, 1) - k,
        cell(m, 1) < 0x8000,
        1 <= k <= 5,
        is_word(cell(m, cell(m, 1) - k)),
    ensures
        ({
            let r = exec_lines(restore_code(p, k), lay, m);
            &&& cell(r, reg_addr(p)) == cell(m, cell(m, 1) - k)
            &&& forall|x: int| x != reg_addr(p) ==> #[trigger] cell(r, x) == cell(m, x)
        }),
{
    reveal_with_fuel(exec_lines, 8);
    lemma_word_id(cell(m, 1));
    lemma_word_id(k as int);
    lemma_word_id(cell(m, 1) - k);
    lemma_word_id(cell(m, cell(m, 1) - k));
}

/// The cells that a callee's frame holds below its `LCL`, and the return
/// value on top, are words.
pub open spec fn frame_is_words(m: Machine) -> bool {
    &&& forall|k: int| 1 <= k <= 5 ==> is_word(#[trigger] cell(m, cell(m, 1) - k))
    &&& is_word(cell(m, sp(m) - 1))
}

proof fn lemma_return(lay: Layout, m: Machine)
    requires
        5 <= (lay.symbols)(return_var()) < 256,
        256 <= cell(m, 2),
        cell(m, 2) + 5 <= cell(m, 1),
        cell(m, 1) < sp(m) < 0x8000,
        frame_is_words(m),
    ensures
        ({
            let l = cell(m, 1);
            run(return_code(), lay, 0, m) matches Outcome::Jumped(t, r) && t == cell(m, l - 5)
                && sp(r) == cell(m, 2) + 1 && cell(r, cell(m, 2)) == cell(m, sp(m) - 1) && cell(
                r,
                4,
            ) == cell(m, l - 1) && cell(r, 3) == cell(m, l - 2) && cell(r, 2) == cell(m, l - 4)
                && cell(r, 1) == cell(m, l - 3)
        }),
{
    let l = cell(m, 1);
    let arg = cell(m, 2);
    let s = sp(m);
    let rv = (lay.symbols)(return_var());
    reveal_strlit("return_address");
    assert(return_var()[0] == 'r');
    assert(!all_digits(return_var()));
    assert(is_word(cell(m, l - 5)));
    assert(is_word(cell(m, l - 1)) && is_word(cell(m, l - 2)));
    assert(is_word(cell(m, l - 3)) && is_word(cell(m, l - 4)));
    let code = return_code();
    let r1 = seq![
        at_reg(Reg::Lcl),
        assign(Dest::D, Comp::M),
        at_num(5),
        assign(Dest::A, Comp::DMinusA),
        assign(Dest::D, Comp::M),
        at_name(return_var()),
        assign(Dest::M, Comp::D),
    ];
    let r2 = seq![
        at_reg(Reg::Sp),
        assign(Dest::A, Comp::MMinusOne),
        assign(Dest::D, Comp::M),
        at_reg(Reg::Arg),
        assign(Dest::A, Comp::M),
        assign(Dest::M, Comp::D),
    ];
    let r3 = seq![
        at_reg(Reg::Arg),
        assign(Dest::D, Comp::MPlusOne),
        at_reg(Reg::Sp),
        assign(Dest::M, Comp::D),
    ];
    let r4 = seq![at_name(return_var()), assign(Dest::A, Comp::M)];
    let y1 = r1 + r2;
    let y2 = y1 + r3;
    let y3 = y2 + restore_code(Reg::That, 1);
    let y4 = y3 + restore_code(Reg::This, 2);
    let y5 = y4 + restore_code(Reg::Arg, 4);
    let y6 = y5 + restore_code(Reg::Lcl, 3);
    assert(code.len() == 48);
    assert(code.subrange(0, 47) =~= y6 + r4);
    assert(no_jumps(code.subrange(0, 47)));
    lemma_run_straight(code, lay, 0, 47, m);
    reveal_with_fuel(exec_lines, 8);
    lemma_word_id(l);
    lemma_word_id(5);
    lemma_word_id(l - 5);
    lemma_word_id(s);
    lemma_word_id(s - 1);
    lemma_word_id(arg);
    lemma_word_id(arg + 1);
    lemma_word_id(cell(m, s - 1));
    let m1 = exec_lines(r1, lay, m);
    assert(cell(m1, rv) == cell(m, l - 5));
    assert(forall|x: int| x != rv ==> #[trigger] cell(m1, x) == cell(m, x));
    lemma_exec_concat(r1, r2, lay, m);
    let m2 = exec_lines(y1, lay, m);
    assert(cell(m2, arg) == cell(m, s - 1));
    assert(forall|x: int| x != arg ==> #[trigger] cell(m2, x) == cell(m1, x));
    lemma_exec_concat(y1, r3, lay, m);
    let m3 = exec_lines(y2, lay, m);
    assert(sp(m3) == arg + 1);
    assert(forall|x: int| x != 0 ==> #[trigger] cell(m3, x) == cell(m2, x));
    assert(cell(m3, 1) == l);
    assert(cell(m3, l - 1) == cell(m, l - 1));
    assert(cell(m3, l - 2) == cell(m, l - 2));
    assert(cell(m3, l - 3) == cell(m, l - 3));
    assert(cell(m3, l - 4) == cell(m, l - 4));
    assert(cell(m3, rv) == cell(m, l - 5));
    lemma_exec_concat(y2, restore_code(Reg::That, 1), lay, m);
    lemma_restore(Reg::That, 1, lay, m3);
    let m4 = exec_lines(y3, lay, m);
    assert(cell(m4, 1) == l);
    assert(cell(m4, l - 2) == cell(m, l - 2));
    lemma_exec_concat(y3, restore_code(Reg::This, 2), lay, m);
    lemma_restore(Reg::This, 2, lay, m4);
    let m5 = exec_lines(y4, lay, m);
    assert(cell(m5, 1) == l);
    assert(cell(m5, l - 4) == cell(m, l - 4));
    lemma_exec_concat(y4, restore_code(Reg::Arg, 4), lay, m);
    lemma_restore(Reg::Arg, 4, lay, m5);
    let m6 = exec_lines(y5, lay, m);
    assert(cell(m6, 1) == l);
    assert(cell(m6, l - 3) == cell(m, l - 3));
    lemma_exec_concat(y5, restore_code(Reg::Lcl, 3), lay, m);
    lemma_restore(Reg::Lcl, 3, lay, m6);
    let m7 = exec_lines(y6, lay, m);
    lemma_exec_concat(y6, r4, lay, m);
    let m8 = exec_lines(y6 + r4, lay, m);
    assert(cell(m7, rv) == cell(m, l - 5));
    assert(m8.a == cell(m, l - 5));
    assert(m8.ram == m7.ram);
    assert(cell(m7, 4) == cell(m, l - 1));
    assert(cell(m7, 3) == cell(m, l - 2));
    assert(cell(m7, 2) == cell(m, l - 4));
    assert(cell(m7, 1) == cell(m, l - 3));
    assert(cell(m7, 0) == arg + 1);
    assert(cell(m7, arg) == cell(m, s - 1));
    assert(code[47] == Line::Jump(Comp::Zero, Cond::Jmp));
}

/// Arithmetic and logical operations keep the stack discipline: run from a
/// state with at least two values on the stack, the code of `op` ends by
/// falling through, with the stack height changed by its arity (0 for
/// `neg` and `not`, -1 for the others) and the result on top.
pub proof fn lemma_stack_height(w: WriterState, op: Op, lay: Layout, m: Machine)
    requires
        258 <= sp(m) < 0x8000,
        is_word((m.ram)(sp(m) - 1)),
        is_word((m.ram)(sp(m) - 2)),
        placed(code_for(w, Instruction::Arithmetic(op)), lay),
    ensures
        run(code_for(w, Instruction::Arithmetic(op)), lay, 0, m) matches Outcome::Fell(r) && sp(r)
            == sp(m) + stack_effect(op) && (r.ram)(sp(r) - 1) == op_value(
            op,
            (m.ram)(sp(m) - 2),
            (m.ram)(sp(m) - 1),
        ),
{
    let code = code_for(w, Instruction::Arithmetic(op));
    let s = sp(m);
    let x = (m.ram)(s - 2);
    let y = (m.ram)(s - 1);
    if is_unary(op) {
        assert(code == unary_code(op_comp(op)));
        lemma_straight_block(code, lay, m);
        lemma_unary(op_comp(op), lay, m);
        lemma_word_id(y);
    } else if !is_comparison(op) {
        assert(code == binary_code(op_comp(op)));
        let tail = seq![
            crate::writer::at_reg(crate::memory_segments::Reg::Sp),
            crate::writer::assign(crate::hack::Dest::A, Comp::MMinusOne),
            crate::writer::assign(crate::hack::Dest::M, op_comp(op)),
        ];
        assert(code == pop_into_d() + tail);
        lemma_straight_block(code, lay, m);
        crate::machine::lemma_exec_concat(pop_into_d(), tail, lay, m);
        lemma_pop_into_d(lay, m);
        let m1 = exec_lines(pop_into_d(), lay, m);
        assert(cell(m1, s - 2) == x);
        reveal_with_fuel(exec_lines, 4);
        lemma_word_id(s - 1);
        lemma_word_id(s - 2);
        assert(tail == unary_code(op_comp(op)));
    } else {
        let k = w.label_count;
        let l = compare_label(k);
        assert(code == compare_code(op_cond(op), l));
        reveal_strlit("LABEL.");
        assert(l[0] == 'L');
        assert(!all_digits(l));
        lemma_compare(op_cond(op), l, lay, m);
    }
}

/// The machine at the end of a run.
pub open spec fn final_machine(o: Outcome) -> Machine {
    match o {
        Outcome::Fell(m) => m,
        Outcome::Jumped(_, m) => m,
    }
}

/// The callee, run from the state `entry` in which the call left the
/// machine, reached `at_return` with `LCL` set to the `SP` it found (as its
/// `function` prologue does), `ARG` and the saved frame untouched, and at
/// least one value, a word, pushed above its locals.
pub open spec fn callee_keeps_frame(entry: Machine, at_return: Machine) -> bool {
    &&& cell(at_return, 1) == sp(entry)
    &&& cell(at_return, 2) == cell(entry, 2)
    &&& forall|k: int| 1 <= k <= 5 ==> #[trigger] cell(at_return, sp(entry) - k) == cell(entry, sp(entry) - k)
    &&& sp(entry) < sp(at_return) < 0x8000
    &&& is_word(cell(at_return, sp(at_return) - 1))
}

pub open spec fn call_target(ins: Instruction) -> Seq<char> {
    match ins {
        Instruction::Call { function, .. } => function@,
        _ => Seq::empty(),
    }
}

pub open spec fn call_args(ins: Instruction) -> nat {
    match ins {
        Instruction::Call { n_args, .. } => count_value(n_args@),
        _ => 0,
    }
}

/// Calls and returns balance. Run the code of `call f n` from a state with
/// the `n` arguments on top of the stack; it jumps to `f`. Let the callee
/// keep the frame (see `callee_keeps_frame`) and run the code of `return`.
/// It jumps back to the label declared right after the call, leaving
/// exactly one value above the caller's argument base (`SP` before the call
/// less `n`): the callee's top, in place of the arguments and the frame;
/// `LCL`, `ARG`, `THIS` and `THAT` are the caller's again.
pub proof fn lemma_call_return_balance(
    w: WriterState,
    ins: Instruction,
    lay: Layout,
    ret_lay: Layout,
    m: Machine,
    callee: Machine,
)
    requires
        ins is Call,
        accepted(ins),
        placed(code_for(w, ins), lay),
        0 <= lay.base,
        lay.base + 46 <= 0x8000,
        resolve(lay, SymV::Name(call_target(ins))) != lay.base + 45,
        ret_lay.symbols == lay.symbols,
        5 <= (lay.symbols)(return_var()) < 256,
        256 <= sp(m) - call_args(ins),
        sp(m) + 5 < 0x8000,
        pointers_are_words(m),
        callee_keeps_frame(final_machine(run(code_for(w, ins), lay, 0, m)), callee),
    ensures
        run(code_for(w, ins), lay, 0, m) matches Outcome::Jumped(t, _) && t == resolve(
            lay,
            SymV::Name(call_target(ins)),
        ),
        code_for(w, ins).last() == Line::Label(return_label(w.current, w.call)),
        ({
            let base = sp(m) - call_args(ins);
            run(return_code(), ret_lay, 0, callee) matches Outcome::Jumped(t, r) && t == (
            lay.symbols)(return_label(w.current, w.call)) && sp(r) == base + 1 && cell(r, base)
                == cell(callee, sp(callee) - 1) && cell(r, 1) == cell(m, 1) && cell(r, 2) == cell(
                m,
                2,
            ) && cell(r, 3) == cell(m, 3) && cell(r, 4) == cell(m, 4)
        }),
{
    let f = call_target(ins);
    let n = call_args(ins);
    let ret = return_label(w.current, w.call);
    let s = sp(m);
    assert(code_for(w, ins) == call_code(f, n, ret));
    reveal_strlit("$ret.");
    assert(ret == (w.current + "$ret."@) + decimal(w.call));
    assert(ret[w.current.len() as int] == '$');
    assert(!all_digits(ret));
    lemma_call(f, n, ret, lay, m);
    let entry = final_machine(run(code_for(w, ins), lay, 0, m));
    assert(call_code(f, n, ret)[45] == Line::Label(ret));
    assert((lay.symbols)(ret) == lay.base + 45);
    let l = cell(callee, 1);
    assert(l == s + 5);
    assert(cell(callee, l - 1) == cell(entry, s + 4));
    assert(cell(callee, l - 2) == cell(entry, s + 3));
    assert(cell(callee, l - 3) == cell(entry, s + 2));
    assert(cell(callee, l - 4) == cell(entry, s + 1));
    assert(cell(callee, l - 5) == cell(entry, s));
    assert(is_word(cell(m, 1)) && is_word(cell(m, 2)) && is_word(cell(m, 3)) && is_word(
        cell(m, 4),
    ));
    assert forall|k: int| 1 <= k <= 5 implies is_word(#[trigger] cell(callee, cell(callee, 1) - k)) by {
        if k == 1 {
        } else if k == 2 {
        } else if k == 3 {
        } else if k == 4 {
        } else {
        }
    }
    lemma_return(ret_lay, callee);
}

} // verus!
