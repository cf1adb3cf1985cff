//! Properties of whole runs of the generator, proved from the contracts of
//! its parts.
use vstd::prelude::*;
use crate::hack::{Line, decimal, digit_char};
use crate::instruction::{Instruction, is_comparison};
use crate::memory_segments::Segment;
use crate::writer::{
    WriterState, at_name, code_for, compare_label, next_state, pop_code, push_code,
    return_label, static_name,
};

verus! {

/// The state after translating `prog` from state `w`, each instruction in
/// turn (as `Writer::translate` moves it).
pub open spec fn state_after(w: WriterState, prog: Seq<Instruction>) -> WriterState
    decreases prog.len(),
{
    if prog.len() == 0 {
        w
    } else {
        next_state(state_after(w, prog.drop_last()), prog.last())
    }
}

/// The target code of the instruction at position `i` of `prog`.
pub open spec fn code_at(w: WriterState, prog: Seq<Instruction>, i: int) -> Seq<Line> {
    code_for(state_after(w, prog.take(i)), prog[i])
}

pub open spec fn is_comparison_at(prog: Seq<Instruction>, i: int) -> bool {
    prog[i] matches Instruction::Arithmetic(op) && is_comparison(op)
}

proof fn lemma_prefix_cancel(p: Seq<char>, x: Seq<char>, y: Seq<char>)
    requires
        p + x == p + y,
    ensures
        x == y,
{
    assert(x =~= (p + x).subrange(p.len() as int, (p + x).len() as int));
    assert(y =~= (p + y).subrange(p.len() as int, (p + y).len() as int));
}

proof fn lemma_decimal_len(n: nat)
    ensures
        decimal(n).len() >= 1,
        n >= 10 ==> decimal(n).len() >= 2,
    decreases n,
{
    if n >= 10 {
        lemma_decimal_len(n / 10);
    }
}

/// Different numbers have different decimal forms.
pub proof fn lemma_decimal_injective(n: nat, m: nat)
    requires
        decimal(n) == decimal(m),
    ensures
        n == m,
    decreases n,
{
    lemma_decimal_len(n);
    lemma_decimal_len(m);
    if n < 10 && m < 10 {
        assert(decimal(n)[0] == digit_char(n));
        assert(decimal(m)[0] == digit_char(m));
    } else if n >= 10 && m >= 10 {
        assert(decimal(n).drop_last() == decimal(n / 10));
        assert(decimal(m).drop_last() == decimal(m / 10));
        lemma_decimal_injective(n / 10, m / 10);
        assert(decimal(n).last() == digit_char(n % 10));
        assert(decimal(m).last() == digit_char(m % 10));
    }
}

proof fn lemma_label_count_grows(w: WriterState, prog: Seq<Instruction>, i: int, j: int)
    requires
        0 <= i <= j <= prog.len(),
    ensures
        state_after(w, prog.take(i)).label_count <= state_after(w, prog.take(j)).label_count,
        i < j && is_comparison_at(prog, i) ==> state_after(w, prog.take(i)).label_count
            < state_after(w, prog.take(j)).label_count,
    decreases j - i,
{
    if i < j {
        lemma_label_count_grows(w, prog, i, j - 1);
        assert(prog.take(j).drop_last() =~= prog.take(j - 1));
        assert(prog.take(j).last() == prog[j - 1]);
    }
}

/// Comparison labels are unique in a run: the comparisons at two different
/// positions of an instruction sequence, translated in turn from any state,
/// declare different branch labels.
pub proof fn lemma_comparison_labels_distinct(
    w: WriterState,
    prog: Seq<Instruction>,
    i: int,
    j: int,
)
    requires
        0 <= i < j < prog.len(),
        is_comparison_at(prog, i),
        is_comparison_at(prog, j),
    ensures
        code_at(w, prog, i).last() == Line::Label(
            compare_label(state_after(w, prog.take(i)).label_count),
        ),
        code_at(w, prog, j).last() == Line::Label(
            compare_label(state_after(w, prog.take(j)).label_count),
        ),
        code_at(w, prog, i).last() != code_at(w, prog, j).last(),
{
    let a = state_after(w, prog.take(i)).label_count;
    let b = state_after(w, prog.take(j)).label_count;
    lemma_label_count_grows(w, prog, i, j);
    if compare_label(a) == compare_label(b) {
        lemma_prefix_cancel("LABEL."@, decimal(a), decimal(b));
        lemma_decimal_injective(a, b);
    }
}

pub open spec fn is_call_at(prog: Seq<Instruction>, i: int) -> bool {
    prog[i] is Call
}

/// No `function` instruction stands at positions `i` to `j - 1`.
pub open spec fn one_body(prog: Seq<Instruction>, i: int, j: int) -> bool {
    forall|k: int| i <= k < j ==> !(#[trigger] prog[k] is Function)
}

proof fn lemma_calls_grow(w: WriterState, prog: Seq<Instruction>, i: int, j: int)
    requires
        0 <= i <= j <= prog.len(),
        one_body(prog, i, j),
    ensures
        state_after(w, prog.take(i)).current == state_after(w, prog.take(j)).current,
        state_after(w, prog.take(i)).call <= state_after(w, prog.take(j)).call,
        i < j && is_call_at(prog, i) ==> state_after(w, prog.take(i)).call < state_after(
            w,
            prog.take(j),
        ).call,
    decreases j - i,
{
    if i < j {
        lemma_calls_grow(w, prog, i, j - 1);
        assert(prog.take(j).drop_last() =~= prog.take(j - 1));
        assert(prog.take(j).last() == prog[j - 1]);
        assert(!(prog[j - 1] is Function));
    }
}

/// Return addresses are unique within a function body: two calls at
/// different positions with no `function` instruction between them, to
/// whatever callees, declare different return-address labels.
pub proof fn lemma_return_labels_distinct(w: WriterState, prog: Seq<Instruction>, i: int, j: int)
    requires
        0 <= i < j < prog.len(),
        is_call_at(prog, i),
        is_call_at(prog, j),
        one_body(prog, i, j),
    ensures
        code_at(w, prog, i).last() == Line::Label(
            return_label(
                state_after(w, prog.take(i)).current,
                state_after(w, prog.take(i)).call,
            ),
        ),
        code_at(w, prog, j).last() == Line::Label(
            return_label(
                state_after(w, prog.take(j)).current,
                state_after(w, prog.take(j)).call,
            ),
        ),
        code_at(w, prog, i).last() != code_at(w, prog, j).last(),
{
    let si = state_after(w, prog.take(i));
    let sj = state_after(w, prog.take(j));
    lemma_calls_grow(w, prog, i, j);
    if return_label(si.current, si.call) == return_label(sj.current, sj.call) {
        assert(return_label(si.current, si.call) == (si.current + "$ret."@) + decimal(si.call));
        assert(return_label(sj.current, sj.call) == (si.current + "$ret."@) + decimal(sj.call));
        lemma_prefix_cancel(si.current + "$ret."@, decimal(si.call), decimal(sj.call));
        lemma_decimal_injective(si.call, sj.call);
    }
}

/// Static cells are private to their file and offset: `push static` and
/// `pop static` address the symbol `<file>.<offset>`, and two files with
/// different names never share a cell for the same offset, nor one file
/// for two offsets.
pub proof fn lemma_static_cells_disjoint(f1: Seq<char>, f2: Seq<char>, o1: Seq<char>, o2: Seq<char>)
    ensures
        push_code(Segment::Static, o1, f1)[0] == at_name(static_name(f1, o1)),
        pop_code(Segment::Static, o1, f1)[0] == at_name(static_name(f1, o1)),
        f1 != f2 ==> static_name(f1, o1) != static_name(f2, o1),
        o1 != o2 ==> static_name(f1, o1) != static_name(f1, o2),
{
    if f1 != f2 && static_name(f1, o1) == static_name(f2, o1) {
        let s = static_name(f1, o1);
        assert(s == (f1 + "."@) + o1);
        assert(s == (f2 + "."@) + o1);
        assert(s.len() == f1.len() + "."@.len() + o1.len());
        assert(s.len() == f2.len() + "."@.len() + o1.len());
        assert(f1.len() == f2.len());
        assert(f1 =~= s.subrange(0, f1.len() as int));
        assert(f2 =~= s.subrange(0, f2.len() as int));
    }
    if o1 != o2 && static_name(f1, o1) == static_name(f1, o2) {
        assert(static_name(f1, o1) == (f1 + "."@) + o1);
        assert(static_name(f1, o2) == (f1 + "."@) + o2);
        lemma_prefix_cancel(f1 + "."@, o1, o2);
    }
}

} // verus!
