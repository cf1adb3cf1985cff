//! Splitting a source line into its words, comments left out.
use vstd::prelude::*;

verus! {

/// The characters with Unicode's `White_Space` property.
pub open spec fn is_space(c: char) -> bool {
    let u = c as u32;
    ||| 0x9 <= u <= 0xd
    ||| u == 0x20
    ||| u == 0x85
    ||| u == 0xa0
    ||| u == 0x1680
    ||| 0x2000 <= u <= 0x200a
    ||| u == 0x2028
    ||| u == 0x2029
    ||| u == 0x202f
    ||| u == 0x205f
    ||| u == 0x3000
}

/// The spans `(start, end)` of the maximal runs of non-space characters.
pub open spec fn word_spans(s: Seq<char>) -> Seq<(int, int)>
    decreases s.len(),
{
    if s.len() == 0 {
        Seq::empty()
    } else {
        let w = word_spans(s.drop_last());
        let i = s.len() - 1;
        if is_space(s[i]) {
            w
        } else if i > 0 && !is_space(s[i - 1]) {
            w.update(w.len() - 1, (w.last().0, s.len() as int))
        } else {
            w.push((i, s.len() as int))
        }
    }
}

/// The words of a line: its maximal runs of non-space characters.
pub open spec fn words(s: Seq<char>) -> Seq<Seq<char>> {
    word_spans(s).map_values(|p: (int, int)| s.subrange(p.0, p.1))
}

/// The index of the first word from `k` on that opens a comment (starts
/// with `/`), or the number of words.
pub open spec fn first_comment_from(ws: Seq<Seq<char>>, k: int) -> int
    decreases ws.len() - k,
{
    if k < 0 || k >= ws.len() {
        ws.len() as int
    } else if ws[k].len() > 0 && ws[k][0] == '/' {
        k
    } else {
        first_comment_from(ws, k + 1)
    }
}

/// The words of a line before its comment.
pub open spec fn code_words(s: Seq<char>) -> Seq<Seq<char>> {
    let ws = words(s);
    ws.subrange(0, first_comment_from(ws, 0))
}

pub open spec fn views(v: Seq<String>) -> Seq<Seq<char>> {
    v.map_values(|x: String| x@)
}

proof fn lemma_spans_valid(s: Seq<char>)
    ensures
        forall|k: int|
            0 <= k < word_spans(s).len() ==> 0 <= #[trigger] word_spans(s)[k].0 < word_spans(
                s,
            )[k].1 <= s.len(),
        s.len() > 0 && !is_space(s.last()) ==> word_spans(s).len() > 0 && word_spans(s).last().1
            == s.len(),
    decreases s.len(),
{
    if s.len() > 0 {
        let t = s.drop_last();
        lemma_spans_valid(t);
        let w = word_spans(t);
        let i = s.len() - 1;
        if i > 0 {
            assert(t.last() == s[i - 1]);
        }
        if is_space(s[i]) {
        } else if i > 0 && !is_space(s[i - 1]) {
            let u = w.update(w.len() - 1, (w.last().0, s.len() as int));
            assert forall|k: int| 0 <= k < u.len() implies 0 <= #[trigger] u[k].0 < u[k].1
                <= s.len() by {
                if k != w.len() - 1 {
                    assert(u[k] == w[k]);
                }
            }
        } else {
            let u = w.push((i, s.len() as int));
            assert forall|k: int| 0 <= k < u.len() implies 0 <= #[trigger] u[k].0 < u[k].1
                <= s.len() by {
                if k != w.len() {
                    assert(u[k] == w[k]);
                }
            }
        }
    }
}

proof fn lemma_first_comment_bounds(ws: Seq<Seq<char>>, k: int)
    requires
        0 <= k <= ws.len(),
    ensures
        k <= first_comment_from(ws, k) <= ws.len(),
    decreases ws.len() - k,
{
    if k < ws.len() && !(ws[k].len() > 0 && ws[k][0] == '/') {
        lemma_first_comment_bounds(ws, k + 1);
    }
}

pub open spec fn spans_view(v: Seq<(usize, usize)>) -> Seq<(int, int)> {
    v.map_values(|p: (usize, usize)| (p.0 as int, p.1 as int))
}

fn is_space_char(c: char) -> (r: bool)
    ensures
        r == is_space(c),
{
    let u = c as u32;
    (0x9 <= u && u <= 0xd) || u == 0x20 || u == 0x85 || u == 0xa0 || u == 0x1680 || (0x2000 <= u
        && u <= 0x200a) || u == 0x2028 || u == 0x2029 || u == 0x202f || u == 0x205f || u == 0x3000
}

fn word_spans_of(line: &str) -> (r: Vec<(usize, usize)>)
    ensures
        spans_view(r@) == word_spans(line@),
{
    let n = line.unicode_len();
    let mut spans: Vec<(usize, usize)> = Vec::new();
    let mut prev_space = true;
    let mut i: usize = 0;
    while i < n
        invariant
            n == line@.len(),
            i <= n,
            spans_view(spans@) == word_spans(line@.subrange(0, i as int)),
            prev_space == (i == 0 || is_space(line@[i - 1])),
        decreases n - i,
    {
        let ghost pre = line@.subrange(0, i as int);
        let ghost next = line@.subrange(0, i + 1);
        assert(next.drop_last() =~= pre);
        let c = line.get_char(i);
        let sp = is_space_char(c);
        if sp {
        } else if !prev_space {
            proof {
                lemma_spans_valid(pre);
                assert(pre.last() == line@[i - 1]);
            }
            let last = spans.len() - 1;
            let (a, _) = spans[last];
            spans.set(last, (a, i + 1));
            assert(spans_view(spans@) =~= word_spans(pre).update(
                word_spans(pre).len() - 1,
                (word_spans(pre).last().0, next.len() as int),
            ));
        } else {
            spans.push((i, i + 1));
            assert(spans_view(spans@) =~= word_spans(pre).push((i as int, next.len() as int)));
        }
        prev_space = sp;
        i = i + 1;
    }
    assert(line@.subrange(0, n as int) =~= line@);
    spans
}

/// The words of a line before its comment.
pub fn tokens(line: &str) -> (r: Vec<String>)
    ensures
        views(r@) == code_words(line@),
{
    let spans = word_spans_of(line);
    let ghost ws = words(line@);
    proof {
        lemma_spans_valid(line@);
    }
    let mut out: Vec<String> = Vec::new();
    let mut k: usize = 0;
    while k < spans.len()
        invariant
            spans_view(spans@) == word_spans(line@),
            ws == words(line@),
            ws.len() == spans.len(),
            k <= spans.len(),
            forall|j: int|
                0 <= j < word_spans(line@).len() ==> 0 <= #[trigger] word_spans(line@)[j].0
                    < word_spans(line@)[j].1 <= line@.len(),
            first_comment_from(ws, 0) == first_comment_from(ws, k as int),
            views(out@) == ws.subrange(0, k as int),
        decreases spans.len() - k,
    {
        let (a, b) = spans[k];
        assert(word_spans(line@)[k as int] == (a as int, b as int));
        let w = line.substring_char(a, b);
        assert(w@ == ws[k as int]);
        if w.get_char(0) == '/' {
            assert(first_comment_from(ws, k as int) == k);
            assert(ws.subrange(0, k as int) == code_words(line@));
            return out;
        }
        let ghost before = out@;
        let owned = String::from_str(w);
        out.push(owned);
        assert(out@ == before.push(owned));
        assert(views(out@) =~= views(before).push(w@));
        assert(views(out@) =~= ws.subrange(0, k + 1));
        k = k + 1;
    }
    assert(first_comment_from(ws, k as int) == ws.len());
    assert(ws.subrange(0, k as int) =~= code_words(line@));
    out
}

} // verus!
