//! Reading the counts that `call` and `function` carry.
use vstd::prelude::*;

verus! {

pub open spec fn is_digit(c: char) -> bool {
    '0' <= c <= '9'
}

pub open spec fn digit_value(c: char) -> nat {
    (c as u32 - '0' as u32) as nat
}

/// A non-empty run of decimal digits.
pub open spec fn all_digits(s: Seq<char>) -> bool {
    s.len() > 0 && forall|i: int| 0 <= i < s.len() ==> is_digit(#[trigger] s[i])
}

/// The value of a run of decimal digits, most significant first.
pub open spec fn digits_value(s: Seq<char>) -> nat
    decreases s.len(),
{
    if s.len() == 0 {
        0
    } else {
        digits_value(s.drop_last()) * 10 + digit_value(s.last())
    }
}

/// The digits of a count: the text without a leading `+`.
pub open spec fn count_digits(s: Seq<char>) -> Seq<char> {
    if s.len() > 0 && s[0] == '+' {
        s.drop_first()
    } else {
        s
    }
}

/// A count: an optional `+`, then decimal digits whose value fits in `usize`.
pub open spec fn is_count(s: Seq<char>) -> bool {
    all_digits(count_digits(s)) && digits_value(count_digits(s)) <= usize::MAX
}

/// The value of a count.
pub open spec fn count_value(s: Seq<char>) -> nat {
    digits_value(count_digits(s))
}

/// Relies on `str::parse::<usize>` (`usize::from_str`): text made of an
/// optional `+` and at least one ASCII digit, whose value fits in `usize`,
/// reads as that value; any other text is an error.
#[verifier::external_body]
pub(crate) fn read_count(s: &str) -> (r: Result<usize, std::num::ParseIntError>)
    ensures
        r is Ok <==> is_count(s@),
        r matches Ok(n) ==> n == count_value(s@),
{
    s.parse::<usize>()
}

} // verus!
