//! Strings, character by character.

use vstd::prelude::*;

verus! {

/// `String::push`, for which the standard library's specifications in vstd
/// have no entry: it appends one character to the string.
pub assume_specification[ String::push ](string: &mut String, c: char)
    ensures
        final(string)@ == old(string)@.push(c),
;

/// The characters of `text`, in order.
pub fn chars_of(text: &str) -> (chars: Vec<char>)
    ensures
        chars@ == text@,
{
    let mut chars: Vec<char> = Vec::new();
    for c in it: text.chars()
        invariant
            chars@ == it.seq().take(it.index() as int),
            it.seq() == text@,
    {
        chars.push(c);
    }
    chars
}

/// Whether `c` is one of the digits `0` to `9`.
pub open spec fn is_digit(c: char) -> bool {
    '0' <= c <= '9'
}

/// The number of digits that `text` ends with.
pub open spec fn trailing_digits(text: Seq<char>) -> nat
    decreases text.len(),
{
    if text.len() == 0 || !is_digit(text.last()) {
        0
    } else {
        1 + trailing_digits(text.drop_last())
    }
}

/// The length of the longest run of digits, one next to the other, anywhere
/// in `text`.
pub open spec fn longest_digit_run(text: Seq<char>) -> nat
    decreases text.len(),
{
    if text.len() == 0 {
        0
    } else {
        let before = longest_digit_run(text.drop_last());
        let last = trailing_digits(text);
        if last > before {
            last
        } else {
            before
        }
    }
}

/// A text holds a run of digits at least as long as any run in what it
/// starts with.
pub proof fn lemma_longest_digit_run_grows(text: Seq<char>, shorter: int)
    requires
        0 <= shorter <= text.len(),
    ensures
        longest_digit_run(text.take(shorter)) <= longest_digit_run(text),
    decreases text.len(),
{
    if shorter < text.len() {
        lemma_longest_digit_run_grows(text.drop_last(), shorter);
        assert(text.drop_last().take(shorter) =~= text.take(shorter));
    } else {
        assert(text.take(shorter) =~= text);
    }
}

/// Tells whether no run of digits in `text` is longer than `limit`.
pub fn digit_runs_within(text: &str, limit: usize) -> (within: bool)
    ensures
        within == (longest_digit_run(text@) <= limit),
{
    let mut run: usize = 0;
    proof {
        assert(text@.take(0) =~= Seq::<char>::empty());
    }
    for c in it: text.chars()
        invariant
            it.seq() == text@,
            run == trailing_digits(text@.take(it.index() as int)),
            run <= limit,
            longest_digit_run(text@.take(it.index() as int)) <= limit,
    {
        let ghost next = text@.take(it.index() + 1);
        proof {
            assert(next.drop_last() =~= text@.take(it.index() as int));
            assert(next.last() == c);
        }
        if '0' <= c && c <= '9' {
            if run == limit {
                proof {
                    lemma_longest_digit_run_grows(text@, it.index() + 1);
                }
                return false;
            }
            run += 1;
        } else {
            run = 0;
        }
    }
    proof {
        assert(text@.take(text@.len() as int) =~= text@);
    }
    true
}

} // verus!
