//! Reading a number from a line of console input.
//!
//! A line is accepted as the decimal notation of a `usize`: an optional `+`,
//! then one or more of the digits `0` to `9`, and nothing else. The line's
//! ending (`\r\n` or `\n`) is taken off first.

use crate::text::{chars_of, is_digit};
use vstd::prelude::*;

verus! {

/// Why a line of input was turned down.
#[derive(Debug, Clone, Copy, PartialEq, Eq, Structural)]
pub enum InputError {
    /// The line holds nothing.
    Empty,
    /// The line holds something other than decimal digits after its sign, or
    /// a sign alone.
    InvalidDigit,
    /// The number does not fit in a `usize`.
    TooLarge,
    /// The number is no position of the batch.
    IndexTooHigh,
}

/// The text that reports `error` to the user.
pub open spec fn message_of(error: InputError) -> Seq<char> {
    match error {
        InputError::Empty => "cannot parse integer from empty string"@,
        InputError::InvalidDigit => "invalid digit found in string"@,
        InputError::TooLarge => "number too large to fit in target type"@,
        InputError::IndexTooHigh => "Selection index is too high"@,
    }
}

impl InputError {
    /// The text that reports this error to the user.
    pub fn message(&self) -> (text: String)
        ensures
            text@ == message_of(*self),
    {
        match self {
            InputError::Empty => String::from_str("cannot parse integer from empty string"),
            InputError::InvalidDigit => String::from_str("invalid digit found in string"),
            InputError::TooLarge => String::from_str("number too large to fit in target type"),
            InputError::IndexTooHigh => String::from_str("Selection index is too high"),
        }
    }
}

/// `line` without its ending: without a final `\r\n` if it has one, else
/// without a final `\n` if it has one, else `line` itself.
pub open spec fn without_line_ending(line: Seq<char>) -> Seq<char> {
    if line.len() >= 2 && line[line.len() - 2] == '\r' && line[line.len() - 1] == '\n' {
        line.take(line.len() - 2)
    } else if line.len() >= 1 && line[line.len() - 1] == '\n' {
        line.take(line.len() - 1)
    } else {
        line
    }
}

/// The number that the digit `c` stands for.
pub open spec fn digit_value(c: char) -> nat {
    (c as int - '0' as int) as nat
}

/// The number that `digits` denote in decimal notation.
pub open spec fn decimal_value(digits: Seq<char>) -> nat
    decreases digits.len(),
{
    if digits.len() == 0 {
        0
    } else {
        10 * decimal_value(digits.drop_last()) + digit_value(digits.last())
    }
}

/// The number of digits that `text` starts with.
pub open spec fn leading_digits(text: Seq<char>) -> nat
    decreases text.len(),
{
    if text.len() == 0 || !is_digit(text[0]) {
        0
    } else {
        1 + leading_digits(text.drop_first())
    }
}

/// `text` without the `+` that it may start with.
pub open spec fn without_sign(text: Seq<char>) -> Seq<char> {
    if text.len() > 0 && text[0] == '+' {
        text.drop_first()
    } else {
        text
    }
}

/// The `usize` that `text` denotes, or why it denotes none.
///
/// Empty text is `Empty`. Otherwise the digits that follow the optional sign
/// decide: the run of digits at their start is `TooLarge` if its value
/// exceeds `usize::MAX`; else, if it is empty or anything follows it, the text
/// is an `InvalidDigit`; else the value of the run is the number.
pub open spec fn parsed_number(text: Seq<char>) -> Result<usize, InputError> {
    let digits = without_sign(text);
    let run = leading_digits(digits) as int;
    if text.len() == 0 {
        Err(InputError::Empty)
    } else if decimal_value(digits.take(run)) > usize::MAX {
        Err(InputError::TooLarge)
    } else if digits.len() == 0 || run < digits.len() {
        Err(InputError::InvalidDigit)
    } else {
        Ok(decimal_value(digits) as usize)
    }
}

/// The 0-based position that the 1-based `number` names in a batch of `len`
/// candidates, or `IndexTooHigh` when it names none: 0 is turned down like a
/// number beyond the batch.
pub open spec fn position_of(number: usize, len: usize) -> Result<usize, InputError> {
    if 1 <= number <= len {
        Ok((number - 1) as usize)
    } else {
        Err(InputError::IndexTooHigh)
    }
}

/// The position in a batch of `len` candidates that a line of input names,
/// or why it names none.
pub open spec fn chosen_position(line: Seq<char>, len: usize) -> Result<usize, InputError> {
    match parsed_number(without_line_ending(line)) {
        Ok(number) => position_of(number, len),
        Err(error) => Err(error),
    }
}

/// A run of digits has a value at least as large as each run it starts with.
pub proof fn lemma_decimal_value_grows(digits: Seq<char>, shorter: int)
    requires
        0 <= shorter <= digits.len(),
    ensures
        decimal_value(digits.take(shorter)) <= decimal_value(digits),
    decreases digits.len(),
{
    if shorter < digits.len() {
        lemma_decimal_value_grows(digits.drop_last(), shorter);
        assert(digits.drop_last().take(shorter) =~= digits.take(shorter));
    } else {
        assert(digits.take(shorter) =~= digits);
    }
}

/// The run of digits at the start of `text` is made of digits, and what
/// follows it, if anything, is no digit.
pub proof fn lemma_leading_digits_run(text: Seq<char>)
    ensures
        leading_digits(text) <= text.len(),
        forall|i: int| 0 <= i < leading_digits(text) ==> is_digit(#[trigger] text[i]),
        leading_digits(text) < text.len() ==> !is_digit(text[leading_digits(text) as int]),
    decreases text.len(),
{
    if text.len() > 0 && is_digit(text[0]) {
        let rest = text.drop_first();
        lemma_leading_digits_run(rest);
        assert forall|i: int| 0 <= i < leading_digits(text) implies is_digit(
            #[trigger] text[i],
        ) by {
            if i > 0 {
                assert(text[i] == rest[i - 1]);
            }
        }
        if leading_digits(text) < text.len() {
            assert(text[leading_digits(text) as int] == rest[leading_digits(rest) as int]);
        }
    }
}

/// A text is read as a number exactly when, after its optional sign, it is
/// one or more digits whose value fits in a `usize`; the number is that value.
pub proof fn lemma_parsed_number_accepts(text: Seq<char>)
    ensures
        parsed_number(text) is Ok <==> {
            &&& without_sign(text).len() > 0
            &&& forall|i: int|
                0 <= i < without_sign(text).len() ==> is_digit(#[trigger] without_sign(text)[i])
            &&& decimal_value(without_sign(text)) <= usize::MAX
        },
        parsed_number(text) matches Ok(number) ==> number == decimal_value(without_sign(text)),
{
    let digits = without_sign(text);
    let run = leading_digits(digits) as int;
    lemma_leading_digits_run(digits);
    if run == digits.len() {
        assert(digits.take(run) =~= digits);
    } else {
        assert(!is_digit(digits[run]));
    }
}

/// Takes the line ending off `chars`.
pub fn strip_line_ending(chars: &mut Vec<char>)
    ensures
        final(chars)@ == without_line_ending(old(chars)@),
{
    let len: usize = chars.len();
    if len >= 2 && chars[len - 2] == '\r' && chars[len - 1] == '\n' {
        chars.truncate(len - 2);
    } else if len >= 1 && chars[len - 1] == '\n' {
        chars.truncate(len - 1);
    }
}

/// Reads `text` as the decimal notation of a `usize`.
pub fn parse_number(text: &Vec<char>) -> (number: Result<usize, InputError>)
    ensures
        number == parsed_number(text@),
{
    let len: usize = text.len();
    if len == 0 {
        return Err(InputError::Empty);
    }
    let start: usize = if text[0] == '+' {
        1
    } else {
        0
    };
    let ghost digits = without_sign(text@);
    assert(digits =~= text@.skip(start as int));
    let mut value: usize = 0;
    let mut at: usize = start;
    while at < len
        invariant
            start <= at <= len,
            len == text@.len(),
            len > 0,
            digits == text@.skip(start as int),
            digits == without_sign(text@),
            forall|i: int| 0 <= i < at - start ==> is_digit(#[trigger] digits[i]),
            value == decimal_value(digits.take(at - start)),
        decreases len - at,
    {
        let c: char = text[at];
        let ghost seen = at - start;
        assert(digits[seen] == c);
        if c < '0' || c > '9' {
            proof {
                lemma_leading_digits_run(digits);
            }
            return Err(InputError::InvalidDigit);
        }
        let digit: usize = (c as u32 - '0' as u32) as usize;
        proof {
            assert(digits.take(seen + 1).drop_last() =~= digits.take(seen));
            assert(digits.take(seen + 1).last() == c);
            assert(digit == digit_value(c));
            assert(decimal_value(digits.take(seen + 1)) == 10 * value + digit);
        }
        let next: Option<usize> = match value.checked_mul(10) {
            Some(tenfold) => tenfold.checked_add(digit),
            None => None,
        };
        match next {
            Some(sum) => {
                value = sum;
            },
            None => {
                proof {
                    let run = leading_digits(digits) as int;
                    lemma_leading_digits_run(digits);
                    lemma_decimal_value_grows(digits.take(run), seen + 1);
                    assert(digits.take(run).take(seen + 1) =~= digits.take(seen + 1));
                }
                return Err(InputError::TooLarge);
            },
        }
        at += 1;
    }
    proof {
        lemma_leading_digits_run(digits);
        assert(digits.take(digits.len() as int) =~= digits);
    }
    if at == start {
        return Err(InputError::InvalidDigit);
    }
    Ok(value)
}

/// Reads a line of console input as a number: the line ending is taken off,
/// and what is left is read as the decimal notation of a `usize`.
pub fn parse_int_input(line: &str) -> (number: Result<usize, InputError>)
    ensures
        number == parsed_number(without_line_ending(line@)),
{
    let mut chars = chars_of(line);
    strip_line_ending(&mut chars);
    parse_number(&chars)
}

/// Turns the 1-based `number` that the user gave into a position in a batch
/// of `len` candidates.
pub fn resolve_index(number: usize, len: usize) -> (position: Result<usize, InputError>)
    ensures
        position == position_of(number, len),
        position matches Ok(index) ==> index < len,
{
    if number == 0 || number > len {
        Err(InputError::IndexTooHigh)
    } else {
        Ok(number - 1)
    }
}

/// Reads a line of console input as the choice among `len` candidates.
pub fn read_choice(line: &str, len: usize) -> (position: Result<usize, InputError>)
    ensures
        position == chosen_position(line@, len),
        position matches Ok(index) ==> index < len,
{
    match parse_int_input(line) {
        Ok(number) => resolve_index(number, len),
        Err(error) => Err(error),
    }
}

} // verus!
