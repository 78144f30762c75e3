//! What a typed line is taken for.
//!
//! A line is trimmed before anything else is done with it. A text is what
//! is then left, unless nothing is; a number is what is left where that is
//! decimal digits alone and their value fits 32 bits.

use vstd::prelude::*;
use vstd::std_specs::iter::IteratorSpec;
use vstd::string::StrSliceExecFns;
use crate::text::{decimal, digit_char, digit_of, digit_value};

verus! {

/// Whether `c` is white space: a character with the Unicode property
/// `White_Space`.
pub open spec fn is_whitespace(c: char) -> bool {
    ||| '\u{9}' <= c <= '\u{d}'
    ||| c == ' '
    ||| c == '\u{85}'
    ||| c == '\u{a0}'
    ||| c == '\u{1680}'
    ||| '\u{2000}' <= c <= '\u{200a}'
    ||| c == '\u{2028}'
    ||| c == '\u{2029}'
    ||| c == '\u{202f}'
    ||| c == '\u{205f}'
    ||| c == '\u{3000}'
}

/// `text` without the white space at its beginning.
pub open spec fn trim_start(text: Seq<char>) -> Seq<char>
    decreases text.len(),
{
    if text.len() > 0 && is_whitespace(text.first()) {
        trim_start(text.drop_first())
    } else {
        text
    }
}

/// `text` without the white space at its end.
pub open spec fn trim_end(text: Seq<char>) -> Seq<char>
    decreases text.len(),
{
    if text.len() > 0 && is_whitespace(text.last()) {
        trim_end(text.drop_last())
    } else {
        text
    }
}

/// `text` without the white space at its beginning and at its end.
pub open spec fn trimmed(text: Seq<char>) -> Seq<char> {
    trim_end(trim_start(text))
}

/// Whether every character of `text` is a decimal digit.
pub open spec fn all_digits(text: Seq<char>) -> bool {
    forall|i: int| 0 <= i < text.len() ==> digit_value(#[trigger] text[i]) is Some
}

/// The number that the decimal digits `text` stand for.
pub open spec fn digits_value(text: Seq<char>) -> nat
    decreases text.len(),
{
    if text.len() == 0 {
        0
    } else {
        10 * digits_value(text.drop_last()) + digit_value(text.last()).unwrap_or(0)
    }
}

/// The number that `text` stands for: `text` is one decimal digit or more
/// and nothing else, and their value is that of a 32-bit unsigned integer.
pub open spec fn parse_number(text: Seq<char>) -> Option<u32> {
    if text.len() > 0 && all_digits(text) && digits_value(text) <= u32::MAX {
        Some(digits_value(text) as u32)
    } else {
        None
    }
}

/// Why a typed line was not taken.
#[derive(Clone, Copy, Debug, PartialEq, Eq, Structural)]
pub enum InputError {
    /// Nothing was typed but white space.
    Empty,
    /// What was typed is no number that the program can hold.
    NotANumber,
}

impl InputError {
    /// The text that tells the user of the error.
    pub open spec fn diagnostic(self) -> Seq<char> {
        match self {
            InputError::Empty => "Input cannot be empty. Please try again."@,
            InputError::NotANumber => "Invalid input. Please enter a valid number."@,
        }
    }

    /// The text that tells the user of the error.
    pub fn message(&self) -> (text: &'static str)
        ensures
            text@ == self.diagnostic(),
    {
        match self {
            InputError::Empty => "Input cannot be empty. Please try again.",
            InputError::NotANumber => "Invalid input. Please enter a valid number.",
        }
    }
}

/// What a line typed for a text is taken for: the line without the white
/// space around it, unless nothing is left of it.
pub open spec fn text_input(line: Seq<char>) -> Result<Seq<char>, InputError> {
    if trimmed(line).len() == 0 {
        Err(InputError::Empty)
    } else {
        Ok(trimmed(line))
    }
}

/// What a line typed for a number is taken for: the number that the line
/// stands for once the white space around it is gone.
pub open spec fn number_input(line: Seq<char>) -> Result<u32, InputError> {
    match parse_number(trimmed(line)) {
        Some(number) => Ok(number),
        None => Err(InputError::NotANumber),
    }
}

/// What trimming the beginning removes is white space, and what it leaves
/// does not begin with white space.
pub proof fn lemma_trim_start_cuts_whitespace(text: Seq<char>)
    ensures
        ({
            let rest = trim_start(text);
            let cut = text.len() - rest.len();
            &&& 0 <= cut <= text.len()
            &&& rest == text.subrange(cut, text.len() as int)
            &&& forall|i: int| 0 <= i < cut ==> is_whitespace(text[i])
            &&& rest.len() > 0 ==> !is_whitespace(rest.first())
        }),
    decreases text.len(),
{
    if text.len() > 0 && is_whitespace(text.first()) {
        let tail = text.drop_first();
        lemma_trim_start_cuts_whitespace(tail);
        let rest = trim_start(tail);
        let cut = tail.len() - rest.len();
        assert(tail.subrange(cut, tail.len() as int) == text.subrange(
            cut + 1,
            text.len() as int,
        ));
        assert forall|i: int| 0 <= i < cut + 1 implies is_whitespace(text[i]) by {
            if i > 0 {
                assert(text[i] == tail[i - 1]);
            }
        }
    }
}

/// What trimming the end removes is white space, and what it leaves does
/// not end with white space.
pub proof fn lemma_trim_end_cuts_whitespace(text: Seq<char>)
    ensures
        ({
            let rest = trim_end(text);
            &&& rest.len() <= text.len()
            &&& rest == text.subrange(0, rest.len() as int)
            &&& forall|i: int| rest.len() <= i < text.len() ==> is_whitespace(text[i])
            &&& rest.len() > 0 ==> !is_whitespace(rest.last())
        }),
    decreases text.len(),
{
    if text.len() > 0 && is_whitespace(text.last()) {
        let front = text.drop_last();
        lemma_trim_end_cuts_whitespace(front);
        let rest = trim_end(front);
        assert forall|i: int| rest.len() <= i < text.len() implies is_whitespace(text[i]) by {
            if i < front.len() {
                assert(text[i] == front[i]);
            }
        }
    }
}

/// A trimmed text is a piece of the text it was made from, with nothing
/// but white space before and after it, and with no white space at either
/// of its own ends.
pub proof fn lemma_trimmed_is_the_core(text: Seq<char>)
    ensures
        ({
            let core = trimmed(text);
            let start = text.len() - trim_start(text).len();
            let end = start + core.len();
            &&& 0 <= start <= end <= text.len()
            &&& core == text.subrange(start, end)
            &&& forall|i: int| 0 <= i < start ==> is_whitespace(text[i])
            &&& forall|i: int| end <= i < text.len() ==> is_whitespace(text[i])
            &&& core.len() > 0 ==> !is_whitespace(text[start]) && !is_whitespace(text[end - 1])
        }),
{
    lemma_trim_start_cuts_whitespace(text);
    let rest = trim_start(text);
    lemma_trim_end_cuts_whitespace(rest);
    let start = text.len() - rest.len();
    let end = start + trimmed(text).len();
    assert forall|i: int| end <= i < text.len() implies is_whitespace(text[i]) by {
        assert(text[i] == rest[i - start]);
    }
}

/// A line typed for a text is refused exactly where it holds nothing but
/// white space, the empty line among them; any other line is taken.
pub proof fn lemma_blank_lines_are_refused(line: Seq<char>)
    ensures
        text_input(line) is Err <==> forall|i: int|
            0 <= i < line.len() ==> is_whitespace(#[trigger] line[i]),
        text_input(line) is Err ==> text_input(line) == Err::<Seq<char>, InputError>(
            InputError::Empty,
        ),
{
    lemma_trimmed_is_the_core(line);
}

/// The decimal digits of a number stand for that number.
pub proof fn lemma_decimal_is_parsed(n: nat)
    ensures
        decimal(n).len() > 0,
        all_digits(decimal(n)),
        digits_value(decimal(n)) == n,
        n <= u32::MAX ==> parse_number(decimal(n)) == Some(n as u32),
    decreases n,
{
    let text = decimal(n);
    if n < 10 {
        assert(digits_value(text.drop_last()) == 0);
    } else {
        lemma_decimal_is_parsed(n / 10);
        let front = decimal(n / 10);
        assert(text.drop_last() == front);
        assert forall|i: int| 0 <= i < front.len() implies text[i] == front[i] by {}
    }
}

/// Digits that follow do not make a number smaller.
proof fn lemma_digits_value_grows(text: Seq<char>, count: int)
    requires
        0 <= count <= text.len(),
    ensures
        digits_value(text.subrange(0, count)) <= digits_value(text),
    decreases text.len() - count,
{
    if count == text.len() {
        assert(text.subrange(0, count) == text);
    } else {
        lemma_digits_value_grows(text.drop_last(), count);
        assert(text.drop_last().subrange(0, count) == text.subrange(0, count));
    }
}

/// Whether `c` is white space.
pub fn is_whitespace_char(c: char) -> (white: bool)
    ensures
        white == is_whitespace(c),
{
    ('\u{9}' <= c && c <= '\u{d}') || c == ' ' || c == '\u{85}' || c == '\u{a0}' || c
        == '\u{1680}' || ('\u{2000}' <= c && c <= '\u{200a}') || c == '\u{2028}' || c
        == '\u{2029}' || c == '\u{202f}' || c == '\u{205f}' || c == '\u{3000}'
}

/// `line` without the white space at its beginning and at its end, the
/// line terminator included.
pub fn trim(line: &str) -> (text: &str)
    ensures
        text@ == trimmed(line@),
{
    let length: usize = line.unicode_len();
    let mut chars = line.chars();
    let mut index: usize = 0;
    let mut found: bool = false;
    let mut start: usize = 0;
    let mut end: usize = 0;
    while index < length
        invariant
            length == line@.len(),
            index <= length,
            chars.remaining() == line@.subrange(index as int, length as int),
            !found ==> start == 0 && end == 0,
            !found ==> forall|i: int| 0 <= i < index ==> is_whitespace(line@[i]),
            found ==> start < end <= index,
            found ==> forall|i: int| 0 <= i < start ==> is_whitespace(line@[i]),
            found ==> forall|i: int| end <= i < index ==> is_whitespace(line@[i]),
            found ==> !is_whitespace(line@[start as int]) && !is_whitespace(line@[end - 1]),
        decreases length - index,
    {
        let next = chars.next();
        if let Some(c) = next {
            if !is_whitespace_char(c) {
                if !found {
                    start = index;
                    found = true;
                }
                end = index + 1;
            }
        }
        index = index + 1;
    }
    proof {
        lemma_trimmed_is_the_core(line@);
    }
    line.substring_char(start, end)
}

/// The number that `text` stands for, if it stands for one.
pub fn parse_u32(text: &str) -> (number: Option<u32>)
    ensures
        number == parse_number(text@),
{
    let length: usize = text.unicode_len();
    if length == 0 {
        return None;
    }
    let mut chars = text.chars();
    let mut index: usize = 0;
    let mut value: u64 = 0;
    while index < length
        invariant
            length == text@.len(),
            index <= length,
            chars.remaining() == text@.subrange(index as int, length as int),
            all_digits(text@.subrange(0, index as int)),
            value == digits_value(text@.subrange(0, index as int)),
            value <= u32::MAX,
        decreases length - index,
    {
        let next = chars.next();
        assert(text@.subrange(0, index + 1).drop_last() == text@.subrange(0, index as int));
        let digit = match next {
            Some(c) => digit_of(c),
            None => None,
        };
        match digit {
            Some(d) => {
                value = 10 * value + d as u64;
                if value > u32::MAX as u64 {
                    proof {
                        lemma_digits_value_grows(text@, index + 1);
                    }
                    return None;
                }
            },
            None => return None,
        }
        index = index + 1;
    }
    assert(text@.subrange(0, length as int) == text@);
    Some(value as u32)
}

/// Takes a typed line for a text. The line is trimmed; a line of which
/// nothing is left is refused as empty.
pub fn read_text(line: &str) -> (result: Result<String, InputError>)
    ensures
        match result {
            Ok(text) => text_input(line@) == Ok::<Seq<char>, InputError>(text@),
            Err(error) => text_input(line@) == Err::<Seq<char>, InputError>(error),
        },
{
    let text = trim(line);
    if text.unicode_len() == 0 {
        Err(InputError::Empty)
    } else {
        Ok(text.to_owned())
    }
}

/// Takes a typed line for a non-negative number. The line is trimmed; what
/// is left must be decimal digits alone, with a value of at most 4294967295.
pub fn read_u32(line: &str) -> (result: Result<u32, InputError>)
    ensures
        result == number_input(line@),
{
    match parse_u32(trim(line)) {
        Some(number) => Ok(number),
        None => Err(InputError::NotANumber),
    }
}

} // verus!
