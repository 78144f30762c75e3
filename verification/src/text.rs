//! Numbers and labels as text.

use vstd::prelude::*;
use vstd::string::StringExecFns;
use vstd::string::StrSliceExecFns;

verus! {

/// The character of the decimal digit `digit`; that of `9` for a number
/// above it.
pub open spec fn digit_char(digit: nat) -> char {
    if digit == 0 {
        '0'
    } else if digit == 1 {
        '1'
    } else if digit == 2 {
        '2'
    } else if digit == 3 {
        '3'
    } else if digit == 4 {
        '4'
    } else if digit == 5 {
        '5'
    } else if digit == 6 {
        '6'
    } else if digit == 7 {
        '7'
    } else if digit == 8 {
        '8'
    } else {
        '9'
    }
}

/// The value of the decimal digit `c`, and `None` where `c` is no decimal
/// digit.
pub open spec fn digit_value(c: char) -> Option<nat> {
    if c == '0' {
        Some(0)
    } else if c == '1' {
        Some(1)
    } else if c == '2' {
        Some(2)
    } else if c == '3' {
        Some(3)
    } else if c == '4' {
        Some(4)
    } else if c == '5' {
        Some(5)
    } else if c == '6' {
        Some(6)
    } else if c == '7' {
        Some(7)
    } else if c == '8' {
        Some(8)
    } else if c == '9' {
        Some(9)
    } else {
        None
    }
}

/// The decimal digits of `n`, the most significant first and none of them a
/// leading zero; the single digit `0` for zero.
pub open spec fn decimal(n: nat) -> Seq<char>
    decreases n,
{
    if n < 10 {
        seq![digit_char(n)]
    } else {
        decimal(n / 10).push(digit_char(n % 10))
    }
}

/// A count of hundredths as a decimal number with two places after the
/// point.
pub open spec fn two_places(hundredths: nat) -> Seq<char> {
    decimal(hundredths / 100) + seq![
        '.',
        digit_char(hundredths / 10 % 10),
        digit_char(hundredths % 10),
    ]
}

/// `count` spaces.
pub open spec fn spaces(count: nat) -> Seq<char> {
    Seq::new(count, |i: int| ' ')
}

/// `text` at the left of a field of `width` characters, the rest of it
/// filled with spaces. A text that is longer than the field stays whole.
pub open spec fn padded(text: Seq<char>, width: nat) -> Seq<char> {
    if text.len() >= width {
        text
    } else {
        text + spaces((width - text.len()) as nat)
    }
}

/// The text of one decimal digit; that of `9` for a number above it.
pub fn digit_str(digit: u8) -> (text: &'static str)
    ensures
        text@ == seq![digit_char(digit as nat)],
{
    proof {
        reveal_strlit("0");
        reveal_strlit("1");
        reveal_strlit("2");
        reveal_strlit("3");
        reveal_strlit("4");
        reveal_strlit("5");
        reveal_strlit("6");
        reveal_strlit("7");
        reveal_strlit("8");
        reveal_strlit("9");
    }
    match digit {
        0 => "0",
        1 => "1",
        2 => "2",
        3 => "3",
        4 => "4",
        5 => "5",
        6 => "6",
        7 => "7",
        8 => "8",
        _ => "9",
    }
}

/// The value of the decimal digit `c`, if it is one.
pub fn digit_of(c: char) -> (digit: Option<u8>)
    ensures
        match digit {
            Some(value) => digit_value(c) == Some(value as nat),
            None => digit_value(c) is None,
        },
{
    match c {
        '0' => Some(0),
        '1' => Some(1),
        '2' => Some(2),
        '3' => Some(3),
        '4' => Some(4),
        '5' => Some(5),
        '6' => Some(6),
        '7' => Some(7),
        '8' => Some(8),
        '9' => Some(9),
        _ => None,
    }
}

/// Appends the decimal digits of `n` to `out`.
pub fn push_decimal(out: &mut String, n: u64)
    ensures
        final(out)@ == old(out)@ + decimal(n as nat),
    decreases n,
{
    if n >= 10 {
        push_decimal(out, n / 10);
    }
    out.append(digit_str((n % 10) as u8));
}

/// Appends a count of hundredths to `out`, as a decimal number with two
/// places after the point.
pub fn push_two_places(out: &mut String, hundredths: u64)
    ensures
        final(out)@ == old(out)@ + two_places(hundredths as nat),
{
    push_decimal(out, hundredths / 100);
    out.append(".");
    out.append(digit_str((hundredths / 10 % 10) as u8));
    out.append(digit_str((hundredths % 10) as u8));
    proof {
        reveal_strlit(".");
    }
}

/// Appends `text` to `out`, and spaces after it up to `width` characters.
pub fn push_padded(out: &mut String, text: &str, width: usize)
    ensures
        final(out)@ == old(out)@ + padded(text@, width as nat),
{
    out.append(text);
    let mut column: usize = text.unicode_len();
    let ghost start = column;
    while column < width
        invariant
            start <= column,
            column <= width || column == start,
            out@ == old(out)@ + text@ + spaces((column - start) as nat),
        decreases width - column,
    {
        out.append(" ");
        column = column + 1;
        proof {
            reveal_strlit(" ");
        }
    }
}

} // verus!
