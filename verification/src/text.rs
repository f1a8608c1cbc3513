//! Text: comparing strings, and writing numbers in decimal.

use vstd::prelude::*;
use vstd::string::*;

verus! {

/// `str::eq`: two strings are equal when they hold the same characters in
/// the same order.
pub assume_specification[ <str as PartialEq>::eq ](a: &str, b: &str) -> (same: bool)
    ensures
        same == (a@ == b@),
;

/// The character for a digit.
pub open spec fn digit(d: int) -> char {
    if d == 0 {
        '0'
    } else if d == 1 {
        '1'
    } else if d == 2 {
        '2'
    } else if d == 3 {
        '3'
    } else if d == 4 {
        '4'
    } else if d == 5 {
        '5'
    } else if d == 6 {
        '6'
    } else if d == 7 {
        '7'
    } else if d == 8 {
        '8'
    } else {
        '9'
    }
}

/// A number in decimal, without leading zeros.
pub open spec fn decimal(n: nat) -> Seq<char>
    decreases n,
{
    if n < 10 {
        seq![digit(n as int)]
    } else {
        decimal(n / 10).push(digit((n % 10) as int))
    }
}

/// The character is one of the ten digits.
pub open spec fn is_digit(c: char) -> bool {
    '0' <= c <= '9'
}

/// The number that a string of digits writes in decimal.
pub open spec fn number(digits: Seq<char>) -> nat
    decreases digits.len(),
{
    if digits.len() == 0 {
        0
    } else {
        (number(digits.drop_last()) * 10 + (digits.last() as nat - '0' as nat)) as nat
    }
}

/// What `str::parse::<u64>` makes of a text: the number it writes, if the
/// text is one or more digits, with or without one plus sign in front, and
/// the number is within the range of `u64`.
pub open spec fn parsed_u64(text: Seq<char>) -> Option<u64> {
    let digits = if text.len() > 0 && text[0] == '+' {
        text.skip(1)
    } else {
        text
    };
    if digits.len() > 0 && (forall|i: int| 0 <= i < digits.len() ==> is_digit(#[trigger] digits[i]))
        && number(digits) <= u64::MAX {
        Some(number(digits) as u64)
    } else {
        None
    }
}

/// The text of one digit.
fn digit_text(d: u64) -> (text: &'static str)
    requires
        d < 10,
    ensures
        text@ == seq![digit(d as int)],
{
    proof {
        reveal_strlit("0");
        reveal_strlit("1");
        reveal_strlit("2");
        reveal_strlit("3");
        reveal_strlit("4");
        reveal_strlit("5");
        reveal_strlit("6");
        reveal_strlit("7");
        reveal_strlit("8");
        reveal_strlit("9");
    }
    let text = if d == 0 {
        "0"
    } else if d == 1 {
        "1"
    } else if d == 2 {
        "2"
    } else if d == 3 {
        "3"
    } else if d == 4 {
        "4"
    } else if d == 5 {
        "5"
    } else if d == 6 {
        "6"
    } else if d == 7 {
        "7"
    } else if d == 8 {
        "8"
    } else {
        "9"
    };
    assert(text@ =~= seq![digit(d as int)]);
    text
}

/// Appends `n` in decimal to `text`.
pub fn push_decimal(text: &mut String, n: u64)
    ensures
        final(text)@ == old(text)@ + decimal(n as nat),
    decreases n,
{
    if n >= 10 {
        push_decimal(text, n / 10);
    }
    text.append(digit_text(n % 10));
    assert(text@ =~= old(text)@ + decimal(n as nat));
}

/// The character for a hexadecimal digit, in capitals.
pub open spec fn hex_digit(d: int) -> char {
    if d < 10 {
        digit(d)
    } else if d == 10 {
        'A'
    } else if d == 11 {
        'B'
    } else if d == 12 {
        'C'
    } else if d == 13 {
        'D'
    } else if d == 14 {
        'E'
    } else {
        'F'
    }
}

/// A number in hexadecimal, in capitals and without leading zeros.
pub open spec fn hex(n: nat) -> Seq<char>
    decreases n,
{
    if n < 16 {
        seq![hex_digit(n as int)]
    } else {
        hex(n / 16).push(hex_digit((n % 16) as int))
    }
}

/// As many zeros as `length` falls short of `width`.
pub open spec fn padding(length: nat, width: nat) -> Seq<char> {
    if length >= width {
        Seq::empty()
    } else {
        Seq::new((width - length) as nat, |i: int| '0')
    }
}

/// A text with zeros in front to make it `width` characters long, if it is
/// shorter.
pub open spec fn padded(text: Seq<char>, width: nat) -> Seq<char> {
    padding(text.len(), width) + text
}

/// The text of one hexadecimal digit.
fn hex_digit_text(d: u32) -> (text: &'static str)
    requires
        d < 16,
    ensures
        text@ == seq![hex_digit(d as int)],
{
    if d < 10 {
        digit_text(d as u64)
    } else {
        proof {
            reveal_strlit("A");
            reveal_strlit("B");
            reveal_strlit("C");
            reveal_strlit("D");
            reveal_strlit("E");
            reveal_strlit("F");
        }
        let text = if d == 10 {
            "A"
        } else if d == 11 {
            "B"
        } else if d == 12 {
            "C"
        } else if d == 13 {
            "D"
        } else if d == 14 {
            "E"
        } else {
            "F"
        };
        assert(text@ =~= seq![hex_digit(d as int)]);
        text
    }
}

/// Appends `n` in hexadecimal to `text`.
pub fn push_hex(text: &mut String, n: u32)
    ensures
        final(text)@ == old(text)@ + hex(n as nat),
    decreases n,
{
    if n >= 16 {
        push_hex(text, n / 16);
    }
    text.append(hex_digit_text(n % 16));
    assert(text@ =~= old(text)@ + hex(n as nat));
}

/// The number of digits of `n` in hexadecimal.
pub fn hex_len(n: u32) -> (length: u64)
    ensures
        length == hex(n as nat).len(),
        length <= n + 1,
    decreases n,
{
    if n >= 16 {
        1 + hex_len(n / 16)
    } else {
        1
    }
}

/// Appends to `text` as many zeros as `length` falls short of `width`.
pub fn push_padding(text: &mut String, length: u64, width: u64)
    ensures
        final(text)@ == old(text)@ + padding(length as nat, width as nat),
{
    let mut done: u64 = length;
    assert(text@ =~= old(text)@ + Seq::new(0, |i: int| '0'));
    while done < width
        invariant
            length <= done,
            done <= width || done == length,
            text@ == old(text)@ + Seq::new((done - length) as nat, |i: int| '0'),
        decreases width - done,
    {
        proof {
            reveal_strlit("0");
        }
        text.append("0");
        assert(text@ =~= old(text)@ + Seq::new((done + 1 - length) as nat, |i: int| '0'));
        done = done + 1;
    }
    assert(text@ =~= old(text)@ + padding(length as nat, width as nat));
}

} // verus!
