//! Message identifiers in decimal notation.
//!
//! A quoted message is named by a signed 32-bit number, which a chat server
//! may send as a JSON number or as text. This module reads such text and
//! says what the text of a number is.

use vstd::prelude::*;

verus! {

/// Whether `c` is one of the ten ASCII digits.
pub open spec fn is_digit(c: char) -> bool {
    '0' <= c <= '9'
}

/// The value of the digit `c`.
pub open spec fn digit_value(c: char) -> int
    recommends
        is_digit(c),
{
    c as int - '0' as int
}

/// Whether `s` holds digits only.
pub open spec fn all_digits(s: Seq<char>) -> bool {
    forall|i: int| 0 <= i < s.len() ==> is_digit(#[trigger] s[i])
}

/// The number that the digits `s` denote in base ten; 0 for no digits.
pub open spec fn digits_value(s: Seq<char>) -> int
    decreases s.len(),
{
    if s.len() == 0 {
        0
    } else {
        digits_value(s.drop_last()) * 10 + digit_value(s.last())
    }
}

/// Whether `s` starts with a sign, `+` or `-`.
pub open spec fn has_sign(s: Seq<char>) -> bool {
    s.len() > 0 && (s[0] == '-' || s[0] == '+')
}

/// The number that `s` denotes, where `s` is an optional sign, `+` or `-`,
/// followed by at least one digit and nothing else, and the number fits in 32
/// bits. Whitespace, an empty text, a sign alone and a number out of range
/// denote nothing.
pub open spec fn parsed_i32(s: Seq<char>) -> Option<i32> {
    let digits = if has_sign(s) {
        s.drop_first()
    } else {
        s
    };
    let value = if has_sign(s) && s[0] == '-' {
        -digits_value(digits)
    } else {
        digits_value(digits)
    };
    if digits.len() > 0 && all_digits(digits) && i32::MIN <= value <= i32::MAX {
        Some(value as i32)
    } else {
        None
    }
}

/// The digit for `d`, a number from 0 to 9.
pub open spec fn digit_char(d: int) -> char
    recommends
        0 <= d <= 9,
{
    ('0' as int + d) as char
}

/// The digits of `n` in base ten, without leading zeros; `0` for zero.
pub open spec fn decimal_digits(n: nat) -> Seq<char>
    decreases n,
{
    if n < 10 {
        seq![digit_char(n as int)]
    } else {
        decimal_digits(n / 10).push(digit_char((n % 10) as int))
    }
}

/// `n` in decimal notation: its digits, after a `-` where it is negative.
pub open spec fn decimal(n: int) -> Seq<char> {
    if n < 0 {
        seq!['-'] + decimal_digits((-n) as nat)
    } else {
        decimal_digits(n as nat)
    }
}

/// More digits never denote less: the value of a text of digits is at least
/// the value of what stands before its last digit.
proof fn lemma_digits_value_grows(s: Seq<char>)
    requires
        all_digits(s),
    ensures
        0 <= digits_value(s),
        s.len() > 0 ==> digits_value(s.drop_last()) <= digits_value(s),
    decreases s.len(),
{
    if s.len() > 0 {
        assert forall|i: int| 0 <= i < s.drop_last().len() implies is_digit(
            #[trigger] s.drop_last()[i],
        ) by {}
        lemma_digits_value_grows(s.drop_last());
    }
}

/// The decimal digits of a number are digits, and denote that number.
pub proof fn lemma_decimal_digits_value(n: nat)
    ensures
        decimal_digits(n).len() > 0,
        all_digits(decimal_digits(n)),
        decimal_digits(n)[0] != '-',
        decimal_digits(n)[0] != '+',
        digits_value(decimal_digits(n)) == n,
    decreases n,
{
    if n < 10 {
        let s = decimal_digits(n);
        assert(digits_value(s.drop_last()) == 0);
    } else {
        lemma_decimal_digits_value(n / 10);
        let head = decimal_digits(n / 10);
        let s = decimal_digits(n);
        assert(s.drop_last() =~= head);
        assert forall|i: int| 0 <= i < s.len() implies is_digit(#[trigger] s[i]) by {}
    }
}

/// Reading the decimal notation of a 32-bit number gives that number back.
pub proof fn lemma_parse_decimal(n: i32)
    ensures
        parsed_i32(decimal(n as int)) == Some(n),
{
    let s = decimal(n as int);
    if n < 0 {
        let digits = decimal_digits((-n) as nat);
        lemma_decimal_digits_value((-n) as nat);
        assert(s.drop_first() =~= digits);
    } else {
        lemma_decimal_digits_value(n as nat);
    }
}

/// Reads a 32-bit number in decimal notation: an optional sign, then digits.
/// Nothing comes back for any other text, nor for a number out of range.
pub fn parse_i32(text: &str) -> (number: Option<i32>)
    ensures
        number == parsed_i32(text@),
{
    let mut first = true;
    let mut negative = false;
    let mut any_digit = false;
    let mut valid = true;
    let mut too_large = false;
    let mut value: i64 = 0;
    let ghost mut start: int = 0;
    let ghost mut bad: int = 0;
    for c in it: text.chars()
        invariant
            it.seq() == text@,
            first == (it.index() == 0),
            first ==> valid,
            start == (if !first && has_sign(text@) { 1int } else { 0int }),
            negative == (!first && has_sign(text@) && text@[0] == '-'),
            valid ==> start <= it.index(),
            valid ==> any_digit == (start < it.index()),
            valid ==> all_digits(text@.subrange(start, it.index())),
            valid && !too_large ==> value == digits_value(text@.subrange(start, it.index())),
            valid && too_large ==> digits_value(text@.subrange(start, it.index())) > 0x8000_0000,
            0 <= value <= 0x8000_0000,
            !valid ==> (if has_sign(text@) { 1int } else { 0int }) <= bad < text@.len(),
            !valid ==> !is_digit(text@[bad]),
    {
        let ghost i = it.index();
        if valid {
            if first && (c == '-' || c == '+') {
                negative = c == '-';
                proof {
                    start = 1;
                }
            } else if '0' <= c && c <= '9' {
                proof {
                    let longer = text@.subrange(start, i + 1);
                    assert(longer.drop_last() == text@.subrange(start, i));
                    assert forall|k: int| 0 <= k < longer.len() implies is_digit(
                        #[trigger] longer[k],
                    ) by {}
                    lemma_digits_value_grows(longer);
                }
                if !too_large {
                    let digit: i64 = (c as u32 - '0' as u32) as i64;
                    let longer: i64 = value * 10 + digit;
                    if longer > 0x8000_0000 {
                        too_large = true;
                    } else {
                        value = longer;
                    }
                }
                any_digit = true;
            } else {
                valid = false;
                proof {
                    bad = i;
                }
            }
        }
        first = false;
    }
    proof {
        let digits = if has_sign(text@) {
            text@.drop_first()
        } else {
            text@
        };
        if valid {
            assert(digits == text@.subrange(start, text@.len() as int));
        } else {
            assert(digits[bad - start] == text@[bad]);
        }
    }
    if !valid || !any_digit || too_large {
        None
    } else if negative {
        Some((-value) as i32)
    } else if value <= 0x7fff_ffff {
        Some(value as i32)
    } else {
        None
    }
}

} // verus!
