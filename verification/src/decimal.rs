//! Unsigned decimal text: the magnitude part of a unit-suffixed value.
//!
//! A magnitude is written as its natural base-ten representation: digits only,
//! no sign, no separator, and no leading zero except for the number zero itself.

use vstd::prelude::*;
use vstd::string::*;

verus! {

/// Why a piece of text is not a magnitude.
#[derive(Debug, Clone, Copy, PartialEq, Eq, Hash, Structural)]
pub enum MagnitudeFault {
    /// The text is empty.
    Empty,
    /// The text holds a character that is not a decimal digit.
    NotADigit,
    /// The text is a run of digits, but the number lies above the allowed maximum.
    TooLarge,
}

/// Whether `c` is one of the ten ASCII decimal digits.
pub open spec fn is_digit(c: char) -> bool {
    '0' <= c && c <= '9'
}

/// The number that the digit `c` stands for.
pub open spec fn digit_value(c: char) -> nat {
    (c as u32 - '0' as u32) as nat
}

/// The digit that stands for `d`, for `d` below ten.
pub open spec fn digit_char(d: nat) -> char {
    if d == 0 {
        '0'
    } else if d == 1 {
        '1'
    } else if d == 2 {
        '2'
    } else if d == 3 {
        '3'
    } else if d == 4 {
        '4'
    } else if d == 5 {
        '5'
    } else if d == 6 {
        '6'
    } else if d == 7 {
        '7'
    } else if d == 8 {
        '8'
    } else {
        '9'
    }
}

/// Whether every character of `s` is a decimal digit.
pub open spec fn all_digits(s: Seq<char>) -> bool {
    forall|i: int| 0 <= i < s.len() ==> is_digit(#[trigger] s[i])
}

/// Whether no character of `s` is a decimal digit.
pub open spec fn no_digits(s: Seq<char>) -> bool {
    forall|i: int| 0 <= i < s.len() ==> !is_digit(#[trigger] s[i])
}

/// The number that a run of digits denotes in base ten; the empty run denotes zero.
pub open spec fn digits_value(s: Seq<char>) -> nat
    decreases s.len(),
{
    if s.len() == 0 {
        0
    } else {
        digits_value(s.drop_last()) * 10 + digit_value(s.last())
    }
}

/// The natural base-ten representation of `n`.
pub open spec fn decimal(n: nat) -> Seq<char>
    decreases n,
{
    if n < 10 {
        seq![digit_char(n)]
    } else {
        decimal(n / 10).push(digit_char(n % 10))
    }
}

/// The representation of a whole number: a minus sign before the digits of a
/// number below zero, the digits alone otherwise.
pub open spec fn signed_decimal(n: int) -> Seq<char> {
    if n < 0 {
        seq!['-'] + decimal((-n) as nat)
    } else {
        decimal(n as nat)
    }
}

/// What reading `s` as a magnitude of at most `max` gives: the number it
/// denotes, or the reason why it denotes none.
pub open spec fn spec_parse_decimal(s: Seq<char>, max: nat) -> Result<nat, MagnitudeFault> {
    if s.len() == 0 {
        Err(MagnitudeFault::Empty)
    } else if !all_digits(s) {
        Err(MagnitudeFault::NotADigit)
    } else if digits_value(s) > max {
        Err(MagnitudeFault::TooLarge)
    } else {
        Ok(digits_value(s))
    }
}

/// A digit and the number it stands for determine each other.
pub proof fn lemma_digit_char_value(d: nat)
    requires
        d < 10,
    ensures
        is_digit(digit_char(d)),
        digit_value(digit_char(d)) == d,
{
}

/// Appending one digit to a run multiplies its value by ten and adds the digit.
pub proof fn lemma_digits_value_push(s: Seq<char>, c: char)
    ensures
        digits_value(s.push(c)) == digits_value(s) * 10 + digit_value(c),
{
    assert(s.push(c).drop_last() =~= s);
}

/// The representation of a number is a non-empty run of digits.
pub proof fn lemma_decimal_is_digits(n: nat)
    ensures
        decimal(n).len() >= 1,
        all_digits(decimal(n)),
    decreases n,
{
    if n >= 10 {
        lemma_decimal_is_digits(n / 10);
        lemma_digit_char_value(n % 10);
    } else {
        lemma_digit_char_value(n);
    }
}

/// The representation of a number denotes that number.
pub proof fn lemma_decimal_value(n: nat)
    ensures
        digits_value(decimal(n)) == n,
    decreases n,
{
    if n >= 10 {
        lemma_decimal_value(n / 10);
        lemma_digit_char_value(n % 10);
        lemma_digits_value_push(decimal(n / 10), digit_char(n % 10));
    } else {
        lemma_digit_char_value(n);
        lemma_digits_value_push(Seq::<char>::empty(), digit_char(n));
        assert(Seq::<char>::empty().push(digit_char(n)) =~= decimal(n));
    }
}

/// The representation has no leading zero, except that zero is written `0`.
pub proof fn lemma_decimal_no_leading_zero(n: nat)
    ensures
        n == 0 ==> decimal(n) == seq!['0'],
        n > 0 ==> decimal(n)[0] != '0',
    decreases n,
{
    if n >= 10 {
        lemma_decimal_no_leading_zero(n / 10);
        lemma_decimal_is_digits(n / 10);
    }
}

/// Text made of a run of digits and a rest without digits can be split into
/// the two in one way only.
pub proof fn lemma_digits_and_rest_split_one_way(
    digits: Seq<char>,
    rest: Seq<char>,
    other_digits: Seq<char>,
    other_rest: Seq<char>,
)
    requires
        all_digits(digits),
        all_digits(other_digits),
        no_digits(rest),
        no_digits(other_rest),
        digits + rest == other_digits + other_rest,
    ensures
        digits == other_digits,
        rest == other_rest,
{
    let text = digits + rest;
    let n = digits.len() as int;
    let m = other_digits.len() as int;
    assert(text.len() == n + rest.len());
    assert(text.len() == m + other_rest.len());
    if n < m {
        assert(text[n] == rest[0]);
        assert(text[n] == other_digits[n]);
    }
    if m < n {
        assert(text[m] == other_rest[0]);
        assert(text[m] == digits[m]);
    }
    assert(digits =~= other_digits) by {
        assert forall|i: int| 0 <= i < n implies digits[i] == other_digits[i] by {
            assert(text[i] == digits[i]);
            assert(text[i] == other_digits[i]);
        }
    }
    assert(rest =~= other_rest) by {
        assert forall|i: int| 0 <= i < rest.len() implies rest[i] == other_rest[i] by {
            assert(text[n + i] == rest[i]);
            assert(text[n + i] == other_rest[i]);
        }
    }
}

/// Reading back the representation of a number gives that number, whenever the
/// number is within the allowed maximum.
pub proof fn lemma_parse_decimal_round_trip(n: nat, max: nat)
    requires
        n <= max,
    ensures
        spec_parse_decimal(decimal(n), max) == Ok::<nat, MagnitudeFault>(n),
{
    lemma_decimal_is_digits(n);
    lemma_decimal_value(n);
}

/// Reads `s` as a magnitude of at most `max`.
///
/// Succeeds exactly when `s` is a non-empty run of decimal digits that denotes
/// a number within `max`; otherwise says which of the three conditions failed,
/// the first in the order empty, not a digit, too large.
pub fn parse_decimal(s: &str, max: u64) -> (r: Result<u64, MagnitudeFault>)
    ensures
        match r {
            Ok(n) => spec_parse_decimal(s@, max as nat) == Ok::<nat, MagnitudeFault>(n as nat),
            Err(fault) => spec_parse_decimal(s@, max as nat) == Err::<nat, MagnitudeFault>(fault),
        },
{
    broadcast use is_ascii_spec_bytes;

    if !s.is_ascii() {
        return Err(MagnitudeFault::NotADigit);
    }
    let bytes = s.as_bytes();
    let len: usize = bytes.len();
    if len == 0 {
        return Err(MagnitudeFault::Empty);
    }
    let mut value: u64 = 0;
    let mut too_large: bool = false;
    let mut i: usize = 0;
    while i < len
        invariant
            is_ascii(s),
            bytes@ == s.spec_bytes(),
            len == s@.len(),
            i <= len,
            all_digits(s@.take(i as int)),
            !too_large ==> value == digits_value(s@.take(i as int)) && value <= max,
            too_large ==> digits_value(s@.take(i as int)) > max,
        decreases len - i,
    {
        let byte: u8 = bytes[i];
        if byte < 48 || byte > 57 {
            assert(!is_digit(s@[i as int]));
            return Err(MagnitudeFault::NotADigit);
        }
        let digit: u64 = (byte - 48) as u64;
        proof {
            assert(is_digit(s@[i as int]));
            assert(digit == digit_value(s@[i as int]));
            assert(s@.take(i + 1) =~= s@.take(i as int).push(s@[i as int]));
            lemma_digits_value_push(s@.take(i as int), s@[i as int]);
            assert(all_digits(s@.take(i + 1))) by {
                assert forall|j: int| 0 <= j < i + 1 implies is_digit(
                    #[trigger] s@.take(i + 1)[j],
                ) by {
                    if j < i {
                        assert(s@.take(i + 1)[j] == s@.take(i as int)[j]);
                    }
                }
            }
        }
        if !too_large {
            if value > max / 10 {
                too_large = true;
            } else if digit > max - value * 10 {
                too_large = true;
            } else {
                value = value * 10 + digit;
            }
        }
        i = i + 1;
    }
    assert(s@.take(len as int) =~= s@);
    if too_large {
        Err(MagnitudeFault::TooLarge)
    } else {
        Ok(value)
    }
}

/// The one-character text of the digit that stands for `d`.
fn digit_text(d: u64) -> (r: &'static str)
    requires
        d < 10,
    ensures
        r@ == seq![digit_char(d as nat)],
{
    proof {
        reveal_strlit("0");
        reveal_strlit("1");
        reveal_strlit("2");
        reveal_strlit("3");
        reveal_strlit("4");
        reveal_strlit("5");
        reveal_strlit("6");
        reveal_strlit("7");
        reveal_strlit("8");
        reveal_strlit("9");
    }
    let r = if d == 0 {
        "0"
    } else if d == 1 {
        "1"
    } else if d == 2 {
        "2"
    } else if d == 3 {
        "3"
    } else if d == 4 {
        "4"
    } else if d == 5 {
        "5"
    } else if d == 6 {
        "6"
    } else if d == 7 {
        "7"
    } else if d == 8 {
        "8"
    } else {
        "9"
    };
    assert(r@ =~= seq![digit_char(d as nat)]);
    r
}

/// Writes `n` in its natural base-ten representation.
pub fn format_decimal(n: u64) -> (r: String)
    ensures
        r@ == decimal(n as nat),
{
    let mut text = String::from_str(digit_text(n % 10));
    let mut rest: u64 = n / 10;
    assert(decimal(n as nat) =~= (if rest > 0 {
        decimal(rest as nat)
    } else {
        Seq::<char>::empty()
    }) + text@);
    while rest > 0
        invariant
            decimal(n as nat) == (if rest > 0 {
                decimal(rest as nat)
            } else {
                Seq::<char>::empty()
            }) + text@,
        decreases rest,
    {
        let mut longer = String::from_str(digit_text(rest % 10));
        longer.append(text.as_str());
        proof {
            let head = if rest / 10 > 0 {
                decimal((rest / 10) as nat)
            } else {
                Seq::<char>::empty()
            };
            assert(decimal(rest as nat) =~= head + seq![digit_char((rest % 10) as nat)]);
            assert(decimal(n as nat) =~= head + longer@);
        }
        text = longer;
        rest = rest / 10;
    }
    text
}

} // verus!
