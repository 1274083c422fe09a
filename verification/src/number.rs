//! Reading a text as a decimal number.

use vstd::prelude::*;
use crate::text::strip_prefix;

verus! {

/// Whether `c` is one of the digits `0` to `9`.
pub open spec fn is_digit(c: char) -> bool {
    '0' <= c && c <= '9'
}

/// Every character of `text` is a digit.
pub open spec fn all_digits(text: Seq<char>) -> bool {
    forall|i: int| 0 <= i < text.len() ==> is_digit(#[trigger] text[i])
}

/// The number that the digits `digits` spell in base ten.
pub open spec fn decimal_value(digits: Seq<char>) -> int
    decreases digits.len(),
{
    if digits.len() == 0 {
        0
    } else {
        decimal_value(digits.drop_last()) * 10 + (digits.last() as int - '0' as int)
    }
}

/// Whether `text` starts with a minus sign.
pub open spec fn is_negative(text: Seq<char>) -> bool {
    text.len() > 0 && text[0] == '-'
}

/// `text` without the plus or minus sign that it may start with.
pub open spec fn unsigned_part(text: Seq<char>) -> Seq<char> {
    if text.len() > 0 && (text[0] == '-' || text[0] == '+') {
        text.drop_first()
    } else {
        text
    }
}

/// The number that `text` spells: an optional sign, then digits and
/// nothing else, at least one of them. There is none if the text has
/// another form or if the number does not fit an `i32`.
pub open spec fn parsed_i32(text: Seq<char>) -> Option<i32> {
    let digits = unsigned_part(text);
    let value = if is_negative(text) {
        -decimal_value(digits)
    } else {
        decimal_value(digits)
    };
    if digits.len() > 0 && all_digits(digits) && i32::MIN <= value <= i32::MAX {
        Some(value as i32)
    } else {
        None
    }
}

/// Digits added at the end make a number no smaller.
proof fn lemma_decimal_value_grows(digits: Seq<char>, k: int)
    requires
        all_digits(digits),
        0 <= k <= digits.len(),
    ensures
        0 <= decimal_value(digits.take(k)) <= decimal_value(digits),
    decreases digits.len() - k,
{
    if k == digits.len() {
        assert(digits.take(k) =~= digits);
        lemma_decimal_value_is_natural(digits);
    } else {
        lemma_decimal_value_grows(digits, k + 1);
        assert(digits.take(k + 1).drop_last() =~= digits.take(k));
        lemma_decimal_value_is_natural(digits.take(k));
    }
}

/// Digits spell no negative number.
proof fn lemma_decimal_value_is_natural(digits: Seq<char>)
    requires
        all_digits(digits),
    ensures
        0 <= decimal_value(digits),
    decreases digits.len(),
{
    if digits.len() > 0 {
        lemma_decimal_value_is_natural(digits.drop_last());
    }
}

/// Reads `text` as a decimal number with or without a sign.
pub fn parse_i32(text: &str) -> (number: Option<i32>)
    ensures
        number == parsed_i32(text@),
{
    let (negative, digits) = match strip_prefix(text, "-") {
        Some(rest) => (true, rest),
        None => match strip_prefix(text, "+") {
            Some(rest) => (false, rest),
            None => (false, text),
        },
    };
    proof {
        reveal_strlit("-");
        reveal_strlit("+");
        assert(text@.len() > 0 ==> text@.subrange(0, 1)[0] == text@[0]);
    }
    let mut value: i64 = 0;
    let mut any = false;
    for c in it: digits.chars()
        invariant
            it.seq() == digits@,
            digits@ == unsigned_part(text@),
            negative == is_negative(text@),
            any == (it.index() > 0),
            all_digits(digits@.take(it.index())),
            value == decimal_value(digits@.take(it.index())),
            0 <= value <= 0x8000_0000,
    {
        assert(digits@.take(it.index() + 1).drop_last() =~= digits@.take(it.index()));
        if !(c >= '0' && c <= '9') {
            return None;
        }
        value = value * 10 + ((c as u8) - 48) as i64;
        any = true;
        if value > 0x8000_0000 {
            proof {
                if all_digits(digits@) {
                    lemma_decimal_value_grows(digits@, it.index() + 1);
                }
            }
            return None;
        }
    }
    assert(digits@.take(digits@.len() as int) =~= digits@);
    if !any {
        None
    } else if negative {
        Some((-value) as i32)
    } else if value == 0x8000_0000 {
        None
    } else {
        Some(value as i32)
    }
}

} // verus!
