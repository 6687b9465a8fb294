//! Coin amounts, which travel as decimal text.
use vstd::prelude::*;

verus! {

pub open spec fn is_decimal_digit(c: char) -> bool {
    '0' <= c <= '9'
}

/// Whether every character is a decimal digit.
pub open spec fn is_decimal(text: Seq<char>) -> bool {
    forall|i: int| 0 <= i < text.len() ==> is_decimal_digit(#[trigger] text[i])
}

/// The number that a row of decimal digits stands for; no digits stand for zero.
pub open spec fn decimal_value(digits: Seq<char>) -> nat
    decreases digits.len(),
{
    if digits.len() == 0 {
        0
    } else {
        10 * decimal_value(digits.drop_last()) + (digits.last() as nat - '0' as nat) as nat
    }
}

/// The text without the one plus sign it may start with.
pub open spec fn without_plus_sign(text: Seq<char>) -> Seq<char> {
    if text.len() > 0 && text[0] == '+' {
        text.skip(1)
    } else {
        text
    }
}

/// The amount that a text denotes: an optional plus sign, then one or more decimal digits
/// and nothing else, with a value that a `u128` can hold.
pub open spec fn denoted_amount(text: Seq<char>) -> Option<u128> {
    let digits = without_plus_sign(text);
    if digits.len() > 0 && is_decimal(digits) && decimal_value(digits) <= u128::MAX {
        Some(decimal_value(digits) as u128)
    } else {
        None
    }
}

/// Reading further digits never makes the number smaller.
proof fn lemma_decimal_value_grows(digits: Seq<char>, k: int)
    requires
        0 <= k <= digits.len(),
        is_decimal(digits),
    ensures
        decimal_value(digits.take(k)) <= decimal_value(digits),
    decreases digits.len(),
{
    if k == digits.len() {
        assert(digits.take(k) =~= digits);
    } else {
        lemma_decimal_value_grows(digits.drop_last(), k);
        assert(digits.drop_last().take(k) =~= digits.take(k));
    }
}

/// Reads an amount as `u128::from_str` does.
pub fn parse_amount(text: &str) -> (amount: Option<u128>)
    ensures
        amount == denoted_amount(text@),
{
    let mut value: u128 = 0;
    let mut at_start: bool = true;
    let mut any_digit: bool = false;
    let ghost digits = without_plus_sign(text@);
    for c in chars: text.chars()
        invariant
            chars.seq() == text@,
            digits == without_plus_sign(text@),
            at_start == (chars.index() == 0),
            any_digit == (without_plus_sign(text@.take(chars.index() as int)).len() > 0),
            forall|i: int|
                0 <= i < without_plus_sign(text@.take(chars.index() as int)).len()
                    ==> is_decimal_digit(digits[i]),
            value == decimal_value(without_plus_sign(text@.take(chars.index() as int))),
    {
        let ghost k = chars.index() as int;
        let ghost read = without_plus_sign(text@.take(k));
        proof {
            assert(text@.take(k + 1) =~= text@.take(k).push(c));
        }
        if at_start && c == '+' {
            proof {
                assert(text@.take(k + 1).skip(1) =~= Seq::<char>::empty());
            }
            at_start = false;
        } else {
            at_start = false;
            any_digit = true;
            proof {
                assert(without_plus_sign(text@.take(k + 1)) =~= read.push(c));
                assert(read =~= digits.take(read.len() as int));
                assert(digits[read.len() as int] == c);
                assert(read.push(c) =~= digits.take(read.len() as int + 1));
                assert(read.push(c).drop_last() =~= read);
            }
            if c < '0' || c > '9' {
                assert(!is_decimal_digit(digits[read.len() as int]));
                return None;
            }
            let digit: u128 = (c as u32 - '0' as u32) as u128;
            proof {
                if is_decimal(digits) {
                    lemma_decimal_value_grows(digits, read.len() as int + 1);
                }
            }
            let tenfold: u128 = match value.checked_mul(10) {
                Some(tenfold) => tenfold,
                None => {
                    return None;
                },
            };
            value = match tenfold.checked_add(digit) {
                Some(sum) => sum,
                None => {
                    return None;
                },
            };
        }
    }
    proof {
        assert(text@.take(text@.len() as int) =~= text@);
    }
    if any_digit {
        Some(value)
    } else {
        None
    }
}

} // verus!
