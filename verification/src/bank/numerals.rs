//! Which texts are amounts, and of how much.
use super::amount;
use super::amount::parse_amount;
use vstd::prelude::*;

verus! {

/// A number as it is written: its decimal digits, the most significant first.
pub open spec fn numeral(n: nat) -> Seq<char>
    decreases n,
{
    if n < 10 {
        seq![('0' as nat + n) as char]
    } else {
        numeral(n / 10).push(('0' as nat + n % 10) as char)
    }
}

/// A text with one more digit stands for ten times as much and the digit.
proof fn lemma_appended_digit(text: Seq<char>, c: char)
    requires
        text.len() > 0,
        text != seq!['+'],
    ensures
        '0' <= c <= '9' ==> amount::denoted_amount(text.push(c)) == match amount::denoted_amount(
            text,
        ) {
            Some(n) if 10 * n + (c as int - '0' as int) <= u128::MAX => Some(
                (10 * n + (c as int - '0' as int)) as u128,
            ),
            _ => None,
        },
        !('0' <= c <= '9') ==> amount::denoted_amount(text.push(c)) is None,
{
    let longer = text.push(c);
    let short = amount::without_plus_sign(text);
    let long = amount::without_plus_sign(longer);
    assert(long =~= short.push(c));
    assert(long.last() == c);
    assert(long.drop_last() =~= short);
    if text[0] == '+' && text.len() == 1 {
        assert(text =~= seq!['+']);
    }
    assert(short.len() > 0);
    if '0' <= c <= '9' {
        assert(amount::is_decimal(long) == amount::is_decimal(short)) by {
            if amount::is_decimal(short) {
                assert forall|i: int| 0 <= i < long.len() implies amount::is_decimal_digit(
                    #[trigger] long[i],
                ) by {
                    if i < short.len() {
                        assert(long[i] == short[i]);
                    }
                }
            }
            if amount::is_decimal(long) {
                assert forall|i: int| 0 <= i < short.len() implies amount::is_decimal_digit(
                    #[trigger] short[i],
                ) by {
                    assert(long[i] == short[i]);
                }
            }
        }
    } else {
        assert(!amount::is_decimal_digit(long[long.len() - 1]));
    }
}

/// A single character is an amount just if it is a digit.
proof fn lemma_single_character(c: char)
    ensures
        amount::denoted_amount(seq![c]) == if '0' <= c <= '9' {
            Some((c as int - '0' as int) as u128)
        } else {
            None
        },
{
    let text = seq![c];
    if c != '+' {
        assert(text[0] == c);
        assert(text.drop_last() =~= seq![]);
        assert(amount::decimal_value(seq![]) == 0);
        if '0' <= c <= '9' {
            assert(amount::is_decimal(text));
        }
    }
}

/// The amount that a text denotes is the one that is read from it.
pub proof fn law_denoted_amount_is_read(text: &str, read: Option<u128>)
    requires
        call_ensures(parse_amount, (text,), read),
    ensures
        read == amount::denoted_amount(text@),
{
}

/// No text, no amount.
pub proof fn law_empty_text_is_no_amount(text: &str, read: Option<u128>)
    requires
        call_ensures(parse_amount, (text,), read),
        text@.len() == 0,
    ensures
        read is None,
{
}

/// A single digit stands for itself, and no other single character is an amount.
pub proof fn law_digit_stands_for_itself(text: &str, read: Option<u128>)
    requires
        call_ensures(parse_amount, (text,), read),
        text@.len() == 1,
    ensures
        '0' <= text@[0] <= '9' ==> (read matches Some(n) && n == text@[0] as int - '0' as int),
        !('0' <= text@[0] <= '9') ==> read is None,
{
    assert(text@ =~= seq![text@[0]]);
    lemma_single_character(text@[0]);
}

/// A digit behind an amount makes it ten times as much and the digit more, as long as 128 bits
/// can hold that. What is no amount is none with another digit either, and any other character
/// behind a text makes it none.
pub proof fn law_digit_behind_counts(
    text: &str,
    read: Option<u128>,
    longer: &str,
    longer_read: Option<u128>,
)
    requires
        call_ensures(parse_amount, (text,), read),
        call_ensures(parse_amount, (longer,), longer_read),
        text@.len() > 0,
        text@ != seq!['+'],
        longer@.len() == text@.len() + 1,
        longer@.drop_last() == text@,
    ensures
        ({
            let digit = longer@.last() as int - '0' as int;
            if 0 <= digit <= 9 {
                match read {
                    Some(n) if 10 * n + digit < 0x1_0000_0000_0000_0000_0000_0000_0000_0000 =>
                        longer_read matches Some(m) && m == 10 * n + digit,
                    _ => longer_read is None,
                }
            } else {
                longer_read is None
            }
        }),
{
    assert(longer@ =~= text@.push(longer@.last()));
    lemma_appended_digit(text@, longer@.last());
}

/// One plus sign in front changes nothing; two are no amount.
pub proof fn law_plus_sign_changes_nothing(
    text: &str,
    read: Option<u128>,
    signed: &str,
    signed_read: Option<u128>,
)
    requires
        call_ensures(parse_amount, (text,), read),
        call_ensures(parse_amount, (signed,), signed_read),
        signed@ == seq!['+'] + text@,
    ensures
        text@.len() > 0 && text@[0] == '+' ==> signed_read is None,
        !(text@.len() > 0 && text@[0] == '+') ==> signed_read == read,
{
    assert(signed@[0] == '+');
    assert(signed@.skip(1) =~= text@);
    if text@.len() > 0 && text@[0] == '+' {
        assert(!amount::is_decimal_digit(text@[0]));
    }
}

proof fn lemma_numeral_is_read_back(n: nat)
    requires
        n <= u128::MAX,
    ensures
        amount::denoted_amount(numeral(n)) == Some(n as u128),
        numeral(n).len() > 0,
        '0' <= numeral(n)[0] <= '9',
    decreases n,
{
    if n < 10 {
        lemma_single_character(('0' as nat + n) as char);
    } else {
        lemma_numeral_is_read_back(n / 10);
        let tens = numeral(n / 10);
        let c = ('0' as nat + n % 10) as char;
        assert(tens != seq!['+']) by {
            assert(tens[0] != '+');
        }
        lemma_appended_digit(tens, c);
        assert(tens.push(c)[0] == tens[0]);
        assert(n == 10 * (n / 10) + n % 10);
    }
}

/// What is written of a number is read as that number.
pub proof fn law_written_number_is_read_back(n: u128, text: &str, read: Option<u128>)
    requires
        call_ensures(parse_amount, (text,), read),
        text@ == numeral(n as nat),
    ensures
        read == Some(n),
{
    lemma_numeral_is_read_back(n as nat);
}

} // verus!
