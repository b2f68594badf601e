//! The amount of a transfer as a host hands it over: a text.

use crate::tree::TreeError;
use vstd::prelude::*;
use vstd::string::StrSliceExecFns;

verus! {

/// `c` is one of the ten decimal digits.
pub open spec fn is_digit(c: char) -> bool {
    '0' <= c <= '9'
}

/// The number that a string of decimal digits stands for.
pub open spec fn digits_value(digits: Seq<char>) -> nat
    decreases digits.len(),
{
    if digits.len() == 0 {
        0
    } else {
        digits_value(digits.drop_last()) * 10 + (digits.last() as u32 - '0' as u32) as nat
    }
}

/// The text without the plus sign that may stand in front of an amount.
pub open spec fn amount_digits(text: Seq<char>) -> Seq<char> {
    if text.len() > 0 && text[0] == '+' {
        text.subrange(1, text.len() as int)
    } else {
        text
    }
}

/// The text is an amount: decimal digits, at least one, after at most one
/// plus sign, for a number that 64 bits hold.
pub open spec fn is_amount(text: Seq<char>) -> bool {
    let digits = amount_digits(text);
    &&& digits.len() > 0
    &&& forall|i: int| 0 <= i < digits.len() ==> is_digit(#[trigger] digits[i])
    &&& digits_value(digits) <= u64::MAX
}

/// The first digits of a string stand for no more than the whole string.
pub proof fn lemma_digits_prefix(digits: Seq<char>, k: int)
    requires
        0 <= k <= digits.len(),
        forall|i: int| 0 <= i < digits.len() ==> is_digit(#[trigger] digits[i]),
    ensures
        digits_value(digits.subrange(0, k)) <= digits_value(digits),
    decreases digits.len(),
{
    if k == digits.len() {
        assert(digits.subrange(0, k) =~= digits);
    } else {
        lemma_digits_prefix(digits.drop_last(), k);
        assert(digits.drop_last().subrange(0, k) =~= digits.subrange(0, k));
    }
}

/// Reads an amount.
pub fn parse_amount(text: &str) -> (result: Result<u64, TreeError>)
    ensures
        is_amount(text@) ==> result == Ok::<u64, TreeError>(
            digits_value(amount_digits(text@)) as u64,
        ),
        !is_amount(text@) ==> result == Err::<u64, TreeError>(TreeError::MalformedAmount),
{
    let n = text.unicode_len();
    let mut i: usize = 0;
    if n > 0 && text.get_char(0) == '+' {
        i = 1;
    }
    let start: usize = i;
    let ghost digits = amount_digits(text@);
    if i == n {
        return Err(TreeError::MalformedAmount);
    }
    let mut value: u64 = 0;
    while i < n
        invariant
            start <= i <= n,
            n == text@.len(),
            digits == amount_digits(text@),
            digits == text@.subrange(start as int, n as int),
            forall|j: int| 0 <= j < i - start ==> is_digit(#[trigger] digits[j]),
            value == digits_value(digits.subrange(0, i - start)),
        decreases n - i,
    {
        let c = text.get_char(i);
        if c < '0' || c > '9' {
            assert(!is_digit(digits[i - start]));
            return Err(TreeError::MalformedAmount);
        }
        let d: u64 = (c as u32 - '0' as u32) as u64;
        proof {
            let longer = digits.subrange(0, i - start + 1);
            assert(longer.drop_last() =~= digits.subrange(0, i - start));
        }
        if value > (u64::MAX - d) / 10 {
            proof {
                if forall|j: int| 0 <= j < digits.len() ==> is_digit(#[trigger] digits[j]) {
                    lemma_digits_prefix(digits, i - start + 1);
                }
            }
            return Err(TreeError::MalformedAmount);
        }
        value = value * 10 + d;
        i = i + 1;
    }
    proof {
        assert(digits.subrange(0, i - start) =~= digits);
    }
    Ok(value)
}

} // verus!
