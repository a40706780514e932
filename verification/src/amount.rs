//! Satoshi amounts: reading one from decimal text, and paying a fee.

use vstd::prelude::*;
use vstd::string::StringExecFns;
use vstd::string::StringSliceAdditionalSpecFns;

verus! {

/// Whether a byte is one of the ASCII digits `0` to `9`.
pub open spec fn is_decimal_digit(c: u8) -> bool {
    0x30 <= c <= 0x39
}

/// Whether every byte of a text is a decimal digit.
pub open spec fn all_decimal_digits(text: Seq<u8>) -> bool {
    forall|i: int| 0 <= i < text.len() ==> is_decimal_digit(#[trigger] text[i])
}

/// The number that a text of decimal digits writes, the most significant
/// digit first; leading zeros count for nothing.
pub open spec fn decimal_value(digits: Seq<u8>) -> int
    decreases digits.len(),
{
    if digits.len() == 0 {
        0
    } else {
        10 * decimal_value(digits.drop_last()) + (digits.last() - 0x30)
    }
}

/// A text without the one `+` that may stand at its head.
pub open spec fn without_plus(text: Seq<u8>) -> Seq<u8> {
    if text.len() > 0 && text[0] == 0x2b {
        text.drop_first()
    } else {
        text
    }
}

/// The amount that a text writes: an optional `+`, then at least one
/// decimal digit and nothing else, for a number that 64 bits can hold.
pub open spec fn amount_of(text: Seq<u8>) -> Option<u64> {
    let digits = without_plus(text);
    if digits.len() > 0 && all_decimal_digits(digits) && decimal_value(digits) <= u64::MAX {
        Some(decimal_value(digits) as u64)
    } else {
        None
    }
}

/// The model of a parsing result.
pub open spec fn parsing_view(r: Result<u64, String>) -> Result<u64, Seq<char>> {
    match r {
        Ok(v) => Ok(v),
        Err(msg) => Err(msg@),
    }
}

/// A text of digits writes no less than any of its beginnings does.
pub proof fn lemma_decimal_value_grows(digits: Seq<u8>, k: int)
    requires
        all_decimal_digits(digits),
        0 <= k <= digits.len(),
    ensures
        0 <= decimal_value(digits.take(k)) <= decimal_value(digits),
    decreases digits.len() - k,
{
    if k == digits.len() {
        assert(digits.take(k) =~= digits);
        lemma_decimal_value_nonnegative(digits);
    } else {
        let front = digits.drop_last();
        assert(front.take(k) =~= digits.take(k));
        assert(is_decimal_digit(digits[digits.len() - 1]));
        lemma_decimal_value_grows(front, k);
    }
}

/// A text of digits writes no negative number.
pub proof fn lemma_decimal_value_nonnegative(digits: Seq<u8>)
    requires
        all_decimal_digits(digits),
    ensures
        0 <= decimal_value(digits),
    decreases digits.len(),
{
    if digits.len() > 0 {
        assert(is_decimal_digit(digits[digits.len() - 1]));
        lemma_decimal_value_nonnegative(digits.drop_last());
    }
}

/// The one error of `parse_satoshis`.
fn invalid_amount() -> (r: Result<u64, String>)
    ensures
        parsing_view(r) == Err::<u64, Seq<char>>("Invalid satoshi amount"@),
{
    Err(String::from_str("Invalid satoshi amount"))
}

/// Reads a satoshi amount from decimal text. Whatever is wrong with the
/// text, the error is the same fixed message.
pub fn parse_satoshis(input: &str) -> (r: Result<u64, String>)
    ensures
        parsing_view(r) == match amount_of(input.spec_bytes()) {
            Some(v) => Ok::<u64, Seq<char>>(v),
            None => Err::<u64, Seq<char>>("Invalid satoshi amount"@),
        },
{
    let text = input.as_bytes();
    let n: usize = text.len();
    let start: usize = if n > 0 && text[0] == 0x2b {
        1
    } else {
        0
    };
    let ghost digits = without_plus(text@);
    if start == n {
        return invalid_amount();
    }
    let mut value: u64 = 0;
    let mut i: usize = start;
    while i < n
        invariant
            start <= i <= n,
            n == text@.len(),
            text@ == input.spec_bytes(),
            digits == without_plus(text@),
            digits.len() == n - start,
            forall|j: int| 0 <= j < digits.len() ==> digits[j] == text@[j + start],
            all_decimal_digits(digits.take(i - start)),
            value == decimal_value(digits.take(i - start)),
        decreases n - i,
    {
        let c: u8 = text[i];
        if c < 0x30 || c > 0x39 {
            assert(!is_decimal_digit(digits[i - start]));
            return invalid_amount();
        }
        let d: u64 = (c - 0x30) as u64;
        let ghost longer = digits.take(i - start + 1);
        assert(longer.drop_last() =~= digits.take(i - start));
        assert(all_decimal_digits(longer));
        if value > (u64::MAX - d) / 10 {
            proof {
                if all_decimal_digits(digits) {
                    lemma_decimal_value_grows(digits, i - start + 1);
                }
            }
            return invalid_amount();
        }
        value = value * 10 + d;
        i += 1;
    }
    assert(digits.take(i - start) =~= digits);
    Ok(value)
}

/// Takes a fee from a balance. A fee beyond the balance leaves nothing,
/// never a debt.
pub fn apply_fee(balance: &mut u64, fee: u64)
    ensures
        *final(balance) == if *old(balance) >= fee {
            *old(balance) - fee
        } else {
            0
        },
{
    *balance = balance.saturating_sub(fee);
}

} // verus!
