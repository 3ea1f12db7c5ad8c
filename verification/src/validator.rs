//! The mod-11 weighted-sum checksum over a fully recognized account number.

use vstd::prelude::*;
use crate::text::{char_digit, is_digit_char};

verus! {

/// The weighted sum of the first `n` digit characters of `s`, position `p`
/// (0-indexed from the most significant digit) weighing `s.len() - p`.
pub open spec fn weighted_prefix_sum(s: Seq<char>, n: int) -> int
    decreases n,
{
    if n <= 0 {
        0
    } else {
        weighted_prefix_sum(s, n - 1) + char_digit(s[n - 1]) * (s.len() - (n - 1))
    }
}

/// The full weighted digit sum: for a nine-digit number, the leftmost digit
/// weighs 9 and the rightmost weighs 1.
pub open spec fn weighted_sum(s: Seq<char>) -> int {
    weighted_prefix_sum(s, s.len() as int)
}

/// The checksum invariant: the weighted digit sum is divisible by 11.
pub open spec fn checksum_ok(s: Seq<char>) -> bool {
    weighted_sum(s) % 11 == 0
}

/// A checksum was requested for a text that is not a fully recognized
/// nine-digit account number: a caller bug, not a domain outcome.
#[derive(Clone, Copy, Debug, PartialEq, Eq, Structural)]
pub struct PreconditionError;

/// A fully recognized account number: nine characters, all decimal digits.
pub open spec fn fully_recognized(s: Seq<char>) -> bool {
    s.len() == 9 && forall|i: int| 0 <= i < 9 ==> is_digit_char(#[trigger] s[i])
}

/// Evaluates the checksum over the nine digit characters of a fully
/// recognized account number held in a vector.
pub fn checksum_of_chars(chars: &Vec<char>) -> (r: bool)
    requires
        fully_recognized(chars@),
    ensures
        r == checksum_ok(chars@),
{
    let mut sum: u32 = 0;
    let mut i: usize = 0;
    while i < 9
        invariant
            chars@.len() == 9,
            forall|j: int| 0 <= j < 9 ==> is_digit_char(#[trigger] chars@[j]),
            i <= 9,
            sum == weighted_prefix_sum(chars@, i as int),
            sum <= 81 * i,
        decreases 9 - i,
    {
        let d = match crate::text::char_to_digit(chars[i]) {
            Some(d) => d,
            None => {
                proof {
                    assert(is_digit_char(chars@[i as int]));
                    assert(false);
                }
                0
            },
        };
        let weight = 9 - i as u32;
        proof {
            assert((d as u32) * weight <= 81) by (nonlinear_arith)
                requires
                    d < 10,
                    weight <= 9,
            ;
        }
        sum = sum + (d as u32) * weight;
        i += 1;
    }
    sum % 11 == 0
}

/// Evaluates the checksum over a fully recognized nine-digit account number:
/// true exactly when the weighted digit sum is divisible by 11.
pub fn is_valid_account_number(account_number: &str) -> (r: bool)
    requires
        fully_recognized(account_number@),
    ensures
        r == checksum_ok(account_number@),
{
    let chars = crate::text::str_to_chars(account_number);
    checksum_of_chars(&chars)
}

/// Evaluates the checksum, checking its precondition at run time: a text
/// that is not a fully recognized nine-digit number is a caller bug and is
/// signaled as `PreconditionError`, never as a false verdict.
pub fn validate_account_number(account_number: &str) -> (r: Result<bool, PreconditionError>)
    ensures
        match r {
            Ok(b) => fully_recognized(account_number@) && b == checksum_ok(account_number@),
            Err(_) => !fully_recognized(account_number@),
        },
{
    let chars = crate::text::str_to_chars(account_number);
    if chars.len() != 9 {
        return Err(PreconditionError);
    }
    let mut i: usize = 0;
    while i < 9
        invariant
            chars@ == account_number@,
            chars@.len() == 9,
            i <= 9,
            forall|j: int| 0 <= j < i ==> is_digit_char(#[trigger] chars@[j]),
        decreases 9 - i,
    {
        if crate::text::char_to_digit(chars[i]).is_none() {
            return Err(PreconditionError);
        }
        i += 1;
    }
    Ok(checksum_of_chars(&chars))
}

} // verus!
