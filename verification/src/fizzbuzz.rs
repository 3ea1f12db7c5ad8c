//! The FizzBuzz formatter.

use vstd::prelude::*;
use crate::text::{chars_to_string, dec_digits, int_text, u64_to_chars};

verus! {

/// The FizzBuzz text of a number: `FizzBuzz` for multiples of 15, `Fizz` for
/// other multiples of 3, `Buzz` for other multiples of 5, and the number's
/// own decimal text otherwise.
pub open spec fn fizz_buzz_text(num: int) -> Seq<char> {
    let m = if num < 0 {
        -num
    } else {
        num
    };
    if m % 15 == 0 {
        "FizzBuzz"@
    } else if m % 3 == 0 {
        "Fizz"@
    } else if m % 5 == 0 {
        "Buzz"@
    } else {
        int_text(num)
    }
}

/// Renders the decimal text of an integer.
pub fn int_to_string(num: i32) -> (r: String)
    ensures
        r@ == int_text(num as int),
{
    let mut out: Vec<char> = Vec::new();
    let mag: u64 = if num < 0 {
        out.push('-');
        (-(num as i64)) as u64
    } else {
        num as u64
    };
    let mut digits = u64_to_chars(mag);
    let ghost head = out@;
    out.append(&mut digits);
    proof {
        if (num as int) < 0 {
            assert(head =~= seq!['-']);
        } else {
            assert(head + dec_digits(mag as nat) =~= dec_digits(mag as nat));
        }
    }
    chars_to_string(&out)
}

/// Maps a number to its FizzBuzz line.
pub fn fizz_buzz(num: i32) -> (r: String)
    ensures
        r@ == fizz_buzz_text(num as int),
{
    let mag: u64 = if num < 0 {
        (-(num as i64)) as u64
    } else {
        num as u64
    };
    if mag % 15 == 0 {
        "FizzBuzz".to_owned()
    } else if mag % 3 == 0 {
        "Fizz".to_owned()
    } else if mag % 5 == 0 {
        "Buzz".to_owned()
    } else {
        int_to_string(num)
    }
}

} // verus!
