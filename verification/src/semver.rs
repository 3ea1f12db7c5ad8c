//! Semantic-version values: construction, printing and parsing.

use vstd::prelude::*;
use crate::text::{
    all_digits, char_to_digit, chars_to_string, dec_digits, dec_value, is_digit_char,
    lemma_dec_value_nonneg, lemma_dec_value_prefix, lines_view, split_chars_on, split_on,
    str_to_chars, u64_to_chars,
};

verus! {

/// Failure to parse a semantic-version string.
#[derive(Clone, Copy, Debug, PartialEq, Eq, Structural)]
pub struct ParseVersionError;

/// A semantic version: major, minor and patch numbers.
#[derive(Clone, Copy, Debug, PartialEq, Eq, Structural)]
pub struct Version {
    pub major: u64,
    pub minor: u64,
    pub patch: u64,
}

/// The canonical text of a version: the three numbers in decimal, joined by
/// dots.
pub open spec fn version_text(major: nat, minor: nat, patch: nat) -> Seq<char> {
    dec_digits(major) + seq!['.'] + dec_digits(minor) + seq!['.'] + dec_digits(patch)
}

/// The string parses as a version: exactly three dot-separated pieces, each a
/// nonempty digit string whose value fits in a `u64`.
pub open spec fn version_parses(s: Seq<char>) -> bool {
    let parts = split_on(s, '.');
    parts.len() == 3 && forall|i: int|
        0 <= i < 3 ==> all_digits(#[trigger] parts[i]) && dec_value(parts[i]) <= u64::MAX
}

/// Parses a nonempty digit string into its value, when it fits.
fn parse_u64_digits(part: &Vec<char>) -> (r: Option<u64>)
    ensures
        match r {
            Some(v) => all_digits(part@) && v as int == dec_value(part@),
            None => !(all_digits(part@) && dec_value(part@) <= u64::MAX),
        },
{
    if part.len() == 0 {
        return None;
    }
    let mut acc: u64 = 0;
    let mut i: usize = 0;
    while i < part.len()
        invariant
            i <= part@.len(),
            forall|j: int| 0 <= j < i ==> is_digit_char(#[trigger] part@[j]),
            acc as int == dec_value(part@.take(i as int)),
        decreases part@.len() - i,
    {
        let d = match char_to_digit(part[i]) {
            Some(d) => d,
            None => {
                return None;
            },
        };
        proof {
            assert(part@.take(i + 1).drop_last() =~= part@.take(i as int));
            assert(part@.take(i + 1).last() == part@[i as int]);
            assert(dec_value(part@.take(i + 1)) == (acc as int) * 10 + d as int);
        }
        let acc10 = match acc.checked_mul(10) {
            Some(x) => x,
            None => {
                proof {
                    if all_digits(part@) {
                        lemma_dec_value_prefix(part@, i + 1);
                    }
                }
                return None;
            },
        };
        let next = match acc10.checked_add(d as u64) {
            Some(x) => x,
            None => {
                proof {
                    if all_digits(part@) {
                        lemma_dec_value_prefix(part@, i + 1);
                    }
                }
                return None;
            },
        };
        acc = next;
        i += 1;
    }
    proof {
        assert(part@.take(part@.len() as int) =~= part@);
    }
    Some(acc)
}

impl Version {
    /// Builds a version from its three numbers.
    pub fn new(major: u64, minor: u64, patch: u64) -> (v: Version)
        ensures
            v.major == major,
            v.minor == minor,
            v.patch == patch,
    {
        Version { major, minor, patch }
    }

    /// Prints the version as `major.minor.patch`.
    pub fn to_string(&self) -> (r: String)
        ensures
            r@ == version_text(self.major as nat, self.minor as nat, self.patch as nat),
    {
        let mut out = u64_to_chars(self.major);
        out.push('.');
        let mut mid = u64_to_chars(self.minor);
        out.append(&mut mid);
        out.push('.');
        let mut tail = u64_to_chars(self.patch);
        out.append(&mut tail);
        proof {
            assert(out@ =~= version_text(
                self.major as nat,
                self.minor as nat,
                self.patch as nat,
            ));
        }
        chars_to_string(&out)
    }

    /// Parses `major.minor.patch`: succeeds exactly when the string is three
    /// dot-separated nonempty digit strings whose values fit in a `u64`.
    pub fn parse(s: &str) -> (r: Result<Version, ParseVersionError>)
        ensures
            match r {
                Ok(v) => version_parses(s@) && v.major as int == dec_value(split_on(s@, '.')[0])
                    && v.minor as int == dec_value(split_on(s@, '.')[1]) && v.patch as int
                    == dec_value(split_on(s@, '.')[2]),
                Err(_) => !version_parses(s@),
            },
    {
        let chars = str_to_chars(s);
        let parts = split_chars_on(&chars, '.');
        proof {
            assert(forall|i: int|
                0 <= i < parts@.len() ==> #[trigger] parts@[i]@ == lines_view(parts)[i]);
        }
        if parts.len() != 3 {
            return Err(ParseVersionError);
        }
        let major = match parse_u64_digits(&parts[0]) {
            Some(v) => v,
            None => {
                return Err(ParseVersionError);
            },
        };
        let minor = match parse_u64_digits(&parts[1]) {
            Some(v) => v,
            None => {
                return Err(ParseVersionError);
            },
        };
        let patch = match parse_u64_digits(&parts[2]) {
            Some(v) => v,
            None => {
                return Err(ParseVersionError);
            },
        };
        proof {
            lemma_dec_value_nonneg(parts@[0]@);
            lemma_dec_value_nonneg(parts@[1]@);
            lemma_dec_value_nonneg(parts@[2]@);
        }
        Ok(Version { major, minor, patch })
    }
}

impl core::str::FromStr for Version {
    type Err = ParseVersionError;

    fn from_str(s: &str) -> Result<Version, ParseVersionError> {
        Version::parse(s)
    }
}

} // verus!
