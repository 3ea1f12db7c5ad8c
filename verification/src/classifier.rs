//! Classifying a recognized entry into one of three statuses.

use vstd::prelude::*;
use crate::text::is_digit_char;
use crate::validator::checksum_ok;

verus! {

/// The status of one scanned entry.
#[derive(Clone, Copy, Debug, PartialEq, Eq, Structural)]
pub enum EntryStatus {
    /// Fully recognized and the checksum holds.
    Valid,
    /// At least one cell was not recognized.
    Illegible,
    /// Fully recognized but the checksum fails.
    ChecksumError,
}

/// A recognized account text is nine characters, each a decimal digit or `'?'`.
pub open spec fn account_text_well_formed(s: Seq<char>) -> bool {
    s.len() == 9 && forall|i: int| 0 <= i < s.len() ==> is_digit_char(#[trigger] s[i]) || s[i]
        == '?'
}

/// The status of a recognized account text: `Illegible` wins over
/// `ChecksumError` (an entry with an unknown digit has no computable
/// checksum), and `Valid` is what remains.
pub open spec fn status_of(s: Seq<char>) -> EntryStatus {
    if s.contains('?') {
        EntryStatus::Illegible
    } else if !checksum_ok(s) {
        EntryStatus::ChecksumError
    } else {
        EntryStatus::Valid
    }
}

/// Classifies a recognized account text into its entry status.
pub fn classify_account(account_number: &str) -> (st: EntryStatus)
    requires
        account_text_well_formed(account_number@),
    ensures
        st == status_of(account_number@),
{
    if crate::text::str_contains_char(account_number, '?') {
        EntryStatus::Illegible
    } else if !crate::validator::is_valid_account_number(account_number) {
        EntryStatus::ChecksumError
    } else {
        EntryStatus::Valid
    }
}

/// What recognition produces is always a well-formed account text, so
/// classification is defined on every recognized entry.
pub proof fn lemma_recognized_text_well_formed(rows: Seq<Seq<char>>)
    ensures
        account_text_well_formed(crate::recognizer::recognized_digits(rows)),
{
    let t = crate::recognizer::recognized_digits(rows);
    assert forall|i: int| 0 <= i < t.len() implies is_digit_char(#[trigger] t[i]) || t[i]
        == '?' by {
        crate::recognizer::lemma_recognized_char_shape(crate::segmenter::cell_at(rows, i));
    }
}

/// Classification is total and mutually exclusive: every well-formed account
/// text has exactly one status, characterized by the conditions below.
pub proof fn lemma_status_total_and_exclusive(s: Seq<char>)
    requires
        account_text_well_formed(s),
    ensures
        (status_of(s) == EntryStatus::Illegible <==> s.contains('?')),
        (status_of(s) == EntryStatus::ChecksumError <==> !s.contains('?') && !checksum_ok(s)),
        (status_of(s) == EntryStatus::Valid <==> !s.contains('?') && checksum_ok(s)),
{
}

} // verus!
