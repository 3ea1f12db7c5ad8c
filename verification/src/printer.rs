//! Rendering a recognized entry for presentation.

use vstd::prelude::*;
use crate::classifier::account_text_well_formed;
use crate::validator::checksum_ok;

verus! {

/// The reported line for a recognized account text: the text itself when
/// valid, with the suffix ` ILL` when a cell is unrecognized, and with the
/// suffix ` ERR` when the checksum fails.
pub open spec fn report_line(s: Seq<char>) -> Seq<char> {
    if s.contains('?') {
        s + " ILL"@
    } else if !checksum_ok(s) {
        s + " ERR"@
    } else {
        s
    }
}

/// Renders a recognized account text, appending ` ILL` for an illegible
/// entry and ` ERR` for a checksum failure.
pub fn print_account_number(account_number: &str) -> (r: String)
    requires
        account_text_well_formed(account_number@),
    ensures
        r@ == report_line(account_number@),
{
    let mut r = account_number.to_owned();
    if crate::text::str_contains_char(account_number, '?') {
        r.append(" ILL");
        r
    } else if !crate::validator::is_valid_account_number(account_number) {
        r.append(" ERR");
        r
    } else {
        r
    }
}

} // verus!
