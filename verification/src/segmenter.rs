//! Splitting one raw scanned entry into nine fixed-size glyph cells.
//!
//! A well-formed raw scan holds at least three content rows, each at least 27
//! characters wide; cell `i` is the 3-by-3 block at columns `[3*i, 3*i + 3)`
//! of the first three rows. A fourth blank trailer row, if present, is
//! ignored.

use vstd::prelude::*;
use crate::recognizer::glyph_view;
use crate::text::{lines_view, split_lines, split_chars_into_lines, str_to_chars};

verus! {

/// A malformed raw scan: fewer than three rows, or one of the first three
/// rows too short.
#[derive(Clone, Copy, Debug, PartialEq, Eq, Structural)]
pub struct FormatError;

/// The nine characters of entry cell `idx`, read row by row from the first
/// three rows.
pub open spec fn cell_at(rows: Seq<Seq<char>>, idx: int) -> Seq<char> {
    Seq::new(
        9,
        |k: int|
            if k < 3 {
                rows[0][3 * idx + k]
            } else if k < 6 {
                rows[1][3 * idx + k - 3]
            } else {
                rows[2][3 * idx + k - 6]
            },
    )
}

/// A raw scan is well formed when it has at least three rows and each of the
/// first three is at least 27 characters wide.
pub open spec fn entry_well_formed(s: Seq<char>) -> bool {
    &&& split_lines(s).len() >= 3
    &&& forall|r: int| 0 <= r < 3 ==> #[trigger] split_lines(s)[r].len() >= 27
}

/// Builds the glyph of cell `index` from the split rows of an entry.
fn cell_glyph(rows: &Vec<Vec<char>>, index: usize) -> (g: [[char; 3]; 3])
    requires
        index < 9,
        rows@.len() >= 3,
        forall|r: int| 0 <= r < 3 ==> #[trigger] rows@[r]@.len() >= 3 * (index as int) + 3,
    ensures
        glyph_view(g) == cell_at(lines_view(*rows), index as int),
{
    let c = 3 * index;
    let g: [[char; 3]; 3] = [
        [rows[0][c], rows[0][c + 1], rows[0][c + 2]],
        [rows[1][c], rows[1][c + 1], rows[1][c + 2]],
        [rows[2][c], rows[2][c + 1], rows[2][c + 2]],
    ];
    proof {
        assert(glyph_view(g) =~= cell_at(lines_view(*rows), index as int));
    }
    g
}

/// Cuts the 3-by-3 block of cell `index` out of a raw entry whose rows are
/// wide enough to hold it.
pub fn cat_number(line: &str, index: usize) -> (g: [[char; 3]; 3])
    requires
        index < 9,
        split_lines(line@).len() >= 3,
        forall|r: int| 0 <= r < 3 ==> #[trigger] split_lines(line@)[r].len() >= 3 * (index as int)
            + 3,
    ensures
        glyph_view(g) == cell_at(split_lines(line@), index as int),
{
    let chars = str_to_chars(line);
    let rows = split_chars_into_lines(&chars);
    proof {
        assert(forall|r: int| 0 <= r < 3 ==> #[trigger] rows@[r]@ == lines_view(rows)[r]);
    }
    cell_glyph(&rows, index)
}

/// Splits one raw scanned entry into its nine glyph cells, left to right.
/// Fails with `FormatError`, producing no partial result, exactly when the
/// entry is malformed.
pub fn segment_entry(text: &str) -> (r: Result<Vec<[[char; 3]; 3]>, FormatError>)
    ensures
        match r {
            Ok(gs) => entry_well_formed(text@) && gs@.len() == 9 && forall|i: int|
                0 <= i < 9 ==> glyph_view(#[trigger] gs@[i]) == cell_at(split_lines(text@), i),
            Err(_) => !entry_well_formed(text@),
        },
{
    let chars = str_to_chars(text);
    let rows = split_chars_into_lines(&chars);
    proof {
        assert(forall|r: int| 0 <= r < rows@.len() ==> #[trigger] rows@[r]@ == lines_view(rows)[r]);
    }
    if rows.len() < 3 {
        return Err(FormatError);
    }
    let mut r: usize = 0;
    while r < 3
        invariant
            rows@.len() >= 3,
            lines_view(rows) == split_lines(text@),
            forall|q: int| 0 <= q < rows@.len() ==> #[trigger] rows@[q]@ == lines_view(rows)[q],
            r <= 3,
            forall|q: int| 0 <= q < r ==> #[trigger] split_lines(text@)[q].len() >= 27,
        decreases 3 - r,
    {
        if rows[r].len() < 27 {
            return Err(FormatError);
        }
        r += 1;
    }
    let mut gs: Vec<[[char; 3]; 3]> = Vec::new();
    let mut i: usize = 0;
    while i < 9
        invariant
            rows@.len() >= 3,
            lines_view(rows) == split_lines(text@),
            forall|q: int| 0 <= q < rows@.len() ==> #[trigger] rows@[q]@ == lines_view(rows)[q],
            forall|q: int| 0 <= q < 3 ==> #[trigger] split_lines(text@)[q].len() >= 27,
            i <= 9,
            gs@.len() == i,
            forall|j: int|
                0 <= j < i ==> glyph_view(#[trigger] gs@[j]) == cell_at(split_lines(text@), j),
        decreases 9 - i,
    {
        let g = cell_glyph(&rows, i);
        gs.push(g);
        i += 1;
    }
    Ok(gs)
}

} // verus!
