//! Searching for the most plausible single-digit correction of an entry.
//!
//! When an entry is illegible or fails the checksum, every position is tried
//! in turn: each digit whose canonical glyph is within Hamming distance 1 of
//! the scanned cell yields a trial number. The distinct trial numbers that
//! are fully recognized and pass the checksum decide the outcome: exactly one
//! is a unique correction, none is unresolvable, several are ambiguous.

use vstd::prelude::*;
use crate::recognizer::{
    canonical_glyph, generate_one_off_patterns, glyph_view, hamming, lemma_near_miss_membership,
    lemma_recognized_char_shape, near_miss_digits, recognize_digit, recognized_char,
};
use crate::text::{
    char_vec_eq, chars_to_string, digit_char, digit_to_char, is_digit_char,
    lemma_digit_char_is_digit, vec_contains_char,
};
use crate::validator::{checksum_of_chars, checksum_ok};

verus! {

/// The views of a row of glyph cells.
pub open spec fn glyph_views(gs: Seq<[[char; 3]; 3]>) -> Seq<Seq<char>> {
    Seq::new(gs.len(), |i: int| glyph_view(gs[i]))
}

/// The best current recognition of each cell of an entry.
pub open spec fn base_reading(gv: Seq<Seq<char>>) -> Seq<char> {
    Seq::new(gv.len(), |i: int| recognized_char(gv[i]))
}

/// `t` is a plausible corrected number for the nine cells `gv`: the
/// recognized reading with exactly one position `i` replaced by a digit whose
/// canonical glyph is within Hamming distance 1 of cell `i`, such that the
/// result is fully recognized and passes the checksum.
pub open spec fn is_correction(gv: Seq<Seq<char>>, t: Seq<char>) -> bool {
    exists|i: int, d: int|
        0 <= i < 9 && 0 <= d < 10 && #[trigger] hamming(gv[i], canonical_glyph(d)) <= 1 && t
            == base_reading(gv).update(i, digit_char(d)) && !t.contains('?') && checksum_ok(t)
}

/// The outcome of a correction search.
#[derive(Debug, PartialEq, Eq)]
pub enum CorrectionResult {
    /// Exactly one distinct corrected number exists; it is the resolved value.
    Unique(String),
    /// No corrected number exists.
    Unresolvable,
    /// More than one distinct corrected number exists; the caller must not
    /// guess among them.
    Ambiguous,
}

/// Some vector in `found` holds exactly the characters `t`.
spec fn in_found(found: Seq<Vec<char>>, t: Seq<char>) -> bool {
    exists|j: int| 0 <= j < found.len() && #[trigger] found[j]@ == t
}

/// The trial for position `i` and digit `d` has been dealt with: if it
/// survives the filters, it has been recorded.
spec fn handled(gv: Seq<Seq<char>>, found: Seq<Vec<char>>, i: int, d: int) -> bool {
    let t = base_reading(gv).update(i, digit_char(d));
    (!t.contains('?') && checksum_ok(t)) ==> in_found(found, t)
}

/// Recording one more trial keeps every previously recorded one.
proof fn lemma_in_found_push(found: Seq<Vec<char>>, x: Vec<char>, t: Seq<char>)
    requires
        in_found(found, t),
    ensures
        in_found(found.push(x), t),
{
    let j = choose|j: int| 0 <= j < found.len() && #[trigger] found[j]@ == t;
    assert(found.push(x)[j]@ == t);
}

/// Copies a character vector with one position replaced.
fn vec_with_char_at(v: &Vec<char>, i: usize, c: char) -> (r: Vec<char>)
    requires
        i < v@.len(),
    ensures
        r@ == v@.update(i as int, c),
{
    let mut r: Vec<char> = Vec::new();
    let mut j: usize = 0;
    while j < v.len()
        invariant
            i < v@.len(),
            j <= v@.len(),
            r@.len() == j,
            forall|k: int| 0 <= k < j ==> r@[k] == v@.update(i as int, c)[k],
        decreases v@.len() - j,
    {
        if j == i {
            r.push(c);
        } else {
            r.push(v[j]);
        }
        j += 1;
    }
    proof {
        assert(r@ =~= v@.update(i as int, c));
    }
    r
}

/// Whether one of the recorded trials holds exactly the characters `t`.
fn found_contains(found: &Vec<Vec<char>>, t: &Vec<char>) -> (r: bool)
    ensures
        r == in_found(found@, t@),
{
    let mut j: usize = 0;
    while j < found.len()
        invariant
            j <= found@.len(),
            forall|k: int| 0 <= k < j ==> #[trigger] found@[k]@ != t@,
        decreases found@.len() - j,
    {
        if char_vec_eq(&found[j], t) {
            proof {
                assert(found@[j as int]@ == t@);
            }
            return true;
        }
        j += 1;
    }
    false
}

/// Searches for a single-digit correction of the entry held in the nine
/// original glyph cells. The result is `Unique` exactly when one distinct
/// corrected number exists, `Unresolvable` when none does, and `Ambiguous`
/// when several do; the decision depends only on the cells, not on any
/// evaluation order.
pub fn correct_account_number(glyphs: &Vec<[[char; 3]; 3]>) -> (r: CorrectionResult)
    requires
        glyphs@.len() == 9,
    ensures
        match r {
            CorrectionResult::Unique(s) => is_correction(glyph_views(glyphs@), s@) && forall|
                t: Seq<char>,
            |
                is_correction(glyph_views(glyphs@), t) ==> t == s@,
            CorrectionResult::Unresolvable => forall|t: Seq<char>|
                !is_correction(glyph_views(glyphs@), t),
            CorrectionResult::Ambiguous => exists|t1: Seq<char>, t2: Seq<char>|
                is_correction(glyph_views(glyphs@), t1) && is_correction(glyph_views(glyphs@), t2)
                    && t1 != t2,
        },
{
    let ghost gv = glyph_views(glyphs@);
    // Recognize every cell once: the best current reading.
    let mut base: Vec<char> = Vec::new();
    let mut i: usize = 0;
    while i < 9
        invariant
            glyphs@.len() == 9,
            gv == glyph_views(glyphs@),
            i <= 9,
            base@.len() == i,
            forall|j: int| 0 <= j < i ==> base@[j] == base_reading(gv)[j],
        decreases 9 - i,
    {
        let c = recognize_digit(glyphs[i]);
        base.push(c);
        i += 1;
    }
    proof {
        assert(base@ =~= base_reading(gv));
    }
    // With two or more unrecognized cells, replacing a single position can
    // never produce a fully recognized number: the search is not attempted.
    let mut first_unknown: Option<usize> = None;
    let mut second_unknown: Option<usize> = None;
    let mut p: usize = 0;
    while p < 9
        invariant
            base@ == base_reading(gv),
            base@.len() == 9,
            p <= 9,
            match first_unknown {
                Some(q) => q < p && base@[q as int] == '?',
                None => second_unknown is None,
            },
            match second_unknown {
                Some(q) => q < p && base@[q as int] == '?' && first_unknown is Some
                    && first_unknown->0 != q,
                None => true,
            },
        decreases 9 - p,
    {
        if second_unknown.is_none() && base[p] == '?' {
            if first_unknown.is_none() {
                first_unknown = Some(p);
            } else {
                second_unknown = Some(p);
            }
        }
        p += 1;
    }
    if let Some(q2) = second_unknown {
        let q1 = match first_unknown {
            Some(q) => q,
            None => {
                proof {
                    assert(false);
                }
                0
            },
        };
        proof {
            assert forall|t: Seq<char>| !is_correction(gv, t) by {
                if is_correction(gv, t) {
                    let (i0, d0) = choose|i0: int, d0: int|
                        0 <= i0 < 9 && 0 <= d0 < 10 && #[trigger] hamming(
                            gv[i0],
                            canonical_glyph(d0),
                        ) <= 1 && t == base_reading(gv).update(i0, digit_char(d0)) && !t.contains(
                            '?',
                        ) && checksum_ok(t);
                    let q = if i0 == q1 as int {
                        q2 as int
                    } else {
                        q1 as int
                    };
                    assert(t[q] == '?');
                    assert(t.contains('?'));
                }
            }
        }
        return CorrectionResult::Unresolvable;
    }
    // Try every position and every plausible digit for it; keep the distinct
    // trial numbers that are fully recognized and pass the checksum.
    let mut found: Vec<Vec<char>> = Vec::new();
    let mut i: usize = 0;
    while i < 9
        invariant
            glyphs@.len() == 9,
            gv == glyph_views(glyphs@),
            base@ == base_reading(gv),
            base@.len() == 9,
            i <= 9,
            forall|j: int| 0 <= j < found@.len() ==> is_correction(gv, #[trigger] found@[j]@),
            forall|j1: int, j2: int|
                0 <= j1 < j2 < found@.len() ==> #[trigger] found@[j1]@ != #[trigger] found@[j2]@,
            forall|ii: int, d: int|
                0 <= ii < i && 0 <= d < 10 && #[trigger] hamming(gv[ii], canonical_glyph(d)) <= 1
                    ==> handled(gv, found@, ii, d),
        decreases 9 - i,
    {
        let cands = generate_one_off_patterns(glyphs[i]);
        let mut d: u8 = 0;
        while d < 10
            invariant
                glyphs@.len() == 9,
                gv == glyph_views(glyphs@),
                base@ == base_reading(gv),
                base@.len() == 9,
                i < 9,
                cands@ == near_miss_digits(gv[i as int]),
                d <= 10,
                forall|j: int| 0 <= j < found@.len() ==> is_correction(gv, #[trigger] found@[j]@),
                forall|j1: int, j2: int|
                    0 <= j1 < j2 < found@.len() ==> #[trigger] found@[j1]@ != #[trigger] found@[j2]@,
                forall|ii: int, dd: int|
                    0 <= ii < i && 0 <= dd < 10 && #[trigger] hamming(gv[ii], canonical_glyph(dd))
                        <= 1 ==> handled(gv, found@, ii, dd),
                forall|dd: int|
                    0 <= dd < d && #[trigger] hamming(gv[i as int], canonical_glyph(dd)) <= 1
                        ==> handled(gv, found@, i as int, dd),
            decreases 10 - d,
        {
            let c = digit_to_char(d);
            proof {
                lemma_near_miss_membership(gv[i as int], d as int);
                lemma_digit_char_is_digit(d as int);
            }
            if vec_contains_char(&cands, c) {
                let trial = vec_with_char_at(&base, i, c);
                let ghost t = base_reading(gv).update(i as int, digit_char(d as int));
                proof {
                    assert(trial@ == t);
                }
                if !vec_contains_char(&trial, '?') {
                    proof {
                        assert forall|q: int| 0 <= q < 9 implies is_digit_char(
                            #[trigger] trial@[q],
                        ) by {
                            if q != i as int {
                                lemma_recognized_char_shape(gv[q]);
                                assert(trial@[q] == base_reading(gv)[q]);
                            }
                            assert(trial@[q] != '?');
                        }
                    }
                    if checksum_of_chars(&trial) {
                        proof {
                            assert(is_correction(gv, t));
                        }
                        if !found_contains(&found, &trial) {
                            let ghost old_found = found@;
                            found.push(trial);
                            proof {
                                assert(found@[found@.len() - 1]@ == t);
                                assert forall|ii: int, dd: int|
                                    0 <= ii < 9 && 0 <= dd < 10 && handled(gv, old_found, ii, dd)
                                        implies handled(gv, found@, ii, dd) by {
                                    let tt = base_reading(gv).update(ii, digit_char(dd));
                                    if !tt.contains('?') && checksum_ok(tt) {
                                        lemma_in_found_push(old_found, found[found@.len() - 1], tt);
                                        assert(found@ == old_found.push(
                                            found[found@.len() - 1],
                                        ));
                                    }
                                }
                            }
                        }
                        proof {
                            assert(in_found(found@, t));
                        }
                    }
                }
            } else {
                proof {
                    assert(!(hamming(gv[i as int], canonical_glyph(d as int)) <= 1));
                }
            }
            d += 1;
        }
        i += 1;
    }
    proof {
        assert forall|t: Seq<char>| is_correction(gv, t) implies in_found(found@, t) by {
            let (i0, d0) = choose|i0: int, d0: int|
                0 <= i0 < 9 && 0 <= d0 < 10 && #[trigger] hamming(gv[i0], canonical_glyph(d0)) <= 1
                    && t == base_reading(gv).update(i0, digit_char(d0)) && !t.contains('?')
                    && checksum_ok(t);
            assert(handled(gv, found@, i0, d0));
        }
    }
    if found.len() == 0 {
        CorrectionResult::Unresolvable
    } else if found.len() == 1 {
        let s = chars_to_string(&found[0]);
        proof {
            assert(is_correction(gv, found@[0]@));
            assert forall|t: Seq<char>| is_correction(gv, t) implies t == s@ by {
                let j = choose|j: int| 0 <= j < found@.len() && #[trigger] found@[j]@ == t;
            }
        }
        CorrectionResult::Unique(s)
    } else {
        proof {
            assert(is_correction(gv, found@[0]@));
            assert(is_correction(gv, found@[1]@));
            assert(found@[0]@ != found@[1]@);
        }
        CorrectionResult::Ambiguous
    }
}

} // verus!
