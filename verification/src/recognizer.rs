//! Digit recognition over scanned glyphs.
//!
//! A glyph is a 3-row, 3-column block of characters drawn from
//! `{' ', '_', '|'}`. Each of the ten digits has one canonical glyph;
//! recognition is exact structural equality against that catalogue.

use vstd::prelude::*;
use crate::text::digit_char;

verus! {

/// The character of a glyph at flat position `k` (row `k / 3`, column `k % 3`).
pub open spec fn glyph_cell(g: [[char; 3]; 3], k: int) -> char {
    if k < 3 {
        g@[0]@[k]
    } else if k < 6 {
        g@[1]@[k - 3]
    } else {
        g@[2]@[k - 6]
    }
}

/// The nine characters of a glyph, row by row.
pub open spec fn glyph_view(g: [[char; 3]; 3]) -> Seq<char> {
    Seq::new(9, |k: int| glyph_cell(g, k))
}

/// The canonical glyph of digit `d`, flattened row by row.
pub open spec fn canonical_glyph(d: int) -> Seq<char> {
    if d == 0 {
        seq![' ', '_', ' ', '|', ' ', '|', '|', '_', '|']
    } else if d == 1 {
        seq![' ', ' ', ' ', ' ', ' ', '|', ' ', ' ', '|']
    } else if d == 2 {
        seq![' ', '_', ' ', ' ', '_', '|', '|', '_', ' ']
    } else if d == 3 {
        seq![' ', '_', ' ', ' ', '_', '|', ' ', '_', '|']
    } else if d == 4 {
        seq![' ', ' ', ' ', '|', '_', '|', ' ', ' ', '|']
    } else if d == 5 {
        seq![' ', '_', ' ', '|', '_', ' ', ' ', '_', '|']
    } else if d == 6 {
        seq![' ', '_', ' ', '|', '_', ' ', '|', '_', '|']
    } else if d == 7 {
        seq![' ', '_', ' ', ' ', ' ', '|', ' ', ' ', '|']
    } else if d == 8 {
        seq![' ', '_', ' ', '|', '_', '|', '|', '_', '|']
    } else {
        seq![' ', '_', ' ', '|', '_', '|', ' ', '_', '|']
    }
}

/// The digit character a glyph is recognized as: the digit whose canonical
/// glyph it equals exactly, or `'?'` when it matches none of the ten.
pub open spec fn recognized_char(g: Seq<char>) -> char {
    if g == canonical_glyph(0) {
        '0'
    } else if g == canonical_glyph(1) {
        '1'
    } else if g == canonical_glyph(2) {
        '2'
    } else if g == canonical_glyph(3) {
        '3'
    } else if g == canonical_glyph(4) {
        '4'
    } else if g == canonical_glyph(5) {
        '5'
    } else if g == canonical_glyph(6) {
        '6'
    } else if g == canonical_glyph(7) {
        '7'
    } else if g == canonical_glyph(8) {
        '8'
    } else if g == canonical_glyph(9) {
        '9'
    } else {
        '?'
    }
}

/// Reads the character of a glyph at flat position `k`.
pub fn glyph_char_at(g: &[[char; 3]; 3], k: usize) -> (c: char)
    requires
        k < 9,
    ensures
        c == glyph_view(*g)[k as int],
{
    if k < 3 {
        g[0][k]
    } else if k < 6 {
        g[1][k - 3]
    } else {
        g[2][k - 6]
    }
}

/// Decides exact structural equality of two glyphs.
pub fn glyph_eq(a: &[[char; 3]; 3], b: &[[char; 3]; 3]) -> (r: bool)
    ensures
        r == (glyph_view(*a) == glyph_view(*b)),
{
    let mut k: usize = 0;
    while k < 9
        invariant
            k <= 9,
            forall|j: int| 0 <= j < k ==> glyph_view(*a)[j] == glyph_view(*b)[j],
        decreases 9 - k,
    {
        if glyph_char_at(a, k) != glyph_char_at(b, k) {
            proof {
                assert(glyph_view(*a)[k as int] != glyph_view(*b)[k as int]);
            }
            return false;
        }
        k += 1;
    }
    proof {
        assert(glyph_view(*a) =~= glyph_view(*b));
    }
    true
}

/// The fixed catalogue mapping each canonical glyph to its digit character,
/// in digit order.
pub fn digit_table() -> (t: Vec<([[char; 3]; 3], char)>)
    ensures
        t@.len() == 10,
        forall|d: int|
            0 <= d < 10 ==> glyph_view(#[trigger] t@[d].0) == canonical_glyph(d) && t@[d].1
                == digit_char(d),
{
    let g0: [[char; 3]; 3] = [[' ', '_', ' '], ['|', ' ', '|'], ['|', '_', '|']];
    let g1: [[char; 3]; 3] = [[' ', ' ', ' '], [' ', ' ', '|'], [' ', ' ', '|']];
    let g2: [[char; 3]; 3] = [[' ', '_', ' '], [' ', '_', '|'], ['|', '_', ' ']];
    let g3: [[char; 3]; 3] = [[' ', '_', ' '], [' ', '_', '|'], [' ', '_', '|']];
    let g4: [[char; 3]; 3] = [[' ', ' ', ' '], ['|', '_', '|'], [' ', ' ', '|']];
    let g5: [[char; 3]; 3] = [[' ', '_', ' '], ['|', '_', ' '], [' ', '_', '|']];
    let g6: [[char; 3]; 3] = [[' ', '_', ' '], ['|', '_', ' '], ['|', '_', '|']];
    let g7: [[char; 3]; 3] = [[' ', '_', ' '], [' ', ' ', '|'], [' ', ' ', '|']];
    let g8: [[char; 3]; 3] = [[' ', '_', ' '], ['|', '_', '|'], ['|', '_', '|']];
    let g9: [[char; 3]; 3] = [[' ', '_', ' '], ['|', '_', '|'], [' ', '_', '|']];
    proof {
        assert(glyph_view(g0) =~= canonical_glyph(0));
        assert(glyph_view(g1) =~= canonical_glyph(1));
        assert(glyph_view(g2) =~= canonical_glyph(2));
        assert(glyph_view(g3) =~= canonical_glyph(3));
        assert(glyph_view(g4) =~= canonical_glyph(4));
        assert(glyph_view(g5) =~= canonical_glyph(5));
        assert(glyph_view(g6) =~= canonical_glyph(6));
        assert(glyph_view(g7) =~= canonical_glyph(7));
        assert(glyph_view(g8) =~= canonical_glyph(8));
        assert(glyph_view(g9) =~= canonical_glyph(9));
    }
    let mut t: Vec<([[char; 3]; 3], char)> = Vec::new();
    t.push((g0, '0'));
    t.push((g1, '1'));
    t.push((g2, '2'));
    t.push((g3, '3'));
    t.push((g4, '4'));
    t.push((g5, '5'));
    t.push((g6, '6'));
    t.push((g7, '7'));
    t.push((g8, '8'));
    t.push((g9, '9'));
    t
}

/// Recognizes one glyph: the digit whose canonical glyph it equals exactly,
/// or `'?'` when it matches none. Recognition never guesses.
pub fn recognize_digit(pattern: [[char; 3]; 3]) -> (c: char)
    ensures
        c == recognized_char(glyph_view(pattern)),
{
    let table = digit_table();
    let mut k: usize = 0;
    while k < 10
        invariant
            table@.len() == 10,
            forall|d: int|
                0 <= d < 10 ==> glyph_view(#[trigger] table@[d].0) == canonical_glyph(d)
                    && table@[d].1 == digit_char(d),
            k <= 10,
            forall|d: int| 0 <= d < k ==> glyph_view(pattern) != canonical_glyph(d),
        decreases 10 - k,
    {
        if glyph_eq(&pattern, &table[k].0) {
            return table[k].1;
        }
        k += 1;
    }
    '?'
}

/// No two canonical glyphs are alike: they differ in at least one of the
/// cell positions 1, 3, 4, 5, 6 and 7.
pub proof fn lemma_canonical_glyphs_distinct(d1: int, d2: int)
    requires
        0 <= d1 < 10,
        0 <= d2 < 10,
        d1 != d2,
    ensures
        canonical_glyph(d1) != canonical_glyph(d2),
{
    if canonical_glyph(d1) == canonical_glyph(d2) {
        assert(canonical_glyph(d1)[1] == canonical_glyph(d2)[1]);
        assert(canonical_glyph(d1)[3] == canonical_glyph(d2)[3]);
        assert(canonical_glyph(d1)[4] == canonical_glyph(d2)[4]);
        assert(canonical_glyph(d1)[5] == canonical_glyph(d2)[5]);
        assert(canonical_glyph(d1)[6] == canonical_glyph(d2)[6]);
        assert(canonical_glyph(d1)[7] == canonical_glyph(d2)[7]);
        assert(false);
    }
}

/// Recognition maps each canonical glyph to exactly its own digit.
pub proof fn lemma_recognize_canonical(d: int)
    requires
        0 <= d < 10,
    ensures
        recognized_char(canonical_glyph(d)) == digit_char(d),
{
    assert forall|e: int| 0 <= e < 10 && e != d implies canonical_glyph(e) != canonical_glyph(
        d,
    ) by {
        lemma_canonical_glyphs_distinct(e, d);
    }
}

/// Recognition maps every glyph equal to no canonical glyph to `'?'`.
pub proof fn lemma_recognize_unmatched(g: Seq<char>)
    requires
        forall|d: int| 0 <= d < 10 ==> g != canonical_glyph(d),
    ensures
        recognized_char(g) == '?',
{
}

/// The nine recognized digit characters of an entry, read cell by cell.
pub open spec fn recognized_digits(rows: Seq<Seq<char>>) -> Seq<char> {
    Seq::new(9, |i: int| recognized_char(crate::segmenter::cell_at(rows, i)))
}

/// Recognizes a whole raw entry: each of its nine cells is mapped to its
/// digit character, or to `'?'` where it matches no canonical glyph.
pub fn recognize_account_number(numbers: &str) -> (r: String)
    requires
        crate::segmenter::entry_well_formed(numbers@),
    ensures
        r@ == recognized_digits(crate::text::split_lines(numbers@)),
{
    let gs = match crate::segmenter::segment_entry(numbers) {
        Ok(gs) => gs,
        Err(_) => {
            proof {
                assert(false);
            }
            Vec::new()
        },
    };
    let mut out: Vec<char> = Vec::new();
    let mut i: usize = 0;
    while i < 9
        invariant
            gs@.len() == 9,
            forall|j: int|
                0 <= j < 9 ==> glyph_view(#[trigger] gs@[j]) == crate::segmenter::cell_at(
                    crate::text::split_lines(numbers@),
                    j,
                ),
            i <= 9,
            out@.len() == i,
            forall|j: int|
                0 <= j < i ==> out@[j] == recognized_digits(crate::text::split_lines(numbers@))[j],
        decreases 9 - i,
    {
        let c = recognize_digit(gs[i]);
        out.push(c);
        i += 1;
    }
    proof {
        assert(out@ =~= recognized_digits(crate::text::split_lines(numbers@)));
    }
    crate::text::chars_to_string(&out)
}

/// How many of the first `n` positions of `a` and `b` hold different characters.
pub open spec fn hamming_prefix(a: Seq<char>, b: Seq<char>, n: int) -> int
    decreases n,
{
    if n <= 0 {
        0
    } else {
        hamming_prefix(a, b, n - 1) + if a[n - 1] == b[n - 1] {
            0int
        } else {
            1int
        }
    }
}

/// The Hamming distance between two glyphs: the count of the nine cell
/// positions whose characters differ.
pub open spec fn hamming(a: Seq<char>, b: Seq<char>) -> int {
    hamming_prefix(a, b, 9)
}

/// The digit characters whose canonical glyph lies below digit `n` and within
/// Hamming distance 1 of `g`, in ascending digit order.
pub open spec fn near_misses_upto(g: Seq<char>, n: int) -> Seq<char>
    decreases n,
{
    if n <= 0 {
        Seq::empty()
    } else {
        near_misses_upto(g, n - 1) + if hamming(g, canonical_glyph(n - 1)) <= 1 {
            seq![digit_char(n - 1)]
        } else {
            Seq::<char>::empty()
        }
    }
}

/// The digit characters whose canonical glyph is within Hamming distance 1 of
/// `g` (a self-match at distance 0 included), in ascending digit order.
pub open spec fn near_miss_digits(g: Seq<char>) -> Seq<char> {
    near_misses_upto(g, 10)
}

/// Counts the cell positions at which two glyphs differ.
pub fn glyph_distance(a: &[[char; 3]; 3], b: &[[char; 3]; 3]) -> (n: usize)
    ensures
        n == hamming(glyph_view(*a), glyph_view(*b)),
{
    let mut n: usize = 0;
    let mut k: usize = 0;
    while k < 9
        invariant
            k <= 9,
            n <= k,
            n == hamming_prefix(glyph_view(*a), glyph_view(*b), k as int),
        decreases 9 - k,
    {
        if glyph_char_at(a, k) != glyph_char_at(b, k) {
            n += 1;
        }
        k += 1;
    }
    n
}

/// Lists every digit character whose canonical glyph is within Hamming
/// distance 1 of the given glyph: the plausible "one scan artifact away"
/// readings used during correction.
pub fn generate_one_off_patterns(pattern: [[char; 3]; 3]) -> (r: Vec<char>)
    ensures
        r@ == near_miss_digits(glyph_view(pattern)),
{
    let table = digit_table();
    let mut r: Vec<char> = Vec::new();
    let mut k: usize = 0;
    while k < 10
        invariant
            table@.len() == 10,
            forall|d: int|
                0 <= d < 10 ==> glyph_view(#[trigger] table@[d].0) == canonical_glyph(d)
                    && table@[d].1 == digit_char(d),
            k <= 10,
            r@ == near_misses_upto(glyph_view(pattern), k as int),
        decreases 10 - k,
    {
        if glyph_distance(&pattern, &table[k].0) <= 1 {
            r.push(table[k].1);
        }
        k += 1;
    }
    r
}

/// Membership in the near-miss list is exactly the distance bound: the list
/// holds `digit_char(d)` if and only if digit `d`'s canonical glyph is within
/// Hamming distance 1 of the glyph.
pub proof fn lemma_near_miss_membership(g: Seq<char>, d: int)
    requires
        0 <= d < 10,
    ensures
        near_miss_digits(g).contains(digit_char(d)) <==> hamming(g, canonical_glyph(d)) <= 1,
{
    lemma_near_miss_membership_upto(g, d, 10);
}

/// A recognized character is always a decimal digit or `'?'`.
pub proof fn lemma_recognized_char_shape(g: Seq<char>)
    ensures
        crate::text::is_digit_char(recognized_char(g)) || recognized_char(g) == '?',
{
}

proof fn lemma_near_miss_membership_upto(g: Seq<char>, d: int, n: int)
    requires
        0 <= d < 10,
        0 <= n <= 10,
    ensures
        near_misses_upto(g, n).contains(digit_char(d)) <==> (d < n && hamming(
            g,
            canonical_glyph(d),
        ) <= 1),
    decreases n,
{
    if n > 0 {
        lemma_near_miss_membership_upto(g, d, n - 1);
        let prev = near_misses_upto(g, n - 1);
        let cur = near_misses_upto(g, n);
        if hamming(g, canonical_glyph(n - 1)) <= 1 {
            assert(cur == prev + seq![digit_char(n - 1)]);
            if d == n - 1 {
                assert(cur[cur.len() - 1] == digit_char(d));
                assert(cur.contains(digit_char(d)));
            } else {
                // distinct digits print as distinct characters
                assert(digit_char(d) != digit_char(n - 1));
                assert(cur.contains(digit_char(d)) <==> prev.contains(digit_char(d))) by {
                    if cur.contains(digit_char(d)) {
                        let i = choose|i: int|
                            0 <= i < cur.len() && cur[i] == digit_char(d);
                        assert(i < prev.len());
                        assert(prev[i] == digit_char(d));
                    }
                    if prev.contains(digit_char(d)) {
                        let i = choose|i: int|
                            0 <= i < prev.len() && prev[i] == digit_char(d);
                        assert(cur[i] == digit_char(d));
                    }
                }
            }
        } else {
            assert(cur == prev + Seq::<char>::empty());
            assert(cur =~= prev);
        }
    }
}

} // verus!
