//! Shared text machinery: digit characters and their values, decimal
//! rendering, splitting character sequences on a separator, and moving
//! between `str`, `String` and `Vec<char>`.

use vstd::prelude::*;

verus! {

/// The character that prints a single decimal digit value.
pub open spec fn digit_char(d: int) -> char {
    if d == 0 {
        '0'
    } else if d == 1 {
        '1'
    } else if d == 2 {
        '2'
    } else if d == 3 {
        '3'
    } else if d == 4 {
        '4'
    } else if d == 5 {
        '5'
    } else if d == 6 {
        '6'
    } else if d == 7 {
        '7'
    } else if d == 8 {
        '8'
    } else {
        '9'
    }
}

/// The numeric value of a decimal digit character, or -1 for any other character.
pub open spec fn char_digit(c: char) -> int {
    if c == '0' {
        0
    } else if c == '1' {
        1
    } else if c == '2' {
        2
    } else if c == '3' {
        3
    } else if c == '4' {
        4
    } else if c == '5' {
        5
    } else if c == '6' {
        6
    } else if c == '7' {
        7
    } else if c == '8' {
        8
    } else if c == '9' {
        9
    } else {
        -1
    }
}

/// A character is a decimal digit exactly when `char_digit` gives it a value.
pub open spec fn is_digit_char(c: char) -> bool {
    char_digit(c) >= 0
}

pub fn digit_to_char(d: u8) -> (c: char)
    requires
        d < 10,
    ensures
        c == digit_char(d as int),
{
    match d {
        0 => '0',
        1 => '1',
        2 => '2',
        3 => '3',
        4 => '4',
        5 => '5',
        6 => '6',
        7 => '7',
        8 => '8',
        _ => '9',
    }
}

pub fn char_to_digit(c: char) -> (d: Option<u8>)
    ensures
        match d {
            Some(v) => v == char_digit(c) && v < 10,
            None => !is_digit_char(c),
        },
{
    match c {
        '0' => Some(0),
        '1' => Some(1),
        '2' => Some(2),
        '3' => Some(3),
        '4' => Some(4),
        '5' => Some(5),
        '6' => Some(6),
        '7' => Some(7),
        '8' => Some(8),
        '9' => Some(9),
        _ => None,
    }
}

/// Digit characters are digits, and print the digit value they stand for.
pub proof fn lemma_digit_char_is_digit(d: int)
    requires
        0 <= d < 10,
    ensures
        is_digit_char(digit_char(d)),
        char_digit(digit_char(d)) == d,
{
}

/// The decimal digit characters of a nonnegative integer, most significant
/// digit first, with no leading zero except for zero itself.
pub open spec fn dec_digits(n: nat) -> Seq<char>
    decreases n,
{
    if n < 10 {
        seq![digit_char(n as int)]
    } else {
        dec_digits(n / 10) + seq![digit_char((n % 10) as int)]
    }
}

/// The decimal text of an integer: its magnitude's digits, after a minus
/// sign when it is negative.
pub open spec fn int_text(n: int) -> Seq<char> {
    if n < 0 {
        seq!['-'] + dec_digits((-n) as nat)
    } else {
        dec_digits(n as nat)
    }
}

/// The numeric value of a digit string, most significant digit first.
pub open spec fn dec_value(s: Seq<char>) -> int
    decreases s.len(),
{
    if s.len() == 0 {
        0
    } else {
        dec_value(s.drop_last()) * 10 + char_digit(s.last())
    }
}

/// A nonempty string of decimal digit characters.
pub open spec fn all_digits(s: Seq<char>) -> bool {
    s.len() > 0 && forall|i: int| 0 <= i < s.len() ==> is_digit_char(#[trigger] s[i])
}

/// The value of a digit string is never negative.
pub proof fn lemma_dec_value_nonneg(s: Seq<char>)
    requires
        forall|i: int| 0 <= i < s.len() ==> is_digit_char(#[trigger] s[i]),
    ensures
        dec_value(s) >= 0,
    decreases s.len(),
{
    if s.len() > 0 {
        lemma_dec_value_nonneg(s.drop_last());
    }
}

/// The value of a digit string is at least the value of any of its prefixes.
pub proof fn lemma_dec_value_prefix(s: Seq<char>, i: int)
    requires
        0 <= i <= s.len(),
        forall|j: int| 0 <= j < s.len() ==> is_digit_char(#[trigger] s[j]),
    ensures
        dec_value(s.take(i)) <= dec_value(s),
    decreases s.len() - i,
{
    if i == s.len() {
        assert(s.take(i) =~= s);
    } else {
        lemma_dec_value_prefix(s, i + 1);
        assert(s.take(i + 1).drop_last() =~= s.take(i));
        assert(s.take(i + 1).last() == s[i]);
        lemma_dec_value_nonneg(s.take(i));
        assert(dec_value(s.take(i + 1)) == dec_value(s.take(i)) * 10 + char_digit(s[i]));
    }
}

/// Renders a nonnegative integer in decimal, most significant digit first.
pub fn u64_to_chars(n: u64) -> (r: Vec<char>)
    ensures
        r@ == dec_digits(n as nat),
{
    let mut out: Vec<char> = Vec::new();
    if n == 0 {
        out.push('0');
        proof {
            assert(out@ =~= dec_digits(0));
        }
        return out;
    }
    let mut m: u64 = n;
    proof {
        assert(dec_digits(n as nat) + out@ =~= dec_digits(n as nat));
    }
    while m > 0
        invariant
            m > 0 ==> dec_digits(n as nat) == dec_digits(m as nat) + out@,
            m == 0 ==> dec_digits(n as nat) == out@,
        decreases m,
    {
        let ghost old_out = out@;
        let d = (m % 10) as u8;
        let c = digit_to_char(d);
        out.insert(0, c);
        proof {
            assert(out@ =~= seq![c] + old_out);
            if m < 10 {
                assert(dec_digits(m as nat) == seq![digit_char(m as int)]);
                assert(m as int == d as int);
                assert(dec_digits(m as nat) + old_out =~= out@);
            } else {
                assert(dec_digits(m as nat) == dec_digits((m / 10) as nat) + seq![
                    digit_char((m % 10) as int),
                ]);
                assert((dec_digits((m / 10) as nat) + seq![c]) + old_out =~= dec_digits(
                    (m / 10) as nat,
                ) + out@);
            }
        }
        m = m / 10;
    }
    out
}

/// Decides whether a character vector holds the given character.
pub fn vec_contains_char(v: &Vec<char>, c: char) -> (r: bool)
    ensures
        r == v@.contains(c),
{
    for i in 0..v.len()
        invariant
            forall|j: int| 0 <= j < i ==> v@[j] != c,
    {
        if v[i] == c {
            proof {
                assert(v@[i as int] == c);
            }
            return true;
        }
    }
    false
}

/// Decides whether two character vectors hold the same characters.
pub fn char_vec_eq(a: &Vec<char>, b: &Vec<char>) -> (r: bool)
    ensures
        r == (a@ == b@),
{
    if a.len() != b.len() {
        return false;
    }
    for i in 0..a.len()
        invariant
            a@.len() == b@.len(),
            forall|j: int| 0 <= j < i ==> a@[j] == b@[j],
    {
        if a[i] != b[i] {
            proof {
                assert(a@[i as int] != b@[i as int]);
            }
            return false;
        }
    }
    proof {
        assert(a@ =~= b@);
    }
    true
}

/// Decides whether a string holds the given character.
pub fn str_contains_char(s: &str, c: char) -> (r: bool)
    ensures
        r == s@.contains(c),
{
    let n = s.unicode_len();
    for i in 0..n
        invariant
            n == s@.len(),
            forall|j: int| 0 <= j < i ==> s@[j] != c,
    {
        if s.get_char(i) == c {
            proof {
                assert(s@[i as int] == c);
            }
            return true;
        }
    }
    false
}

/// The rows of a character table, each row seen as a sequence.
pub open spec fn lines_view(v: Vec<Vec<char>>) -> Seq<Seq<char>> {
    Seq::new(v@.len() as nat, |i: int| v@[i]@)
}

/// The pieces of a character sequence, split on the separator `sep`: an empty
/// sequence is one empty piece, and a trailing separator yields a final empty
/// piece, as `str::split` does.
pub open spec fn split_on(s: Seq<char>, sep: char) -> Seq<Seq<char>>
    decreases s.len(),
{
    if s.len() == 0 {
        seq![Seq::<char>::empty()]
    } else if s[0] == sep {
        seq![Seq::<char>::empty()] + split_on(s.drop_first(), sep)
    } else {
        let rest = split_on(s.drop_first(), sep);
        seq![seq![s[0]] + rest[0]] + rest.drop_first()
    }
}

/// The lines of a character sequence, split on `'\n'`.
pub open spec fn split_lines(s: Seq<char>) -> Seq<Seq<char>> {
    split_on(s, '\n')
}

/// Splitting always yields at least one piece.
proof fn lemma_split_on_nonempty(s: Seq<char>, sep: char)
    ensures
        split_on(s, sep).len() >= 1,
    decreases s.len(),
{
    if s.len() != 0 {
        lemma_split_on_nonempty(s.drop_first(), sep);
    }
}

/// A separator-free prefix extends the first piece of whatever follows it and
/// leaves the later pieces alone.
proof fn lemma_split_on_prepend(p: Seq<char>, t: Seq<char>, sep: char)
    requires
        forall|i: int| 0 <= i < p.len() ==> p[i] != sep,
    ensures
        split_on(p + t, sep).len() == split_on(t, sep).len(),
        split_on(p + t, sep)[0] == p + split_on(t, sep)[0],
        forall|i: int| 1 <= i < split_on(t, sep).len() ==> split_on(p + t, sep)[i] == split_on(
            t,
            sep,
        )[i],
    decreases p.len(),
{
    lemma_split_on_nonempty(t, sep);
    if p.len() == 0 {
        assert(p + t =~= t);
        assert(p + split_on(t, sep)[0] =~= split_on(t, sep)[0]);
    } else {
        lemma_split_on_prepend(p.drop_first(), t, sep);
        let s = p + t;
        assert(s.len() > 0 && s[0] == p[0] && p[0] != sep);
        assert(s.drop_first() =~= p.drop_first() + t);
        let rest = split_on(p.drop_first() + t, sep);
        assert(split_on(s, sep) == seq![seq![s[0]] + rest[0]] + rest.drop_first());
        assert(seq![p[0]] + (p.drop_first() + split_on(t, sep)[0]) =~= p + split_on(t, sep)[0]);
        assert(split_on(s, sep)[0] == p + split_on(t, sep)[0]);
        assert(forall|i: int|
            1 <= i < split_on(t, sep).len() ==> split_on(s, sep)[i] == rest.drop_first()[i - 1]
                && rest.drop_first()[i - 1] == rest[i] && rest[i] == split_on(t, sep)[i]);
    }
}

/// A separator-free sequence is one single piece.
proof fn lemma_split_on_single(p: Seq<char>, sep: char)
    requires
        forall|i: int| 0 <= i < p.len() ==> p[i] != sep,
    ensures
        split_on(p, sep) == seq![p],
{
    lemma_split_on_prepend(p, Seq::empty(), sep);
    assert(p + Seq::<char>::empty() =~= p);
    assert(p + split_on(Seq::<char>::empty(), sep)[0] =~= p);
    assert(split_on(p, sep) =~= seq![p]);
}

/// Splits a character sequence into pieces, cutting at each separator.
pub fn split_chars_on(s: &Vec<char>, sep: char) -> (r: Vec<Vec<char>>)
    ensures
        lines_view(r) == split_on(s@, sep),
{
    let mut done: Vec<Vec<char>> = Vec::new();
    let mut cur: Vec<char> = Vec::new();
    proof {
        assert(cur@ + s@.skip(0) =~= s@);
        assert(lines_view(done) + split_on(s@, sep) =~= split_on(s@, sep));
    }
    for i in 0..s.len()
        invariant
            forall|j: int| 0 <= j < cur@.len() ==> cur@[j] != sep,
            split_on(s@, sep) == lines_view(done) + split_on(cur@ + s@.skip(i as int), sep),
    {
        let c = s[i];
        if c == sep {
            proof {
                let rest = s@.skip(i + 1);
                let t = seq![sep] + rest;
                assert(cur@ + s@.skip(i as int) =~= cur@ + t);
                assert(t.drop_first() =~= rest);
                assert(split_on(t, sep) == seq![Seq::<char>::empty()] + split_on(rest, sep));
                lemma_split_on_prepend(cur@, t, sep);
                lemma_split_on_nonempty(rest, sep);
                let a = split_on(cur@ + t, sep);
                assert(split_on(cur@ + s@.skip(i as int), sep) == a);
                assert(a.len() == 1 + split_on(rest, sep).len());
                assert(cur@ + Seq::<char>::empty() =~= cur@);
                assert(a[0] == cur@ + split_on(t, sep)[0]);
                assert(split_on(t, sep)[0] == Seq::<char>::empty());
                assert(a[0] == cur@);
                assert(forall|j: int|
                    1 <= j < a.len() ==> a[j] == split_on(t, sep)[j] && split_on(t, sep)[j]
                        == split_on(rest, sep)[j - 1]);
                assert(a =~= seq![cur@] + split_on(rest, sep));
                assert(lines_view(done) + (seq![cur@] + split_on(rest, sep)) =~= (lines_view(done)
                    + seq![cur@]) + split_on(rest, sep));
            }
            let ghost old_done = done;
            let ghost old_cur = cur;
            done.push(cur);
            cur = Vec::new();
            proof {
                assert(lines_view(done) =~= lines_view(old_done) + seq![old_cur@]);
                assert(cur@ + s@.skip(i + 1) =~= s@.skip(i + 1));
            }
        } else {
            let ghost old_cur = cur;
            cur.push(c);
            proof {
                assert(cur@ + s@.skip(i + 1) =~= old_cur@ + s@.skip(i as int));
            }
        }
    }
    proof {
        assert(cur@ + s@.skip(s@.len() as int) =~= cur@);
        lemma_split_on_single(cur@, sep);
        assert(lines_view(done) + seq![cur@] =~= lines_view(done) + split_on(cur@, sep));
    }
    let ghost final_done = done;
    let ghost final_cur = cur;
    done.push(cur);
    proof {
        assert(lines_view(done) =~= lines_view(final_done) + seq![final_cur@]);
    }
    done
}

/// Splits a character sequence into its lines, cutting at each `'\n'`.
pub fn split_chars_into_lines(s: &Vec<char>) -> (r: Vec<Vec<char>>)
    ensures
        lines_view(r) == split_lines(s@),
{
    split_chars_on(s, '\n')
}

/// Relies on `String::push`: appends the given character to the end of the string.
#[verifier::external_body]
fn push_char(s: &mut String, c: char)
    ensures
        final(s)@ == old(s)@.push(c),
{
    s.push(c)
}

/// Builds the string holding exactly the given characters, in order.
pub fn chars_to_string(v: &Vec<char>) -> (r: String)
    ensures
        r@ == v@,
{
    let mut r = String::new();
    for i in 0..v.len()
        invariant
            r@ == v@.take(i as int),
    {
        push_char(&mut r, v[i]);
        proof {
            assert(v@.take(i + 1) == v@.take(i as int).push(v@[i as int]));
        }
    }
    proof {
        assert(v@.take(v@.len() as int) == v@);
    }
    r
}

/// Collects the characters of a string into a vector, in order.
pub fn str_to_chars(s: &str) -> (r: Vec<char>)
    ensures
        r@ == s@,
{
    let n = s.unicode_len();
    let mut r: Vec<char> = Vec::new();
    for i in 0..n
        invariant
            n == s@.len(),
            r@ == s@.take(i as int),
    {
        r.push(s.get_char(i));
        proof {
            assert(s@.take(i + 1) == s@.take(i as int).push(s@[i as int]));
        }
    }
    proof {
        assert(s@.take(n as int) == s@);
    }
    r
}

} // verus!
