//! Deciding whether two words are anagrams of one another.

use vstd::prelude::*;
use vstd::relations::{antisymmetric, reflexive, sorted_by, strongly_connected, total_ordering, transitive};
use vstd::seq_lib::lemma_sorted_unique;
use crate::text::{char_vec_eq, str_to_chars};

verus! {

broadcast use vstd::seq_lib::group_to_multiset_ensures, vstd::multiset::group_multiset_axioms, vstd::seq_lib::lemma_multiset_commutative;

/// Character order by code point.
pub open spec fn char_le() -> spec_fn(char, char) -> bool {
    |a: char, b: char| (a as u32) <= (b as u32)
}

/// Code-point order is a total order on characters.
pub proof fn lemma_char_le_total()
    ensures
        total_ordering(char_le()),
{
    let le = char_le();
    assert forall|x: char| #[trigger] le(x, x) by {}
    assert forall|x: char, y: char| #[trigger] le(x, y) && #[trigger] le(y, x) implies x == y by {
        assert((x as u32) == (y as u32));
        vstd::utf8::char_u32_cast(x, x as u32);
        vstd::utf8::char_u32_cast(y, y as u32);
    }
    assert forall|x: char, y: char, z: char|
        #[trigger] le(x, y) && #[trigger] le(y, z) implies le(x, z) by {}
    assert forall|x: char, y: char| #[trigger] le(x, y) || #[trigger] le(y, x) by {}
    assert(reflexive(le));
    assert(antisymmetric(le));
    assert(transitive(le));
    assert(strongly_connected(le));
}

/// Sorts the characters of a vector by code point, keeping multiplicities.
pub fn sort_chars(v: &Vec<char>) -> (r: Vec<char>)
    ensures
        r@.to_multiset() == v@.to_multiset(),
        sorted_by(r@, char_le()),
{
    let mut r: Vec<char> = Vec::new();
    let mut idx: usize = 0;
    proof {
        assert(v@.take(0).to_multiset() =~= r@.to_multiset());
    }
    while idx < v.len()
        invariant
            idx <= v@.len(),
            r@.to_multiset() == v@.take(idx as int).to_multiset(),
            sorted_by(r@, char_le()),
        decreases v@.len() - idx,
    {
        let c = v[idx];
        let mut j: usize = 0;
        while j < r.len() && (r[j] as u32) <= (c as u32)
            invariant
                j <= r@.len(),
                forall|k: int| 0 <= k < j ==> (r@[k] as u32) <= (c as u32),
            decreases r@.len() - j,
        {
            j += 1;
        }
        let ghost old_r = r@;
        r.insert(j, c);
        proof {
            let pre = old_r.subrange(0, j as int);
            let suf = old_r.subrange(j as int, old_r.len() as int);
            assert(r@ == pre.push(c) + suf);
            assert(old_r =~= pre + suf);
            assert(r@.to_multiset() =~= old_r.to_multiset().insert(c)) by {
                assert(r@.to_multiset() =~= pre.push(c).to_multiset().add(suf.to_multiset()));
                assert(pre.push(c).to_multiset() =~= pre.to_multiset().insert(c));
                assert(old_r.to_multiset() =~= pre.to_multiset().add(suf.to_multiset()));
            }
            assert(v@.take(idx + 1) =~= v@.take(idx as int).push(c));
            assert(v@.take(idx + 1).to_multiset() =~= v@.take(idx as int).to_multiset().insert(c));
            old_r.insert_ensures(j as int, c);
            assert(sorted_by(r@, char_le())) by {
                assert forall|a: int, b: int| 0 <= a < b < r@.len() implies char_le()(
                    r@[a],
                    r@[b],
                ) by {
                    if a < j && b < j {
                        assert(r@[a] == old_r[a] && r@[b] == old_r[b]);
                    } else if a < j && b == j {
                        assert(r@[a] == old_r[a] && r@[b] == c);
                    } else if a < j && b > j {
                        assert(r@[a] == old_r[a] && r@[b] == old_r[b - 1]);
                        if b - 1 == j as int {
                            assert((c as u32) <= (old_r[j as int] as u32));
                        }
                    } else if a == j && b > j {
                        assert(r@[a] == c && r@[b] == old_r[b - 1]);
                        assert((c as u32) <= (old_r[j as int] as u32));
                        assert(char_le()(old_r[j as int], old_r[b - 1]));
                    } else {
                        assert(r@[a] == old_r[a - 1] && r@[b] == old_r[b - 1]);
                    }
                }
            }
        }
        idx += 1;
    }
    proof {
        assert(v@.take(v@.len() as int) =~= v@);
    }
    r
}

/// Two words are anagrams exactly when they hold the same characters with
/// the same multiplicities.
pub fn is_anagram(s1: &str, s2: &str) -> (r: bool)
    ensures
        r == (s1@.to_multiset() == s2@.to_multiset()),
{
    let c1 = str_to_chars(s1);
    let c2 = str_to_chars(s2);
    let t1 = sort_chars(&c1);
    let t2 = sort_chars(&c2);
    let r = char_vec_eq(&t1, &t2);
    proof {
        if r {
            assert(s1@.to_multiset() == s2@.to_multiset());
        } else {
            if s1@.to_multiset() == s2@.to_multiset() {
                lemma_char_le_total();
                lemma_sorted_unique(t1@, t2@, char_le());
                assert(false);
            }
        }
    }
    r
}

} // verus!
