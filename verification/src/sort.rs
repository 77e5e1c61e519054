//! Stable sorting of string pairs and of strings by code-point order.
use vstd::prelude::*;
use vstd::seq_lib::{to_multiset_build, to_multiset_insert};
use crate::text::{chars_of, compare_chars, lemma_lex_transitive, lemma_lex_trichotomy, lex_le, lex_lt, Order};

verus! {

/// The views of a list of string pairs.
pub open spec fn pairs_view(v: Seq<(String, String)>) -> Seq<(Seq<char>, Seq<char>)> {
    v.map_values(|p: (String, String)| (p.0@, p.1@))
}

/// The views of a list of strings.
pub open spec fn strings_view(v: Seq<String>) -> Seq<Seq<char>> {
    v.map_values(|s: String| s@)
}

/// Ordered by first component (non-strictly).
pub open spec fn sorted_by_first<B>(s: Seq<(Seq<char>, B)>) -> bool {
    forall|i: int, j: int| 0 <= i < j < s.len() ==> lex_le(#[trigger] s[i].0, #[trigger] s[j].0)
}

/// Ordered (non-strictly).
pub open spec fn sorted_strings(s: Seq<Seq<char>>) -> bool {
    forall|i: int, j: int| 0 <= i < j < s.len() ==> lex_le(#[trigger] s[i], #[trigger] s[j])
}

proof fn lemma_le_lt(a: Seq<char>, b: Seq<char>, c: Seq<char>)
    requires
        lex_le(a, b),
        lex_lt(b, c),
    ensures
        lex_lt(a, c),
{
    if a != b {
        lemma_lex_transitive(a, b, c);
    }
}

/// Position at which `key` goes into the sorted list `r`: after every entry
/// whose key is not greater (which keeps the sort stable).
fn insert_position(r: &Vec<(String, String)>, key: &String) -> (pos: usize)
    ensures
        pos <= r@.len(),
        forall|j: int| 0 <= j < pos ==> !lex_lt(key@, #[trigger] r@[j].0@),
        pos < r@.len() ==> lex_lt(key@, r@[pos as int].0@),
{
    let k = chars_of(key.as_str());
    let mut i: usize = 0;
    while i < r.len()
        invariant
            i <= r@.len(),
            k@ == key@,
            forall|j: int| 0 <= j < i ==> !lex_lt(key@, #[trigger] r@[j].0@),
        decreases r@.len() - i,
    {
        let c = chars_of(r[i].0.as_str());
        if compare_chars(k.as_slice(), c.as_slice()) == Order::Less {
            return i;
        }
        i = i + 1;
    }
    i
}

/// Position at which `key` goes into the sorted list `r` (stable).
fn string_insert_position(r: &Vec<String>, key: &String) -> (pos: usize)
    ensures
        pos <= r@.len(),
        forall|j: int| 0 <= j < pos ==> !lex_lt(key@, #[trigger] r@[j]@),
        pos < r@.len() ==> lex_lt(key@, r@[pos as int]@),
{
    let k = chars_of(key.as_str());
    let mut i: usize = 0;
    while i < r.len()
        invariant
            i <= r@.len(),
            k@ == key@,
            forall|j: int| 0 <= j < i ==> !lex_lt(key@, #[trigger] r@[j]@),
        decreases r@.len() - i,
    {
        let c = chars_of(r[i].as_str());
        if compare_chars(k.as_slice(), c.as_slice()) == Order::Less {
            return i;
        }
        i = i + 1;
    }
    i
}

/// Sorts string pairs by their first component, keeping the relative order
/// of entries with equal first components.
pub fn sort_pairs_by_first(v: Vec<(String, String)>) -> (r: Vec<(String, String)>)
    ensures
        sorted_by_first(pairs_view(r@)),
        pairs_view(r@).to_multiset() == pairs_view(v@).to_multiset(),
{
    let mut r: Vec<(String, String)> = Vec::new();
    let mut k: usize = 0;
    assert(pairs_view(v@).take(0) =~= pairs_view(r@));
    while k < v.len()
        invariant
            k <= v@.len(),
            sorted_by_first(pairs_view(r@)),
            pairs_view(r@).to_multiset() == pairs_view(v@).take(k as int).to_multiset(),
        decreases v@.len() - k,
    {
        let x = (v[k].0.clone(), v[k].1.clone());
        let ghost xv = (x.0@, x.1@);
        assert(xv == pairs_view(v@)[k as int]);
        let pos = insert_position(&r, &x.0);
        let ghost old_r = pairs_view(r@);
        r.insert(pos, x);
        let ghost new_r = pairs_view(r@);
        assert(new_r =~= old_r.insert(pos as int, xv));
        proof {
            to_multiset_insert(old_r, pos as int, xv);
            assert(pairs_view(v@).take(k + 1) =~= pairs_view(v@).take(k as int).push(xv));
            to_multiset_build(pairs_view(v@).take(k as int), xv);
            assert forall|a: int, b: int| 0 <= a < b < new_r.len() implies lex_le(
                #[trigger] new_r[a].0,
                #[trigger] new_r[b].0,
            ) by {
                let p = pos as int;
                if b < p {
                    assert(new_r[a] == old_r[a] && new_r[b] == old_r[b]);
                } else if b == p {
                    assert(new_r[a] == old_r[a]);
                    lemma_lex_trichotomy(xv.0, old_r[a].0);
                } else if a < p {
                    assert(new_r[a] == old_r[a] && new_r[b] == old_r[b - 1]);
                    if a < b - 1 {
                        assert(lex_le(old_r[a].0, old_r[b - 1].0));
                    }
                } else if a == p {
                    assert(new_r[b] == old_r[b - 1]);
                    assert(lex_lt(xv.0, old_r[p].0));
                    if p < b - 1 {
                        assert(lex_le(old_r[p].0, old_r[b - 1].0));
                        lemma_le_lt(xv.0, xv.0, old_r[p].0);
                        if old_r[p].0 != old_r[b - 1].0 {
                            lemma_lex_transitive(xv.0, old_r[p].0, old_r[b - 1].0);
                        }
                    }
                } else {
                    assert(new_r[a] == old_r[a - 1] && new_r[b] == old_r[b - 1]);
                    assert(lex_le(old_r[a - 1].0, old_r[b - 1].0));
                }
            }
        }
        k = k + 1;
    }
    assert(pairs_view(v@).take(v@.len() as int) =~= pairs_view(v@));
    r
}

/// Inserting `x` into the ordered list `r` at a position after every entry
/// not greater than it and before the first greater one keeps it ordered.
pub proof fn lemma_insert_sorted(r: Seq<Seq<char>>, pos: int, x: Seq<char>)
    requires
        sorted_strings(r),
        0 <= pos <= r.len(),
        forall|j: int| 0 <= j < pos ==> !lex_lt(x, #[trigger] r[j]),
        pos < r.len() ==> lex_lt(x, r[pos]),
    ensures
        sorted_strings(r.insert(pos, x)),
{
    let new_r = r.insert(pos, x);
    assert forall|a: int, b: int| 0 <= a < b < new_r.len() implies lex_le(
        #[trigger] new_r[a],
        #[trigger] new_r[b],
    ) by {
        let p = pos;
        if b < p {
            assert(new_r[a] == r[a] && new_r[b] == r[b]);
        } else if b == p {
            assert(new_r[a] == r[a]);
            lemma_lex_trichotomy(x, r[a]);
        } else if a < p {
            assert(new_r[a] == r[a] && new_r[b] == r[b - 1]);
            if a < b - 1 {
                assert(lex_le(r[a], r[b - 1]));
            }
        } else if a == p {
            assert(new_r[b] == r[b - 1]);
            if p < b - 1 {
                assert(lex_le(r[p], r[b - 1]));
                if r[p] != r[b - 1] {
                    lemma_lex_transitive(x, r[p], r[b - 1]);
                }
            }
        } else {
            assert(new_r[a] == r[a - 1] && new_r[b] == r[b - 1]);
            assert(lex_le(r[a - 1], r[b - 1]));
        }
    }
}

/// Sorts strings by code-point order (stable).
pub fn sort_strings(v: Vec<String>) -> (r: Vec<String>)
    ensures
        sorted_strings(strings_view(r@)),
        strings_view(r@).to_multiset() == strings_view(v@).to_multiset(),
{
    let mut r: Vec<String> = Vec::new();
    let mut k: usize = 0;
    assert(strings_view(v@).take(0) =~= strings_view(r@));
    while k < v.len()
        invariant
            k <= v@.len(),
            sorted_strings(strings_view(r@)),
            strings_view(r@).to_multiset() == strings_view(v@).take(k as int).to_multiset(),
        decreases v@.len() - k,
    {
        let x = v[k].clone();
        let ghost xv = x@;
        assert(xv == strings_view(v@)[k as int]);
        let pos = string_insert_position(&r, &x);
        let ghost old_r = strings_view(r@);
        r.insert(pos, x);
        let ghost new_r = strings_view(r@);
        assert(new_r =~= old_r.insert(pos as int, xv));
        proof {
            to_multiset_insert(old_r, pos as int, xv);
            assert(strings_view(v@).take(k + 1) =~= strings_view(v@).take(k as int).push(xv));
            to_multiset_build(strings_view(v@).take(k as int), xv);
            lemma_insert_sorted(old_r, pos as int, xv);
        }
        k = k + 1;
    }
    assert(strings_view(v@).take(v@.len() as int) =~= strings_view(v@));
    r
}

} // verus!
