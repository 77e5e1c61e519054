//! An ordered map from strings to strings (entries kept sorted by key in
//! code-point order, as a `BTreeMap<String, String>` iterates).
use vstd::prelude::*;
use crate::sort::pairs_view;
use crate::table::{keys_distinct, kv_map, lemma_kv_insert_fresh, lemma_kv_remove, lemma_kv_update};
use crate::text::{chars_of, compare_chars, lemma_lex_irreflexive, lemma_lex_transitive, lemma_lex_trichotomy, lex_lt, Order};

verus! {

/// Keys strictly increasing.
pub open spec fn strictly_sorted(s: Seq<(Seq<char>, Seq<char>)>) -> bool {
    forall|i: int, j: int| 0 <= i < j < s.len() ==> lex_lt(#[trigger] s[i].0, #[trigger] s[j].0)
}

/// The map built by inserting the pairs from left to right (a later pair
/// overrides an earlier one with the same key).
pub open spec fn map_of_pairs(s: Seq<(Seq<char>, Seq<char>)>) -> Map<Seq<char>, Seq<char>>
    decreases s.len(),
{
    if s.len() == 0 {
        Map::empty()
    } else {
        map_of_pairs(s.drop_last()).insert(s.last().0, s.last().1)
    }
}

pub proof fn lemma_sorted_distinct(s: Seq<(Seq<char>, Seq<char>)>)
    requires
        strictly_sorted(s),
    ensures
        keys_distinct(s),
{
    assert forall|i: int, j: int|
        0 <= i < s.len() && 0 <= j < s.len() && i != j implies (#[trigger] s[i]).0 != (
    #[trigger] s[j]).0 by {
        if i < j {
            assert(lex_lt(s[i].0, s[j].0));
            lemma_lex_irreflexive(s[i].0);
        } else {
            assert(lex_lt(s[j].0, s[i].0));
            lemma_lex_irreflexive(s[j].0);
        }
    }
}

/// Sorted string-to-string map.
#[derive(Debug)]
pub struct StrMap {
    entries: Vec<(String, String)>,
}

impl View for StrMap {
    type V = Map<Seq<char>, Seq<char>>;

    closed spec fn view(&self) -> Map<Seq<char>, Seq<char>> {
        kv_map(pairs_view(self.entries@))
    }
}

impl StrMap {
    /// The entries in key order.
    pub closed spec fn entries(&self) -> Seq<(Seq<char>, Seq<char>)> {
        pairs_view(self.entries@)
    }

    #[verifier::type_invariant]
    closed spec fn sorted(&self) -> bool {
        strictly_sorted(pairs_view(self.entries@))
    }

    /// The entries are sorted by key without repetition, and are the map.
    pub fn check_entries(&self)
        ensures
            strictly_sorted(self.entries()),
            keys_distinct(self.entries()),
            kv_map(self.entries()) == self@,
    {
        proof {
            use_type_invariant(self);
            lemma_sorted_distinct(self.entries());
        }
    }

    /// The empty map.
    pub fn new() -> (m: StrMap)
        ensures
            m@ == Map::<Seq<char>, Seq<char>>::empty(),
            m.entries().len() == 0,
    {
        let m = StrMap { entries: Vec::new() };
        assert(pairs_view(m.entries@) =~= Seq::<(Seq<char>, Seq<char>)>::empty());
        assert(kv_map(pairs_view(m.entries@)) =~= Map::<Seq<char>, Seq<char>>::empty());
        m
    }

    /// Position of the first entry whose key is not less than `k`, and
    /// whether that entry has key `k`.
    fn locate(&self, k: &[char]) -> (r: (usize, bool))
        ensures
            r.0 <= self.entries().len(),
            forall|j: int| 0 <= j < r.0 ==> lex_lt(#[trigger] self.entries()[j].0, k@),
            r.0 < self.entries().len() ==> !lex_lt(self.entries()[r.0 as int].0, k@),
            r.1 == (r.0 < self.entries().len() && self.entries()[r.0 as int].0 == k@),
    {
        let mut i: usize = 0;
        while i < self.entries.len()
            invariant
                i <= self.entries@.len(),
                forall|j: int| 0 <= j < i ==> lex_lt(#[trigger] pairs_view(self.entries@)[j].0, k@),
            decreases self.entries@.len() - i,
        {
            let c = chars_of(self.entries[i].0.as_str());
            assert(c@ == pairs_view(self.entries@)[i as int].0);
            let o = compare_chars(c.as_slice(), k);
            if o != Order::Less {
                return (i, o == Order::Equal);
            }
            i = i + 1;
        }
        (i, false)
    }

    proof fn lemma_locate_absent(&self, k: Seq<char>, pos: int)
        requires
            strictly_sorted(self.entries()),
            kv_map(self.entries()) == self@,
            0 <= pos <= self.entries().len(),
            forall|j: int| 0 <= j < pos ==> lex_lt(#[trigger] self.entries()[j].0, k),
            pos < self.entries().len() ==> !lex_lt(self.entries()[pos].0, k),
            !(pos < self.entries().len() && self.entries()[pos].0 == k),
        ensures
            !self@.contains_key(k),
            forall|j: int| 0 <= j < self.entries().len() ==> #[trigger] self.entries()[j].0 != k,
    {
        let s = self.entries();
        assert forall|j: int| 0 <= j < s.len() implies #[trigger] s[j].0 != k by {
            if j < pos {
                lemma_lex_irreflexive(k);
            } else if j > pos {
                assert(lex_lt(s[pos].0, s[j].0));
                lemma_lex_trichotomy(s[pos].0, k);
                if s[j].0 == k {
                    assert(lex_lt(s[pos].0, k));
                }
            }
        }
    }

    /// The value stored under `k`.
    pub fn get(&self, k: &str) -> (r: Option<&String>)
        ensures
            match r {
                Some(v) => self@.contains_key(k@) && self@[k@] == v@,
                None => !self@.contains_key(k@),
            },
    {
        self.check_entries();
        let kc = chars_of(k);
        let (pos, found) = self.locate(kc.as_slice());
        if found {
            proof {
                crate::table::lemma_kv_index(self.entries(), k@, pos as int);
            }
            Some(&self.entries[pos].1)
        } else {
            proof {
                self.lemma_locate_absent(k@, pos as int);
            }
            None
        }
    }

    /// Whether `k` has an entry.
    pub fn contains_key(&self, k: &str) -> (r: bool)
        ensures
            r == self@.contains_key(k@),
    {
        match self.get(k) {
            Some(_) => true,
            None => false,
        }
    }

    /// Stores `v` under `k`; `true` when `k` had no entry before.
    pub fn insert(&mut self, k: String, v: String) -> (was_new: bool)
        ensures
            final(self)@ == old(self)@.insert(k@, v@),
            was_new == !old(self)@.contains_key(k@),
    {
        self.check_entries();
        let kc = chars_of(k.as_str());
        let (pos, found) = self.locate(kc.as_slice());
        let ghost s = self.entries();
        let ghost kv = k@;
        let ghost vv = v@;
        if found {
            proof {
                crate::table::lemma_kv_index(s, kv, pos as int);
                lemma_kv_update(s, pos as int, vv);
            }
            let mut e: Vec<(String, String)> = Vec::new();
            std::mem::swap(&mut e, &mut self.entries);
            e.set(pos, (k, v));
            assert(pairs_view(e@) =~= s.update(pos as int, (kv, vv)));
            assert(strictly_sorted(pairs_view(e@)));
            std::mem::swap(&mut e, &mut self.entries);
            false
        } else {
            proof {
                self.lemma_locate_absent(kv, pos as int);
                lemma_kv_insert_fresh(s, pos as int, kv, vv);
            }
            let mut e: Vec<(String, String)> = Vec::new();
            std::mem::swap(&mut e, &mut self.entries);
            e.insert(pos, (k, v));
            let ghost t = pairs_view(e@);
            assert(t =~= s.insert(pos as int, (kv, vv)));
            assert forall|a: int, b: int| 0 <= a < b < t.len() implies lex_lt(
                #[trigger] t[a].0,
                #[trigger] t[b].0,
            ) by {
                let p = pos as int;
                if b < p {
                    assert(t[a] == s[a] && t[b] == s[b]);
                } else if b == p {
                    assert(t[a] == s[a]);
                } else if a < p {
                    assert(t[a] == s[a] && t[b] == s[b - 1]);
                } else if a == p {
                    assert(t[b] == s[b - 1]);
                    lemma_lex_trichotomy(s[p].0, kv);
                    if p < b - 1 {
                        assert(lex_lt(s[p].0, s[b - 1].0));
                        lemma_lex_transitive(kv, s[p].0, s[b - 1].0);
                    }
                } else {
                    assert(t[a] == s[a - 1] && t[b] == s[b - 1]);
                }
            }
            std::mem::swap(&mut e, &mut self.entries);
            true
        }
    }

    /// Removes the entry of `k`; `true` when there was one.
    pub fn remove(&mut self, k: &str) -> (r: bool)
        ensures
            final(self)@ == old(self)@.remove(k@),
            r == old(self)@.contains_key(k@),
    {
        self.check_entries();
        let kc = chars_of(k);
        let (pos, found) = self.locate(kc.as_slice());
        let ghost s = self.entries();
        if found {
            proof {
                crate::table::lemma_kv_index(s, k@, pos as int);
                lemma_kv_remove(s, pos as int);
            }
            let mut e: Vec<(String, String)> = Vec::new();
            std::mem::swap(&mut e, &mut self.entries);
            let _ = e.remove(pos);
            let ghost t = pairs_view(e@);
            assert(t =~= s.remove(pos as int));
            assert forall|a: int, b: int| 0 <= a < b < t.len() implies lex_lt(
                #[trigger] t[a].0,
                #[trigger] t[b].0,
            ) by {
                let a2 = if a < pos { a } else { a + 1 };
                let b2 = if b < pos { b } else { b + 1 };
                assert(t[a] == s[a2] && t[b] == s[b2]);
            }
            std::mem::swap(&mut e, &mut self.entries);
            true
        } else {
            proof {
                self.lemma_locate_absent(k@, pos as int);
                assert(old(self)@.remove(k@) =~= old(self)@);
            }
            false
        }
    }

    /// Number of entries.
    pub fn len(&self) -> (r: usize)
        ensures
            r == self.entries().len(),
            r == self@.len(),
            self@.dom().finite(),
    {
        self.check_entries();
        proof {
            crate::table::lemma_kv_map_len(self.entries());
        }
        self.entries.len()
    }

    /// Whether there are no entries.
    pub fn is_empty(&self) -> (r: bool)
        ensures
            r == (self.entries().len() == 0),
            r == (self@.len() == 0),
    {
        self.len() == 0
    }

    /// The entries in key order.
    pub fn pairs(&self) -> (r: &[(String, String)])
        ensures
            pairs_view(r@) == self.entries(),
    {
        self.entries.as_slice()
    }

    /// The map of a list of pairs inserted from left to right.
    pub fn from_pairs(v: Vec<(String, String)>) -> (m: StrMap)
        ensures
            m@ == map_of_pairs(pairs_view(v@)),
    {
        let mut m = StrMap::new();
        let mut i: usize = 0;
        assert(pairs_view(v@).take(0) =~= Seq::<(Seq<char>, Seq<char>)>::empty());
        while i < v.len()
            invariant
                i <= v@.len(),
                m@ == map_of_pairs(pairs_view(v@).take(i as int)),
            decreases v@.len() - i,
        {
            let k = v[i].0.clone();
            let x = v[i].1.clone();
            m.insert(k, x);
            i = i + 1;
            assert(pairs_view(v@).take(i as int).drop_last() =~= pairs_view(v@).take(i - 1));
        }
        assert(pairs_view(v@).take(i as int) =~= pairs_view(v@));
        m
    }

    /// An independent copy.
    pub fn duplicate(&self) -> (m: StrMap)
        ensures
            m@ == self@,
            m.entries() == self.entries(),
    {
        proof {
            use_type_invariant(self);
        }
        let mut out: Vec<(String, String)> = Vec::new();
        let mut i: usize = 0;
        while i < self.entries.len()
            invariant
                i <= self.entries@.len(),
                pairs_view(out@) == pairs_view(self.entries@).take(i as int),
            decreases self.entries@.len() - i,
        {
            let k = self.entries[i].0.clone();
            let x = self.entries[i].1.clone();
            let ghost before = pairs_view(out@);
            assert(pairs_view(self.entries@)[i as int] == (k@, x@));
            out.push((k, x));
            assert(pairs_view(out@) =~= before.push((k@, x@)));
            i = i + 1;
            assert(pairs_view(out@) =~= pairs_view(self.entries@).take(i as int));
        }
        assert(pairs_view(self.entries@).take(i as int) =~= pairs_view(self.entries@));
        StrMap { entries: out }
    }
}

} // verus!
