//! An ordered string-to-string map kept as a vector of entries, strictly
//! sorted by key.
//!
//! The descriptor builder accumulates its source-to-reference mappings here:
//! keys are unique, a second insert of a key overwrites its value, and
//! iteration order is ascending by key, so that repeated runs over the same
//! manifest emit their entries in the same order.

use vstd::prelude::*;

use crate::strutil::{chars_lt, lemma_chars_lt_asym, lemma_chars_lt_total, lemma_chars_lt_trans,
    str_eq, str_lt};

verus! {

/// The key views of a run of entries, in order.
pub open spec fn keys_of(s: Seq<(String, String)>) -> Seq<Seq<char>> {
    s.map_values(|p: (String, String)| p.0@)
}

/// Entries strictly ascending by key.
pub open spec fn sorted_by_key(s: Seq<(String, String)>) -> bool {
    forall|i: int, j: int|
        #![trigger s[i], s[j]]
        0 <= i < j < s.len() ==> chars_lt(s[i].0@, s[j].0@)
}

/// Is `k` the key of some entry?
pub open spec fn has_key(s: Seq<(String, String)>, k: Seq<char>) -> bool {
    exists|i: int| 0 <= i < s.len() && s[i].0@ == k
}

/// The index of the entry with key `k` (meaningful when keys are unique).
pub open spec fn index_of_key(s: Seq<(String, String)>, k: Seq<char>) -> int {
    choose|i: int| 0 <= i < s.len() && s[i].0@ == k
}

/// The finite map the entries describe.
pub open spec fn map_of(s: Seq<(String, String)>) -> Map<Seq<char>, Seq<char>> {
    Map::new(|k: Seq<char>| has_key(s, k), |k: Seq<char>| s[index_of_key(s, k)].1@)
}

/// Strictly sorted keys are pairwise distinct.
pub proof fn lemma_sorted_unique(s: Seq<(String, String)>)
    requires
        sorted_by_key(s),
    ensures
        forall|i: int, j: int|
            #![trigger s[i], s[j]]
            0 <= i < s.len() && 0 <= j < s.len() && i != j ==> s[i].0@ != s[j].0@,
{
    assert forall|i: int, j: int|
        #![trigger s[i], s[j]]
        0 <= i < s.len() && 0 <= j < s.len() && i != j implies s[i].0@ != s[j].0@ by {
        if i < j {
            lemma_chars_lt_asym(s[i].0@, s[j].0@);
        } else {
            lemma_chars_lt_asym(s[j].0@, s[i].0@);
        }
    }
}

/// In a run with unique keys, every entry with key `k` holds the value the
/// map assigns to `k`.
proof fn lemma_value_at(s: Seq<(String, String)>, i: int)
    requires
        sorted_by_key(s),
        0 <= i < s.len(),
    ensures
        has_key(s, s[i].0@),
        map_of(s)[s[i].0@] == s[i].1@,
{
    lemma_sorted_unique(s);
    assert(0 <= i < s.len() && s[i].0@ == s[i].0@);
    let j = index_of_key(s, s[i].0@);
    assert(s[j].0@ == s[i].0@);
}

/// Inserting a fresh key at its sorted position keeps the run sorted and
/// adds exactly that key to the map.
proof fn lemma_insert_fresh(s: Seq<(String, String)>, p: int, k: String, v: String)
    requires
        sorted_by_key(s),
        0 <= p <= s.len(),
        forall|i: int| 0 <= i < p ==> chars_lt(#[trigger] s[i].0@, k@),
        forall|i: int| p <= i < s.len() ==> chars_lt(k@, #[trigger] s[i].0@),
    ensures
        sorted_by_key(s.insert(p, (k, v))),
        map_of(s.insert(p, (k, v))) == map_of(s).insert(k@, v@),
{
    let t = s.insert(p, (k, v));
    s.insert_ensures(p, (k, v));
    assert forall|i: int, j: int|
        #![trigger t[i], t[j]]
        0 <= i < j < t.len() implies chars_lt(t[i].0@, t[j].0@) by {
        if i < p && j < p {
        } else if i < p && j == p {
        } else if i == p && j > p {
        } else if i < p && j > p {
            lemma_chars_lt_trans(s[i].0@, k@, s[j - 1].0@);
        }
    }
    lemma_sorted_unique(s);
    lemma_sorted_unique(t);
    assert forall|kk: Seq<char>| true implies #[trigger] map_of(t).contains_key(kk) == map_of(
        s,
    ).insert(k@, v@).contains_key(kk) by {
        if kk == k@ {
            assert(t[p].0@ == kk);
        } else {
            if has_key(s, kk) {
                let i = choose|i: int| 0 <= i < s.len() && s[i].0@ == kk;
                if i < p {
                    assert(t[i].0@ == kk);
                } else {
                    assert(t[i + 1].0@ == kk);
                }
            }
            if has_key(t, kk) {
                let i = choose|i: int| 0 <= i < t.len() && t[i].0@ == kk;
                if i < p {
                    assert(s[i].0@ == kk);
                } else if i > p {
                    assert(s[i - 1].0@ == kk);
                }
            }
        }
    }
    assert forall|kk: Seq<char>| map_of(t).contains_key(kk) implies map_of(t)[kk] == map_of(
        s,
    ).insert(k@, v@)[kk] by {
        let i = index_of_key(t, kk);
        assert(0 <= i < t.len() && t[i].0@ == kk);
        if kk == k@ {
            assert forall|j: int| 0 <= j < t.len() && j != p implies t[j].0@ != k@ by {
                if j < p {
                    lemma_chars_lt_asym(s[j].0@, k@);
                } else {
                    lemma_chars_lt_asym(k@, s[j - 1].0@);
                }
            }
            assert(i == p);
        } else {
            assert(i != p);
            if i < p {
                lemma_value_at(s, i);
            } else {
                lemma_value_at(s, i - 1);
            }
        }
    }
    assert(map_of(t) =~= map_of(s).insert(k@, v@));
}

/// Overwriting the entry that already holds key `k` keeps the run sorted and
/// only changes that key's value.
proof fn lemma_insert_replace(s: Seq<(String, String)>, p: int, k: String, v: String)
    requires
        sorted_by_key(s),
        0 <= p < s.len(),
        s[p].0@ == k@,
    ensures
        sorted_by_key(s.update(p, (k, v))),
        map_of(s.update(p, (k, v))) == map_of(s).insert(k@, v@),
{
    let t = s.update(p, (k, v));
    assert forall|i: int, j: int|
        #![trigger t[i], t[j]]
        0 <= i < j < t.len() implies chars_lt(t[i].0@, t[j].0@) by {
        assert(t[i].0@ == s[i].0@);
        assert(t[j].0@ == s[j].0@);
    }
    lemma_sorted_unique(s);
    lemma_sorted_unique(t);
    assert forall|kk: Seq<char>| true implies #[trigger] map_of(t).contains_key(kk) == map_of(
        s,
    ).insert(k@, v@).contains_key(kk) by {
        if has_key(s, kk) {
            let i = choose|i: int| 0 <= i < s.len() && s[i].0@ == kk;
            assert(t[i].0@ == kk);
        }
        if has_key(t, kk) {
            let i = choose|i: int| 0 <= i < t.len() && t[i].0@ == kk;
            assert(s[i].0@ == if i == p {
                k@
            } else {
                kk
            });
        }
    }
    assert forall|kk: Seq<char>| map_of(t).contains_key(kk) implies map_of(t)[kk] == map_of(
        s,
    ).insert(k@, v@)[kk] by {
        let i = index_of_key(t, kk);
        assert(0 <= i < t.len() && t[i].0@ == kk);
        if kk == k@ {
            assert(i == p);
        } else {
            assert(i != p);
            lemma_value_at(s, i);
        }
    }
    assert(map_of(t) =~= map_of(s).insert(k@, v@));
}

/// An ordered map from source identifiers to flake references: entries are
/// held strictly sorted by key, and a key's latest value wins.
pub struct StrMap {
    entries: Vec<(String, String)>,
}

impl View for StrMap {
    type V = Map<Seq<char>, Seq<char>>;

    closed spec fn view(&self) -> Map<Seq<char>, Seq<char>> {
        map_of(self.entries@)
    }
}

impl StrMap {
    /// The keys in iteration order.
    pub closed spec fn key_seq(&self) -> Seq<Seq<char>> {
        keys_of(self.entries@)
    }

    /// Entries are strictly sorted by key.
    pub closed spec fn wf(&self) -> bool {
        sorted_by_key(self.entries@)
    }

    /// Iteration order is strictly ascending, and every listed key is in the
    /// map with the value the map assigns it.
    pub proof fn lemma_wf_facts(&self)
        requires
            self.wf(),
        ensures
            forall|i: int, j: int|
                0 <= i < j < self.key_seq().len() ==> chars_lt(
                    #[trigger] self.key_seq()[i],
                    #[trigger] self.key_seq()[j],
                ),
            forall|i: int|
                0 <= i < self.key_seq().len() ==> self@.contains_key(#[trigger] self.key_seq()[i]),
            forall|k: Seq<char>| #[trigger] self@.contains_key(k) ==> self.key_seq().contains(k),
    {
        assert forall|i: int|
            0 <= i < self.key_seq().len() implies self@.contains_key(
            #[trigger] self.key_seq()[i],
        ) by {
            lemma_value_at(self.entries@, i);
        }
        assert forall|k: Seq<char>| #[trigger] self@.contains_key(k) implies self.key_seq().contains(
            k,
        ) by {
            let i = choose|i: int| 0 <= i < self.entries@.len() && self.entries@[i].0@ == k;
            assert(self.key_seq()[i] == k);
        }
    }

    /// An empty map.
    pub fn new() -> (r: Self)
        ensures
            r.wf(),
            r@ == Map::<Seq<char>, Seq<char>>::empty(),
            r.key_seq().len() == 0,
    {
        let r = StrMap { entries: Vec::new() };
        proof {
            assert(r@ =~= Map::<Seq<char>, Seq<char>>::empty());
        }
        r
    }

    /// How many entries the map holds.
    pub fn len(&self) -> (n: usize)
        ensures
            n == self.key_seq().len(),
    {
        self.entries.len()
    }

    /// The key and value at position `i` in iteration order.
    pub fn entry_at(&self, i: usize) -> (r: (&String, &String))
        requires
            self.wf(),
            i < self.key_seq().len(),
        ensures
            r.0@ == self.key_seq()[i as int],
            self@.contains_key(r.0@),
            r.1@ == self@[r.0@],
    {
        proof {
            lemma_value_at(self.entries@, i as int);
        }
        let p = &self.entries[i];
        (&p.0, &p.1)
    }

    /// The value stored under `k`, if any.
    pub fn get(&self, k: &str) -> (r: Option<&String>)
        requires
            self.wf(),
        ensures
            match r {
                Some(v) => self@.contains_key(k@) && v@ == self@[k@],
                None => !self@.contains_key(k@),
            },
    {
        let n = self.entries.len();
        let mut i: usize = 0;
        while i < n
            invariant
                self.wf(),
                0 <= i <= n,
                n == self.entries@.len(),
                forall|j: int| 0 <= j < i ==> (#[trigger] self.entries@[j].0@) != k@,
            decreases n - i,
        {
            if str_eq(self.entries[i].0.as_str(), k) {
                proof {
                    lemma_value_at(self.entries@, i as int);
                }
                return Some(&self.entries[i].1);
            }
            i = i + 1;
        }
        None
    }

    /// Insert `k -> v`; an existing value under `k` is overwritten.
    pub fn insert(&mut self, k: String, v: String)
        requires
            old(self).wf(),
        ensures
            final(self).wf(),
            final(self)@ == old(self)@.insert(k@, v@),
    {
        let n = self.entries.len();
        let mut p: usize = 0;
        while p < n && str_lt(self.entries[p].0.as_str(), k.as_str())
            invariant
                old(self).wf(),
                self == old(self),
                0 <= p <= n,
                n == self.entries@.len(),
                forall|i: int| 0 <= i < p ==> chars_lt(#[trigger] self.entries@[i].0@, k@),
            decreases n - p,
        {
            p = p + 1;
        }
        if p < n && str_eq(self.entries[p].0.as_str(), k.as_str()) {
            proof {
                lemma_insert_replace(self.entries@, p as int, k, v);
            }
            let ghost s0 = self.entries@;
            self.entries.remove(p);
            self.entries.insert(p, (k, v));
            proof {
                assert(self.entries@ =~= s0.update(p as int, (k, v)));
            }
        } else {
            proof {
                assert forall|i: int|
                    p <= i < self.entries@.len() implies chars_lt(
                    k@,
                    #[trigger] self.entries@[i].0@,
                ) by {
                    lemma_chars_lt_total(k@, self.entries@[p as int].0@);
                    if i > p {
                        lemma_chars_lt_trans(k@, self.entries@[p as int].0@, self.entries@[i].0@);
                    }
                }
                lemma_insert_fresh(self.entries@, p as int, k, v);
            }
            self.entries.insert(p, (k, v));
        }
    }
}

} // verus!
