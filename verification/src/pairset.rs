//! An ordered set of string pairs kept as a vector, strictly sorted by pair.
//!
//! The older generator keeps its source/reference pairs as a set rather than
//! a map; this container reproduces that behaviour: inserting a pair that is
//! already present changes nothing, and iteration order is ascending, first
//! by source identifier, then by reference.

use vstd::prelude::*;

use crate::strutil::{chars_lt, lemma_chars_lt_asym, lemma_chars_lt_total, lemma_chars_lt_trans,
    str_eq, str_lt};

verus! {

/// The views of one entry.
pub open spec fn pair_view(p: (String, String)) -> (Seq<char>, Seq<char>) {
    (p.0@, p.1@)
}

/// The entry views, in order.
pub open spec fn pairs_of(s: Seq<(String, String)>) -> Seq<(Seq<char>, Seq<char>)> {
    s.map_values(|p: (String, String)| pair_view(p))
}

/// Lexicographic order on pairs: by first component, then by second.
pub open spec fn pair_lt(a: (Seq<char>, Seq<char>), b: (Seq<char>, Seq<char>)) -> bool {
    chars_lt(a.0, b.0) || (a.0 == b.0 && chars_lt(a.1, b.1))
}

/// Entries strictly ascending.
pub open spec fn sorted_pairs(s: Seq<(String, String)>) -> bool {
    forall|i: int, j: int|
        #![trigger s[i], s[j]]
        0 <= i < j < s.len() ==> pair_lt(pair_view(s[i]), pair_view(s[j]))
}

/// The finite set the entries describe.
pub open spec fn set_of(s: Seq<(String, String)>) -> Set<(Seq<char>, Seq<char>)> {
    pairs_of(s).to_set()
}

/// The pair order is total.
pub proof fn lemma_pair_lt_total(a: (Seq<char>, Seq<char>), b: (Seq<char>, Seq<char>))
    ensures
        pair_lt(a, b) || pair_lt(b, a) || a == b,
{
    lemma_chars_lt_total(a.0, b.0);
    lemma_chars_lt_total(a.1, b.1);
}

/// The pair order is asymmetric, hence also irreflexive.
pub proof fn lemma_pair_lt_asym(a: (Seq<char>, Seq<char>), b: (Seq<char>, Seq<char>))
    ensures
        pair_lt(a, b) ==> !pair_lt(b, a) && a != b,
{
    lemma_chars_lt_asym(a.0, b.0);
    lemma_chars_lt_asym(a.1, b.1);
}

/// The pair order is transitive.
pub proof fn lemma_pair_lt_trans(
    a: (Seq<char>, Seq<char>),
    b: (Seq<char>, Seq<char>),
    c: (Seq<char>, Seq<char>),
)
    ensures
        pair_lt(a, b) && pair_lt(b, c) ==> pair_lt(a, c),
{
    lemma_chars_lt_trans(a.0, b.0, c.0);
    lemma_chars_lt_trans(a.1, b.1, c.1);
    lemma_chars_lt_asym(a.0, b.0);
    lemma_chars_lt_asym(b.0, c.0);
}

/// Inserting a pair that is not yet present at its sorted position keeps the
/// run sorted and adds exactly that pair to the set.
proof fn lemma_pair_insert_fresh(s: Seq<(String, String)>, p: int, k: String, v: String)
    requires
        sorted_pairs(s),
        0 <= p <= s.len(),
        forall|i: int| 0 <= i < p ==> pair_lt(pair_view(#[trigger] s[i]), (k@, v@)),
        forall|i: int| p <= i < s.len() ==> pair_lt((k@, v@), pair_view(#[trigger] s[i])),
    ensures
        sorted_pairs(s.insert(p, (k, v))),
        set_of(s.insert(p, (k, v))) == set_of(s).insert((k@, v@)),
{
    let t = s.insert(p, (k, v));
    s.insert_ensures(p, (k, v));
    assert forall|i: int, j: int|
        #![trigger t[i], t[j]]
        0 <= i < j < t.len() implies pair_lt(pair_view(t[i]), pair_view(t[j])) by {
        if i < p && j < p {
        } else if i < p && j == p {
        } else if i == p && j > p {
        } else if i < p && j > p {
            lemma_pair_lt_trans(pair_view(s[i]), (k@, v@), pair_view(s[j - 1]));
        }
    }
    assert forall|e: (Seq<char>, Seq<char>)| true implies #[trigger] set_of(t).contains(e)
        == set_of(s).insert((k@, v@)).contains(e) by {
        if e == (k@, v@) {
            assert(pairs_of(t)[p] == e);
        } else {
            if set_of(s).contains(e) {
                let i = choose|i: int| 0 <= i < pairs_of(s).len() && pairs_of(s)[i] == e;
                if i < p {
                    assert(pairs_of(t)[i] == e);
                } else {
                    assert(pairs_of(t)[i + 1] == e);
                }
            }
            if set_of(t).contains(e) {
                let i = choose|i: int| 0 <= i < pairs_of(t).len() && pairs_of(t)[i] == e;
                if i < p {
                    assert(pairs_of(s)[i] == e);
                } else if i > p {
                    assert(pairs_of(s)[i - 1] == e);
                }
            }
        }
    }
    assert(set_of(t) =~= set_of(s).insert((k@, v@)));
}

/// An ordered set of (source identifier, flake reference) pairs.
pub struct StrPairSet {
    entries: Vec<(String, String)>,
}

impl View for StrPairSet {
    type V = Set<(Seq<char>, Seq<char>)>;

    closed spec fn view(&self) -> Set<(Seq<char>, Seq<char>)> {
        set_of(self.entries@)
    }
}

impl StrPairSet {
    /// The entry views in iteration order.
    pub closed spec fn pair_seq(&self) -> Seq<(Seq<char>, Seq<char>)> {
        pairs_of(self.entries@)
    }

    /// Entries are strictly sorted.
    pub closed spec fn wf(&self) -> bool {
        sorted_pairs(self.entries@)
    }

    /// An empty set.
    pub fn new() -> (r: Self)
        ensures
            r.wf(),
            r@ == Set::<(Seq<char>, Seq<char>)>::empty(),
            r.pair_seq().len() == 0,
    {
        let r = StrPairSet { entries: Vec::new() };
        proof {
            assert(r@ =~= Set::<(Seq<char>, Seq<char>)>::empty());
        }
        r
    }

    /// How many pairs the set holds.
    pub fn len(&self) -> (n: usize)
        ensures
            n == self.pair_seq().len(),
    {
        self.entries.len()
    }

    /// The pair at position `i` in iteration order.
    pub fn entry_at(&self, i: usize) -> (r: (&String, &String))
        requires
            i < self.pair_seq().len(),
        ensures
            (r.0@, r.1@) == self.pair_seq()[i as int],
            self@.contains((r.0@, r.1@)),
    {
        let p = &self.entries[i];
        proof {
            assert(pairs_of(self.entries@)[i as int] == (p.0@, p.1@));
        }
        (&p.0, &p.1)
    }

    /// Does the set hold the pair `(k, v)`?
    pub fn contains_pair(&self, k: &str, v: &str) -> (r: bool)
        ensures
            r == self@.contains((k@, v@)),
    {
        let n = self.entries.len();
        let mut i: usize = 0;
        while i < n
            invariant
                0 <= i <= n,
                n == self.entries@.len(),
                forall|j: int| 0 <= j < i ==> pairs_of(self.entries@)[j] != (k@, v@),
            decreases n - i,
        {
            proof {
                assert(pairs_of(self.entries@)[i as int] == (self.entries@[i as int].0@,
                self.entries@[i as int].1@));
            }
            if str_eq(self.entries[i].0.as_str(), k) && str_eq(self.entries[i].1.as_str(), v) {
                return true;
            }
            i = i + 1;
        }
        proof {
            if self@.contains((k@, v@)) {
                let j = choose|j: int|
                    0 <= j < pairs_of(self.entries@).len() && pairs_of(self.entries@)[j] == (
                    k@,
                    v@,
                );
                assert(pairs_of(self.entries@)[j] != (k@, v@));
            }
        }
        false
    }

    /// Insert the pair `(k, v)`; inserting a pair already present changes
    /// nothing.
    pub fn insert(&mut self, k: String, v: String)
        requires
            old(self).wf(),
        ensures
            final(self).wf(),
            final(self)@ == old(self)@.insert((k@, v@)),
    {
        let n = self.entries.len();
        let mut p: usize = 0;
        while p < n && (str_lt(self.entries[p].0.as_str(), k.as_str()) || (str_eq(
            self.entries[p].0.as_str(),
            k.as_str(),
        ) && str_lt(self.entries[p].1.as_str(), v.as_str())))
            invariant
                old(self).wf(),
                self == old(self),
                0 <= p <= n,
                n == self.entries@.len(),
                forall|i: int|
                    0 <= i < p ==> pair_lt(pair_view(#[trigger] self.entries@[i]), (k@, v@)),
            decreases n - p,
        {
            p = p + 1;
        }
        if p < n && str_eq(self.entries[p].0.as_str(), k.as_str()) && str_eq(
            self.entries[p].1.as_str(),
            v.as_str(),
        ) {
            proof {
                assert(pairs_of(self.entries@)[p as int] == (k@, v@));
                assert(self@.insert((k@, v@)) =~= self@);
            }
        } else {
            proof {
                assert forall|i: int|
                    p <= i < self.entries@.len() implies pair_lt(
                    (k@, v@),
                    pair_view(#[trigger] self.entries@[i]),
                ) by {
                    lemma_pair_lt_total((k@, v@), pair_view(self.entries@[p as int]));
                    if i > p {
                        lemma_pair_lt_trans(
                            (k@, v@),
                            pair_view(self.entries@[p as int]),
                            pair_view(self.entries@[i]),
                        );
                    }
                }
                lemma_pair_insert_fresh(self.entries@, p as int, k, v);
            }
            self.entries.insert(p, (k, v));
        }
    }
}

} // verus!
