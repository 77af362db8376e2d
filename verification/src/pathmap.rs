//! Maps from paths to hashes, kept as key-sorted vectors.
use vstd::prelude::*;
use crate::order::{lemma_lex_asymmetric, lemma_lex_irreflexive, lemma_lex_total, lemma_lex_transitive, lex_less, lex_lt, strictly_sorted, chars_eq};
use crate::text::views_of;

verus! {

/// A finite map from paths to hashes whose keys are kept in increasing order.
pub struct PathMap {
    pub keys: Vec<Vec<char>>,
    pub vals: Vec<Vec<char>>,
}

impl PathMap {
    pub open spec fn key_seq(&self) -> Seq<Seq<char>> {
        views_of(self.keys@)
    }

    pub open spec fn val_seq(&self) -> Seq<Seq<char>> {
        views_of(self.vals@)
    }

    /// Keys and values pair up, and the keys are strictly increasing.
    pub open spec fn wf(&self) -> bool {
        &&& self.keys@.len() == self.vals@.len()
        &&& strictly_sorted(self.key_seq())
    }

    /// The map this value stands for.
    pub open spec fn to_map(&self) -> Map<Seq<char>, Seq<char>> {
        Map::new(
            |k: Seq<char>| self.key_seq().contains(k),
            |k: Seq<char>| self.val_seq()[self.key_seq().index_of(k)],
        )
    }

    /// In a well-formed map the value of the key at `i` is the value at `i`.
    pub proof fn lemma_lookup(&self, i: int)
        requires
            self.wf(),
            0 <= i < self.key_seq().len(),
        ensures
            self.to_map().dom().contains(self.key_seq()[i]),
            self.to_map()[self.key_seq()[i]] == self.val_seq()[i],
    {
        let ks = self.key_seq();
        assert(ks.contains(ks[i]));
        let j = ks.index_of(ks[i]);
        if j < i {
            assert(lex_lt(ks[j], ks[i]));
            lemma_lex_irreflexive(ks[i]);
        } else if i < j {
            assert(lex_lt(ks[i], ks[j]));
            lemma_lex_irreflexive(ks[i]);
        }
    }

    pub fn new() -> (m: Self)
        ensures
            m.wf(),
            m.to_map() == Map::<Seq<char>, Seq<char>>::empty(),
    {
        let m = PathMap { keys: Vec::new(), vals: Vec::new() };
        assert(m.to_map() =~= Map::<Seq<char>, Seq<char>>::empty());
        m
    }

    pub fn len(&self) -> (n: usize)
        ensures
            n == self.keys@.len(),
    {
        self.keys.len()
    }

    /// The first position whose key does not come before `key`.
    pub fn lower_bound(&self, key: &Vec<char>) -> (r: usize)
        requires
            self.wf(),
        ensures
            r <= self.keys@.len(),
            forall|i: int| 0 <= i < r ==> lex_lt(#[trigger] self.key_seq()[i], key@),
            forall|i: int| r <= i < self.keys@.len() ==> !lex_lt(#[trigger] self.key_seq()[i], key@),
    {
        let mut lo: usize = 0;
        let mut hi: usize = self.keys.len();
        while lo < hi
            invariant
                self.wf(),
                lo <= hi <= self.keys@.len(),
                forall|i: int| 0 <= i < lo ==> lex_lt(#[trigger] self.key_seq()[i], key@),
                forall|i: int| hi <= i < self.keys@.len() ==> !lex_lt(#[trigger] self.key_seq()[i], key@),
            decreases hi - lo,
        {
            let mid = lo + (hi - lo) / 2;
            if lex_less(&self.keys[mid], key) {
                assert forall|i: int| 0 <= i < mid + 1 implies lex_lt(#[trigger] self.key_seq()[i], key@) by {
                    if i < mid {
                        lemma_lex_transitive(self.key_seq()[i], self.key_seq()[mid as int], key@);
                    }
                }
                lo = mid + 1;
            } else {
                assert forall|i: int| mid <= i < self.keys@.len() implies !lex_lt(#[trigger] self.key_seq()[i], key@) by {
                    if mid < i {
                        if lex_lt(self.key_seq()[i], key@) {
                            lemma_lex_transitive(self.key_seq()[mid as int], self.key_seq()[i], key@);
                        }
                    }
                }
                hi = mid;
            }
        }
        lo
    }

    /// The position of `key`, if it is a key.
    pub fn find(&self, key: &Vec<char>) -> (r: Option<usize>)
        requires
            self.wf(),
        ensures
            r matches Some(i) ==> i < self.keys@.len() && self.key_seq()[i as int] == key@,
            r is None ==> !self.to_map().dom().contains(key@),
            r is None <==> !self.to_map().dom().contains(key@),
    {
        let p = self.lower_bound(key);
        if p < self.keys.len() && chars_eq(&self.keys[p], key) {
            proof {
                self.lemma_lookup(p as int);
            }
            Some(p)
        } else {
            proof {
                if self.key_seq().contains(key@) {
                    let j = choose|j: int| 0 <= j < self.key_seq().len() && self.key_seq()[j] == key@;
                    if j < p {
                        lemma_lex_irreflexive(key@);
                    } else if j > p {
                        lemma_lex_total(self.key_seq()[p as int], key@);
                        lemma_lex_asymmetric(self.key_seq()[p as int], key@);
                        assert(lex_lt(self.key_seq()[p as int], self.key_seq()[j]));
                    }
                }
            }
            None
        }
    }

    /// Sets the value of `key` to `val`, adding the key if it is new.
    pub fn insert(&mut self, key: Vec<char>, val: Vec<char>)
        requires
            old(self).wf(),
        ensures
            final(self).wf(),
            final(self).to_map() == old(self).to_map().insert(key@, val@),
    {
        let ghost m0 = self.to_map();
        let ghost ks0 = self.key_seq();
        let ghost vs0 = self.val_seq();
        let p = self.lower_bound(&key);
        if p < self.keys.len() && chars_eq(&self.keys[p], &key) {
            self.vals.set(p, val);
            proof {
                assert(self.key_seq() =~= ks0);
                assert(self.val_seq() =~= vs0.update(p as int, val@));
                assert(ks0[p as int] == key@);
                assert(ks0.contains(key@));
                assert forall|k: Seq<char>| #[trigger] self.to_map().dom().contains(k) == m0.insert(key@, val@).dom().contains(k) by {}
                assert forall|k: Seq<char>| self.to_map().dom().contains(k) implies #[trigger] self.to_map()[k] == m0.insert(key@, val@)[k] by {
                    let j = ks0.index_of(k);
                    lemma_key_value(ks0, vs0, j);
                    assert(ks0[j] == k);
                    if j != p {
                        if j < p {
                            assert(lex_lt(ks0[j], ks0[p as int]));
                        } else {
                            assert(lex_lt(ks0[p as int], ks0[j]));
                        }
                        lemma_lex_irreflexive(k);
                        assert(k != key@);
                        assert(m0[k] == vs0[j]);
                    }
                }
                assert(self.to_map() =~= m0.insert(key@, val@));
            }
        } else {
            self.keys.insert(p, key);
            self.vals.insert(p, val);
            proof {
                let ks = self.key_seq();
                assert(ks =~= ks0.insert(p as int, key@));
                assert(self.val_seq() =~= vs0.insert(p as int, val@));
                assert(p < ks0.len() ==> lex_lt(key@, ks0[p as int])) by {
                    if p < ks0.len() {
                        lemma_lex_total(ks0[p as int], key@);
                    }
                }
                assert forall|i: int, j: int| 0 <= i < j < ks.len() implies lex_lt(#[trigger] ks[i], #[trigger] ks[j]) by {
                    if i < p && j == p {
                    } else if i == p && j > p {
                        if j - 1 > p {
                            lemma_lex_transitive(key@, ks0[p as int], ks0[j - 1]);
                        }
                    } else if i < p && j > p {
                        assert(ks[j] == ks0[j - 1]);
                    } else if i > p {
                        assert(ks[i] == ks0[i - 1]);
                        assert(ks[j] == ks0[j - 1]);
                    }
                }
                assert forall|k: Seq<char>| #[trigger] self.to_map().dom().contains(k) == m0.insert(key@, val@).dom().contains(k) by {
                    if ks0.contains(k) {
                        let i = choose|i: int| 0 <= i < ks0.len() && ks0[i] == k;
                        if i < p {
                            assert(ks[i] == k);
                        } else {
                            assert(ks[i + 1] == k);
                        }
                    }
                    if k == key@ {
                        assert(ks[p as int] == k);
                    }
                    if ks.contains(k) {
                        let i = choose|i: int| 0 <= i < ks.len() && ks[i] == k;
                        if i < p {
                            assert(ks0[i] == k);
                        } else if i > p {
                            assert(ks0[i - 1] == k);
                        }
                    }
                }
                assert forall|k: Seq<char>| self.to_map().dom().contains(k) implies #[trigger] self.to_map()[k] == m0.insert(key@, val@)[k] by {
                    let j = ks.index_of(k);
                    self.lemma_lookup(j);
                    if j < p {
                        lemma_key_value(ks0, vs0, j);
                        assert(ks0[j] == k);
                        if k == key@ {
                            lemma_lex_irreflexive(k);
                        }
                    } else if j > p {
                        lemma_key_value(ks0, vs0, j - 1);
                        assert(ks0[j - 1] == k);
                        if k == key@ {
                            lemma_lex_irreflexive(k);
                        }
                    }
                }
                assert(self.to_map() =~= m0.insert(key@, val@));
            }
        }
    }
}

/// `Map::new` over a sorted key sequence gives each key its own value.
proof fn lemma_key_value(ks: Seq<Seq<char>>, vs: Seq<Seq<char>>, i: int)
    requires
        strictly_sorted(ks),
        0 <= i < ks.len(),
    ensures
        ks.index_of(ks[i]) == i,
{
    assert(ks.contains(ks[i]));
    let j = ks.index_of(ks[i]);
    if j < i {
        assert(lex_lt(ks[j], ks[i]));
        lemma_lex_irreflexive(ks[i]);
    } else if i < j {
        assert(lex_lt(ks[i], ks[j]));
        lemma_lex_irreflexive(ks[i]);
    }
}

}
