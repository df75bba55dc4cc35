//! A map from strings to values, kept as parallel vectors of distinct keys
//! and their values in insertion order.

use vstd::prelude::*;

use crate::seqs::{first_at, first_index, lemma_first_index, lemma_found_first};
use crate::text::string_views;

verus! {

pub struct StrMap<V> {
    keys: Vec<String>,
    vals: Vec<V>,
}

impl<V> StrMap<V> {
    #[verifier::type_invariant]
    spec fn well_formed(self) -> bool {
        &&& self.keys@.len() == self.vals@.len()
        &&& string_views(self.keys@).no_duplicates()
    }

    /// The key views, in insertion order.
    pub closed spec fn key_seq(&self) -> Seq<Seq<char>> {
        string_views(self.keys@)
    }

    pub closed spec fn view(&self) -> Map<Seq<char>, V> {
        Map::new(
            |k: Seq<char>| string_views(self.keys@).contains(k),
            |k: Seq<char>| self.vals@[first_index(string_views(self.keys@), k)],
        )
    }

    pub fn new() -> (m: Self)
        ensures
            m.view() == Map::<Seq<char>, V>::empty(),
            m.key_seq() == Seq::<Seq<char>>::empty(),
    {
        let m = StrMap { keys: Vec::new(), vals: Vec::new() };
        assert(string_views(m.keys@) =~= seq![]);
        assert(m.view() =~= Map::<Seq<char>, V>::empty());
        m
    }

    fn find(&self, k: &str) -> (r: Option<usize>)
        ensures
            match r {
                Some(i) => i < self.keys@.len() && i < self.vals@.len() && self.key_seq().contains(k@)
                    && i == first_index(self.key_seq(), k@),
                None => !self.key_seq().contains(k@),
            },
    {
        proof {
            use_type_invariant(self);
        }
        let key = k.to_owned();
        let mut i: usize = 0;
        while i < self.keys.len()
            invariant
                key@ == k@,
                i <= self.keys@.len(),
                self.keys@.len() == self.vals@.len(),
                forall|j: int| 0 <= j < i ==> #[trigger] string_views(self.keys@)[j] != k@,
            decreases self.keys@.len() - i,
        {
            if self.keys[i] == key {
                proof {
                    assert(first_at(string_views(self.keys@), k@, i as int));
                    lemma_found_first(string_views(self.keys@), k@, i as int);
                }
                return Some(i);
            }
            i = i + 1;
        }
        assert(!string_views(self.keys@).contains(k@)) by {
            if string_views(self.keys@).contains(k@) {
                let j = choose|j: int| 0 <= j < self.keys@.len() && string_views(self.keys@)[j] == k@;
                assert(string_views(self.keys@)[j] != k@);
            }
        }
        None
    }

    pub fn len(&self) -> (n: usize)
        ensures
            n == self.view().len(),
            n == self.key_seq().len(),
    {
        proof {
            use_type_invariant(self);
            string_views(self.keys@).unique_seq_to_set();
            assert(self.view().dom() =~= string_views(self.keys@).to_set());
        }
        self.keys.len()
    }

    pub fn is_empty(&self) -> (b: bool)
        ensures
            b == (self.view().len() == 0),
    {
        self.len() == 0
    }

    pub fn contains_key(&self, k: &str) -> (b: bool)
        ensures
            b == self.view().contains_key(k@),
    {
        self.find(k).is_some()
    }

    pub fn get(&self, k: &str) -> (r: Option<&V>)
        ensures
            match r {
                Some(v) => self.view().contains_key(k@) && *v == self.view()[k@],
                None => !self.view().contains_key(k@),
            },
    {
        match self.find(k) {
            Some(i) => Some(&self.vals[i]),
            None => None,
        }
    }

    pub fn clear(&mut self)
        ensures
            final(self).view() == Map::<Seq<char>, V>::empty(),
            final(self).key_seq() == Seq::<Seq<char>>::empty(),
    {
        *self = StrMap::new();
    }

    /// Inserts or replaces the value for `k`.
    pub fn insert(&mut self, k: String, v: V)
        ensures
            final(self).view() == old(self).view().insert(k@, v),
            final(self).key_seq() == if old(self).key_seq().contains(k@) {
                old(self).key_seq()
            } else {
                old(self).key_seq().push(k@)
            },
    {
        proof {
            use_type_invariant(&*self);
        }
        let ghost old_map = self.view();
        let ghost ks = string_views(self.keys@);
        let found = self.find(k.as_str());
        let mut me = StrMap::new();
        std::mem::swap(self, &mut me);
        proof {
            use_type_invariant(&me);
        }
        let StrMap { keys: mut keys, vals: mut vals } = me;
        match found {
            Some(i) => {
                let ghost old_vals = vals@;
                vals.remove(i);
                vals.insert(i, v);
                assert(vals@ =~= old_vals.update(i as int, v));
                let m = StrMap { keys, vals };
                assert(m.view() =~= old_map.insert(k@, v)) by {
                    assert forall|q: Seq<char>| #[trigger] m.view().contains_key(q) implies m.view()[q]
                        == old_map.insert(k@, v)[q] by {
                        if q != k@ {
                            lemma_first_index(ks, k@);
                            lemma_first_index(ks, q);
                            assert(first_index(ks, q) != i);
                        }
                    }
                }
                *self = m;
            },
            None => {
                let ghost kv = k@;
                keys.push(k);
                vals.push(v);
                let ghost nks = string_views(keys@);
                assert(nks =~= ks.push(kv));
                assert(nks.no_duplicates()) by {
                    assert forall|a: int, b: int| 0 <= a < b < nks.len() implies nks[a] != nks[b] by {
                        if b == ks.len() {
                            assert(ks.contains(ks[a]));
                        }
                    }
                }
                let m = StrMap { keys, vals };
                assert(m.view() =~= old_map.insert(kv, v)) by {
                    assert forall|q: Seq<char>| #[trigger] m.view().contains_key(q) implies m.view()[q]
                        == old_map.insert(kv, v)[q] by {
                        if q == kv {
                            assert(first_at(nks, kv, ks.len() as int));
                            lemma_found_first(nks, kv, ks.len() as int);
                        } else {
                            assert(ks.contains(q)) by {
                                let j = choose|j: int| 0 <= j < nks.len() && nks[j] == q;
                                assert(ks[j] == q);
                            }
                            lemma_first_index(ks, q);
                            let j = first_index(ks, q);
                            assert(first_at(nks, q, j));
                            lemma_found_first(nks, q, j);
                        }
                    }
                    assert forall|q: Seq<char>| old_map.insert(kv, v).contains_key(q) implies #[trigger] m.view().contains_key(q) by {
                        if q != kv {
                            let j = choose|j: int| 0 <= j < ks.len() && ks[j] == q;
                            assert(nks[j] == q);
                        } else {
                            assert(nks[ks.len() as int] == kv);
                        }
                    }
                }
                *self = m;
            },
        }
    }

    /// The keys in insertion order and their values.
    pub fn pairs(&self) -> (r: (&[String], &[V]))
        ensures
            string_views(r.0@) == self.key_seq(),
            r.0@.len() == r.1@.len(),
            forall|i: int| 0 <= i < r.0@.len() ==> self.view()[#[trigger] r.0@[i]@] == r.1@[i],
            forall|k: Seq<char>| self.view().contains_key(k) <==> self.key_seq().contains(k),
    {
        proof {
            use_type_invariant(self);
            assert forall|i: int| 0 <= i < self.keys@.len() implies self.view()[#[trigger] self.keys@[i]@]
                == self.vals@[i] by {
                let ks = string_views(self.keys@);
                assert(ks[i] == self.keys@[i]@);
                lemma_first_index(ks, ks[i]);
                assert(first_at(ks, ks[i], i)) by {
                    assert forall|j: int| 0 <= j < i implies #[trigger] ks[j] != ks[i] by {}
                }
                lemma_found_first(ks, ks[i], i);
            }
        }
        (self.keys.as_slice(), self.vals.as_slice())
    }
}

} // verus!
