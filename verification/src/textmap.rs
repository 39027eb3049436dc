//! An ordered map from strings to values.
//!
//! The keys stand in increasing order without repetition, so walking the map
//! by position visits the entries in key order. The map is modelled by
//! `Map<Text, _>`; positions refer to `keys_of` of that map.

use crate::text::{self, Text};
use vstd::prelude::*;

verus! {

/// The keys of a map in increasing order.
pub open spec fn keys_of<V>(m: Map<Text, V>) -> Seq<Text> {
    text::sorted(m.dom())
}

/// An ordered map with string keys.
#[derive(Debug)]
pub struct TextMap<V> {
    keys: Vec<String>,
    vals: Vec<V>,
}

impl<V> TextMap<V> {
    #[verifier::type_invariant]
    spec fn ordered(self) -> bool {
        &&& self.keys@.len() == self.vals@.len()
        &&& text::increasing(self.keys.deep_view())
    }
}

impl<V: DeepView> DeepView for TextMap<V> {
    type V = Map<Text, V::V>;

    closed spec fn deep_view(&self) -> Map<Text, V::V> {
        Map::new(
            |k: Text| self.keys.deep_view().contains(k),
            |k: Text| self.vals@[self.keys.deep_view().index_of(k)].deep_view(),
        )
    }
}

impl<V: DeepView> TextMap<V> {
    proof fn lemma_model(self)
        requires
            self.ordered(),
        ensures
            self.deep_view().dom().finite(),
            self.deep_view().dom() == self.keys.deep_view().to_set(),
            keys_of(self.deep_view()) == self.keys.deep_view(),
            self.deep_view().dom().len() == self.keys@.len(),
            forall|i: int|
                0 <= i < self.keys@.len() ==> self.deep_view()[#[trigger] self.keys.deep_view()[i]]
                    == self.vals@[i].deep_view(),
    {
        let q = self.keys.deep_view();
        text::lemma_increasing_distinct(q);
        q.unique_seq_to_set();
        text::lemma_sorted_is(q);
        assert(self.deep_view().dom() =~= q.to_set());
        assert forall|i: int| 0 <= i < q.len() implies self.deep_view()[#[trigger] q[i]]
            == self.vals@[i].deep_view() by {
            assert(q.contains(q[i]));
            assert(q.index_of(q[i]) == i);
        }
    }

    /// The empty map.
    pub fn new() -> (r: Self)
        ensures
            r.deep_view() == Map::<Text, V::V>::empty(),
    {
        let r = TextMap { keys: Vec::new(), vals: Vec::new() };
        assert(r.deep_view() =~= Map::<Text, V::V>::empty());
        r
    }

    /// How many entries there are.
    pub fn len(&self) -> (r: usize)
        ensures
            r == self.deep_view().dom().len(),
            r == keys_of(self.deep_view()).len(),
            self.deep_view().dom().finite(),
    {
        proof {
            use_type_invariant(self);
            self.lemma_model();
        }
        self.keys.len()
    }

    /// Whether there is no entry.
    pub fn is_empty(&self) -> (r: bool)
        ensures
            r == (self.deep_view().dom().len() == 0),
            r == (self.deep_view() == Map::<Text, V::V>::empty()),
            self.deep_view().dom().finite(),
    {
        proof {
            use_type_invariant(self);
            self.lemma_model();
            if self.keys@.len() == 0 {
                assert(self.deep_view() =~= Map::<Text, V::V>::empty());
            } else {
                assert(self.deep_view().dom().contains(self.keys.deep_view()[0])) by {
                    assert(self.keys.deep_view().contains(self.keys.deep_view()[0]));
                }
            }
        }
        self.keys.len() == 0
    }

    /// The key at position `i` in key order.
    pub fn key_at(&self, i: usize) -> (r: &str)
        requires
            i < keys_of(self.deep_view()).len(),
        ensures
            r@ == keys_of(self.deep_view())[i as int],
            self.deep_view().contains_key(r@),
    {
        proof {
            use_type_invariant(self);
            self.lemma_model();
            assert(self.keys.deep_view().contains(self.keys.deep_view()[i as int]));
        }
        self.keys[i].as_str()
    }

    /// The value at position `i` in key order.
    pub fn value_at(&self, i: usize) -> (r: &V)
        requires
            i < keys_of(self.deep_view()).len(),
        ensures
            r.deep_view() == self.deep_view()[keys_of(self.deep_view())[i as int]],
    {
        proof {
            use_type_invariant(self);
            self.lemma_model();
        }
        &self.vals[i]
    }

    /// The first position whose key is not before `k`.
    fn position(&self, k: &str) -> (r: usize)
        ensures
            r <= self.keys@.len(),
            forall|i: int| 0 <= i < r ==> text::before(#[trigger] self.keys.deep_view()[i], k@),
            forall|i: int|
                r <= i < self.keys@.len() ==> !text::before(
                    #[trigger] self.keys.deep_view()[i],
                    k@,
                ),
            self.deep_view().contains_key(k@) <==> r < self.keys@.len() && self.keys.deep_view()[r as int]
                == k@,
            self.ordered(),
    {
        proof {
            use_type_invariant(self);
            self.lemma_model();
        }
        let ghost q = self.keys.deep_view();
        let mut i: usize = 0;
        while i < self.keys.len() && text::is_before(self.keys[i].as_str(), k)
            invariant
                i <= self.keys@.len(),
                q == self.keys.deep_view(),
                forall|j: int| 0 <= j < i ==> text::before(#[trigger] q[j], k@),
            decreases self.keys@.len() - i,
        {
            assert(q[i as int] == self.keys@[i as int]@);
            i = i + 1;
        }
        proof {
            if i < self.keys@.len() {
                assert(!text::before(q[i as int], k@));
                assert forall|j: int| i <= j < self.keys@.len() implies !text::before(
                    #[trigger] q[j],
                    k@,
                ) by {
                    if i < j && text::before(q[j], k@) {
                        text::lemma_before_transitive(q[i as int], q[j], k@);
                    }
                }
            }
            if q.contains(k@) {
                let m = choose|m: int| 0 <= m < q.len() && q[m] == k@;
                text::lemma_before_irreflexive(k@);
                assert(i <= m);
                if i < m {
                    assert(text::before(q[i as int], q[m]));
                }
            }
            if i < self.keys@.len() && q[i as int] == k@ {
                assert(q.contains(k@));
            }
        }
        i
    }

    /// The value stored under `k`.
    pub fn get(&self, k: &str) -> (r: Option<&V>)
        ensures
            r.deep_view() == self.deep_view().get(k@),
    {
        let i: usize = self.position(k);
        proof {
            self.lemma_model();
        }
        if i < self.keys.len() && text::same(self.keys[i].as_str(), k) {
            assert(self.keys.deep_view()[i as int] == k@);
            Some(&self.vals[i])
        } else {
            None
        }
    }

    /// Whether a value is stored under `k`.
    pub fn contains_key(&self, k: &str) -> (r: bool)
        ensures
            r == self.deep_view().contains_key(k@),
    {
        let i: usize = self.position(k);
        i < self.keys.len() && text::same(self.keys[i].as_str(), k)
    }

    /// Stores `v` under `k`, in place of what was stored there.
    pub fn insert(&mut self, k: String, v: V)
        ensures
            final(self).deep_view() == old(self).deep_view().insert(k@, v.deep_view()),
    {
        let ghost before_map = self.deep_view();
        let i: usize = self.position(k.as_str());
        proof {
            self.lemma_model();
        }
        let ghost q = self.keys.deep_view();
        let ghost w = self.vals@;
        let hit: bool = i < self.keys.len() && text::same(self.keys[i].as_str(), k.as_str());
        let mut taken: TextMap<V> = TextMap::new();
        std::mem::swap(&mut taken, self);
        let mut keys: Vec<String> = taken.keys;
        let mut vals: Vec<V> = taken.vals;
        let ghost nv = v.deep_view();
        if hit {
            vals.set(i, v);
        } else {
            keys.insert(i, k);
            vals.insert(i, v);
            proof {
                let p = keys.deep_view();
                assert(p =~= q.insert(i as int, k@));
                assert forall|a: int, b: int| 0 <= a < b < p.len() implies text::before(
                    #[trigger] p[a],
                    #[trigger] p[b],
                ) by {
                    if b < i {
                        assert(p[a] == q[a] && p[b] == q[b]);
                    } else if b == i {
                        assert(p[a] == q[a]);
                    } else if a == i {
                        assert(p[b] == q[b - 1]);
                        text::lemma_before_total(q[b - 1], k@);
                        if q[b - 1] == k@ {
                            assert(q.contains(k@));
                        }
                    } else {
                        assert(p[b] == q[b - 1]);
                        if a < i {
                            assert(p[a] == q[a]);
                        } else {
                            assert(p[a] == q[a - 1]);
                        }
                    }
                }
            }
        }
        *self = TextMap { keys, vals };
        proof {
            let r = *self;
            r.lemma_model();
            let p = r.keys.deep_view();
            if hit {
                assert(p =~= q);
                assert(q.contains(k@));
            }
            assert forall|x: Text| #![auto]
                r.deep_view().contains_key(x) <==> before_map.insert(k@, nv).contains_key(x) by {
                if p.contains(x) {
                    let m = choose|m: int| 0 <= m < p.len() && p[m] == x;
                    if hit {
                        assert(q[m] == x);
                    } else if m < i {
                        assert(q[m] == x);
                    } else if m > i {
                        assert(q[m - 1] == x);
                    }
                }
                if q.contains(x) {
                    let m = choose|m: int| 0 <= m < q.len() && q[m] == x;
                    if hit {
                        assert(p[m] == x);
                    } else if m < i {
                        assert(p[m] == x);
                    } else {
                        assert(p[m + 1] == x);
                    }
                }
                if x == k@ {
                    assert(p[i as int] == k@);
                }
            }
            assert forall|x: Text| #![auto] r.deep_view().contains_key(x) implies r.deep_view()[x]
                == before_map.insert(k@, nv)[x] by {
                let m = choose|m: int| 0 <= m < p.len() && p[m] == x;
                assert(r.deep_view()[p[m]] == r.vals@[m].deep_view());
                if m == i {
                } else if hit || m < i {
                    assert(q[m] == x);
                    assert(before_map[q[m]] == w[m].deep_view());
                    if x == k@ {
                        text::lemma_increasing_distinct(p);
                    }
                } else {
                    assert(q[m - 1] == x);
                    assert(before_map[q[m - 1]] == w[m - 1].deep_view());
                    if x == k@ {
                        text::lemma_increasing_distinct(p);
                    }
                }
            }
            assert(r.deep_view() =~= before_map.insert(k@, nv));
        }
    }

    /// Takes out the entry stored under `k`.
    pub fn remove(&mut self, k: &str) -> (r: Option<V>)
        ensures
            final(self).deep_view() == old(self).deep_view().remove(k@),
            r.deep_view() == old(self).deep_view().get(k@),
    {
        let ghost before_map = self.deep_view();
        let i: usize = self.position(k);
        proof {
            self.lemma_model();
        }
        let ghost q = self.keys.deep_view();
        let ghost w = self.vals@;
        let hit: bool = i < self.keys.len() && text::same(self.keys[i].as_str(), k);
        if !hit {
            assert(before_map.remove(k@) =~= before_map);
            return None;
        }
        let mut taken: TextMap<V> = TextMap::new();
        std::mem::swap(&mut taken, self);
        let mut keys: Vec<String> = taken.keys;
        let mut vals: Vec<V> = taken.vals;
        let _ = keys.remove(i);
        let v: V = vals.remove(i);
        proof {
            let p = keys.deep_view();
            assert(p =~= q.remove(i as int));
            assert forall|a: int, b: int| 0 <= a < b < p.len() implies text::before(
                #[trigger] p[a],
                #[trigger] p[b],
            ) by {
                let x = if a < i {
                    a
                } else {
                    a + 1
                };
                let y = if b < i {
                    b
                } else {
                    b + 1
                };
                assert(p[a] == q[x] && p[b] == q[y]);
            }
        }
        *self = TextMap { keys, vals };
        proof {
            let r = *self;
            r.lemma_model();
            text::lemma_increasing_distinct(q);
            let p = r.keys.deep_view();
            assert forall|x: Text| #![auto]
                r.deep_view().contains_key(x) <==> before_map.remove(k@).contains_key(x) by {
                if p.contains(x) {
                    let m = choose|m: int| 0 <= m < p.len() && p[m] == x;
                    if m < i {
                        assert(q[m] == x);
                    } else {
                        assert(q[m + 1] == x);
                    }
                }
                if q.contains(x) && x != k@ {
                    let m = choose|m: int| 0 <= m < q.len() && q[m] == x;
                    if m < i {
                        assert(p[m] == x);
                    } else {
                        assert(p[m - 1] == x);
                    }
                }
            }
            assert forall|x: Text| #![auto] r.deep_view().contains_key(x) implies r.deep_view()[x]
                == before_map.remove(k@)[x] by {
                let m = choose|m: int| 0 <= m < p.len() && p[m] == x;
                assert(r.deep_view()[p[m]] == r.vals@[m].deep_view());
                let n = if m < i {
                    m
                } else {
                    m + 1
                };
                assert(q[n] == x);
                assert(before_map[q[n]] == w[n].deep_view());
            }
            assert(r.deep_view() =~= before_map.remove(k@));
            assert(before_map[q[i as int]] == w[i as int].deep_view());
            assert(q.contains(q[i as int]));
        }
        Some(v)
    }

    /// The keys in increasing order.
    pub fn keys(&self) -> (r: Vec<String>)
        ensures
            r.deep_view() == keys_of(self.deep_view()),
            self.deep_view().dom().finite(),
    {
        proof {
            use_type_invariant(self);
            self.lemma_model();
        }
        let mut out: Vec<String> = Vec::new();
        for i in 0..self.keys.len()
            invariant
                out.deep_view() == self.keys.deep_view().take(i as int),
        {
            let ghost done = out.deep_view();
            out.push(self.keys[i].clone());
            assert(out.deep_view() =~= done.push(self.keys.deep_view()[i as int]));
            assert(self.keys.deep_view().take(i + 1) =~= done.push(self.keys.deep_view()[i as int]));
        }
        assert(self.keys.deep_view().take(self.keys@.len() as int) =~= self.keys.deep_view());
        out
    }
}

impl<V: DeepView> Default for TextMap<V> {
    fn default() -> (r: Self)
        ensures
            r.deep_view() == Map::<Text, V::V>::empty(),
    {
        TextMap::new()
    }
}

} // verus!
