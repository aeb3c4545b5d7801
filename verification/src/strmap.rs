//! A small map keyed by strings, kept as a vector of `(key, value)` pairs
//! with no key twice, so that its entries can be walked (a hash map's walk
//! order is unspecified anyway; this one walks in insertion order).

use vstd::prelude::*;

use crate::text::str_eq;

verus! {

/// No key occurs twice in `s`.
pub open spec fn keys_unique<V>(s: Seq<(String, V)>) -> bool {
    forall|i: int, j: int|
        0 <= i < s.len() && 0 <= j < s.len() && i != j ==> (#[trigger] s[i]).0@ != (#[trigger] s[j]).0@
}

/// Some entry of `s` has key `k`.
pub open spec fn has_key<V>(s: Seq<(String, V)>, k: Seq<char>) -> bool {
    exists|i: int| 0 <= i < s.len() && (#[trigger] s[i]).0@ == k
}

/// An index of `s` whose key is `k` (the only one when keys are unique).
pub open spec fn key_index<V>(s: Seq<(String, V)>, k: Seq<char>) -> int {
    choose|i: int| 0 <= i < s.len() && (#[trigger] s[i]).0@ == k
}

/// The map the pairs of `s` describe.
pub open spec fn pairs_map<V>(s: Seq<(String, V)>) -> Map<Seq<char>, V> {
    Map::new(|k: Seq<char>| has_key(s, k), |k: Seq<char>| s[key_index(s, k)].1)
}

/// With unique keys, entry `i` is what the map holds for its key.
pub proof fn lemma_pairs_map_at<V>(s: Seq<(String, V)>, i: int)
    requires
        keys_unique(s),
        0 <= i < s.len(),
    ensures
        pairs_map(s).contains_key(s[i].0@),
        pairs_map(s)[s[i].0@] == s[i].1,
        key_index(s, s[i].0@) == i,
{
    let k = s[i].0@;
    assert(has_key(s, k));
    let c = key_index(s, k);
    if c != i {
        assert(s[c].0@ != s[i].0@);
    }
}

/// A string-keyed map with unique keys.
pub struct StrMap<V> {
    entries: Vec<(String, V)>,
}

impl<V> View for StrMap<V> {
    type V = Map<Seq<char>, V>;

    closed spec fn view(&self) -> Map<Seq<char>, V> {
        pairs_map(self.entries@)
    }
}

impl<V> StrMap<V> {
    /// Every key is stored once.
    pub closed spec fn wf(&self) -> bool {
        keys_unique(self.entries@)
    }

    /// The entries in walk order.
    pub closed spec fn pairs(&self) -> Seq<(String, V)> {
        self.entries@
    }

    /// The walk visits each key of the map once, with its value.
    pub proof fn lemma_pairs(&self)
        requires
            self.wf(),
        ensures
            keys_unique(self.pairs()),
            forall|k: Seq<char>| #[trigger] self@.contains_key(k) <==> has_key(self.pairs(), k),
            forall|i: int|
                0 <= i < self.pairs().len() ==> #[trigger] self@[self.pairs()[i].0@] == self.pairs()[i].1,
    {
        assert forall|i: int| 0 <= i < self.pairs().len() implies #[trigger] self@[self.pairs()[i].0@]
            == self.pairs()[i].1 by {
            lemma_pairs_map_at(self.entries@, i);
        }
    }

    pub fn new() -> (r: Self)
        ensures
            r.wf(),
            r@ == Map::<Seq<char>, V>::empty(),
            r.pairs().len() == 0,
    {
        let r = StrMap { entries: Vec::new() };
        proof {
            assert(r@ =~= Map::<Seq<char>, V>::empty());
        }
        r
    }

    fn find(&self, k: &str) -> (r: Option<usize>)
        requires
            self.wf(),
        ensures
            r matches Some(i) ==> i < self.entries@.len() && self.entries@[i as int].0@ == k@,
            r is None ==> !has_key(self.entries@, k@),
    {
        let mut i: usize = 0;
        while i < self.entries.len()
            invariant
                i <= self.entries@.len(),
                forall|j: int| 0 <= j < i ==> (#[trigger] self.entries@[j]).0@ != k@,
            decreases self.entries@.len() - i,
        {
            if str_eq(self.entries[i].0.as_str(), k) {
                return Some(i);
            }
            i = i + 1;
        }
        None
    }

    /// Number of keys.
    pub fn len(&self) -> (r: usize)
        requires
            self.wf(),
        ensures
            r == self.pairs().len(),
    {
        self.entries.len()
    }

    /// Whether `k` is a key.
    pub fn contains_key(&self, k: &str) -> (r: bool)
        requires
            self.wf(),
        ensures
            r == self@.contains_key(k@),
    {
        self.find(k).is_some()
    }

    /// The value stored for `k`.
    pub fn get(&self, k: &str) -> (r: Option<&V>)
        requires
            self.wf(),
        ensures
            r matches Some(v) ==> self@.contains_key(k@) && *v == self@[k@],
            r is None ==> !self@.contains_key(k@),
    {
        match self.find(k) {
            Some(i) => {
                proof {
                    lemma_pairs_map_at(self.entries@, i as int);
                }
                Some(&self.entries[i].1)
            },
            None => None,
        }
    }

    /// Stores `v` under `k`, replacing any value stored before.
    pub fn insert(&mut self, k: String, v: V)
        requires
            old(self).wf(),
        ensures
            final(self).wf(),
            final(self)@ == old(self)@.insert(k@, v),
    {
        let ghost s0 = self.entries@;
        let ghost kk = k@;
        match self.find(k.as_str()) {
            Some(i) => {
                self.entries.set(i, (k, v));
                proof {
                    let s1 = self.entries@;
                    assert(keys_unique(s1)) by {
                        assert forall|a: int, b: int|
                            0 <= a < s1.len() && 0 <= b < s1.len() && a != b implies (#[trigger] s1[a]).0@
                            != (#[trigger] s1[b]).0@ by {
                            assert(s0[a].0@ != s0[b].0@);
                        }
                    }
                    assert forall|key: Seq<char>| #[trigger] has_key(s1, key) <==> (has_key(s0, key) || key == kk) by {
                        if has_key(s0, key) {
                            let j = choose|j: int| 0 <= j < s0.len() && (#[trigger] s0[j]).0@ == key;
                            assert(s1[j].0@ == key);
                        }
                        if key == kk {
                            assert(s1[i as int].0@ == key);
                        }
                        if has_key(s1, key) {
                            let j = choose|j: int| 0 <= j < s1.len() && (#[trigger] s1[j]).0@ == key;
                            if j != i {
                                assert(s0[j].0@ == key);
                            }
                        }
                    }
                    assert forall|key: Seq<char>| has_key(s1, key) implies #[trigger] pairs_map(s1)[key] == pairs_map(s0).insert(kk, v)[key] by {
                        let j = choose|j: int| 0 <= j < s1.len() && (#[trigger] s1[j]).0@ == key;
                        lemma_pairs_map_at(s1, j);
                        if j != i {
                            lemma_pairs_map_at(s0, j);
                        }
                    }
                    assert(pairs_map(s1) =~= pairs_map(s0).insert(kk, v));
                }
            },
            None => {
                self.entries.push((k, v));
                proof {
                    let s1 = self.entries@;
                    assert(keys_unique(s1)) by {
                        assert forall|a: int, b: int|
                            0 <= a < s1.len() && 0 <= b < s1.len() && a != b implies (#[trigger] s1[a]).0@
                            != (#[trigger] s1[b]).0@ by {
                            if a < s0.len() && b < s0.len() {
                                assert(s0[a].0@ != s0[b].0@);
                            } else if a < s0.len() {
                                assert(s1[a] == s0[a]);
                            } else {
                                assert(s1[b] == s0[b]);
                            }
                        }
                    }
                    assert forall|key: Seq<char>| #[trigger] has_key(s1, key) <==> (has_key(s0, key) || key == kk) by {
                        if has_key(s0, key) {
                            let j = choose|j: int| 0 <= j < s0.len() && (#[trigger] s0[j]).0@ == key;
                            assert(s1[j] == s0[j]);
                        }
                        if key == kk {
                            assert(s1[s0.len() as int].0@ == key);
                        }
                        if has_key(s1, key) {
                            let j = choose|j: int| 0 <= j < s1.len() && (#[trigger] s1[j]).0@ == key;
                            if j < s0.len() {
                                assert(s1[j] == s0[j]);
                            }
                        }
                    }
                    assert forall|key: Seq<char>| has_key(s1, key) implies #[trigger] pairs_map(s1)[key] == pairs_map(s0).insert(kk, v)[key] by {
                        let j = choose|j: int| 0 <= j < s1.len() && (#[trigger] s1[j]).0@ == key;
                        lemma_pairs_map_at(s1, j);
                        if j < s0.len() {
                            assert(s1[j] == s0[j]);
                            lemma_pairs_map_at(s0, j);
                        }
                    }
                    assert(pairs_map(s1) =~= pairs_map(s0).insert(kk, v));
                }
            },
        }
    }

    /// Removes `k`, returning its value when it was a key.
    pub fn remove(&mut self, k: &str) -> (r: Option<V>)
        requires
            old(self).wf(),
        ensures
            final(self).wf(),
            final(self)@ == old(self)@.remove(k@),
            r matches Some(v) ==> old(self)@.contains_key(k@) && v == old(self)@[k@],
            r is None ==> !old(self)@.contains_key(k@),
    {
        let ghost s0 = self.entries@;
        match self.find(k) {
            Some(i) => {
                proof {
                    lemma_pairs_map_at(s0, i as int);
                }
                let (_key, v) = self.entries.remove(i);
                proof {
                    let s1 = self.entries@;
                    assert forall|j: int| 0 <= j < s1.len() implies #[trigger] s1[j] == s0[if j < i { j } else { j + 1 }] by {}
                    assert(keys_unique(s1)) by {
                        assert forall|a: int, b: int|
                            0 <= a < s1.len() && 0 <= b < s1.len() && a != b implies (#[trigger] s1[a]).0@
                            != (#[trigger] s1[b]).0@ by {
                            let a0: int = if a < i { a } else { a + 1 };
                            let b0: int = if b < i { b } else { b + 1 };
                            assert(s1[a] == s0[a0]);
                            assert(s1[b] == s0[b0]);
                            assert(s0[a0].0@ != s0[b0].0@);
                        }
                    }
                    assert forall|key: Seq<char>| #[trigger] has_key(s1, key) <==> (has_key(s0, key) && key != k@) by {
                        if has_key(s0, key) && key != k@ {
                            let j = choose|j: int| 0 <= j < s0.len() && (#[trigger] s0[j]).0@ == key;
                            assert(j != i);
                            let j1: int = if j < i { j } else { j - 1 };
                            assert(s1[j1] == s0[j]);
                        }
                        if has_key(s1, key) {
                            let j = choose|j: int| 0 <= j < s1.len() && (#[trigger] s1[j]).0@ == key;
                            let j0: int = if j < i { j } else { j + 1 };
                            assert(s1[j] == s0[j0]);
                            assert(j0 != i);
                            assert(s0[j0].0@ != s0[i as int].0@);
                        }
                    }
                    assert forall|key: Seq<char>| has_key(s1, key) implies #[trigger] pairs_map(s1)[key] == pairs_map(s0).remove(k@)[key] by {
                        let j = choose|j: int| 0 <= j < s1.len() && (#[trigger] s1[j]).0@ == key;
                        let j0: int = if j < i { j } else { j + 1 };
                        assert(s1[j] == s0[j0]);
                        lemma_pairs_map_at(s1, j);
                        lemma_pairs_map_at(s0, j0);
                    }
                    assert(pairs_map(s1) =~= pairs_map(s0).remove(k@));
                }
                Some(v)
            },
            None => {
                proof {
                    assert(pairs_map(s0) =~= pairs_map(s0).remove(k@));
                }
                None
            },
        }
    }

    /// Removes every key.
    pub fn clear(&mut self)
        ensures
            final(self).wf(),
            final(self)@ == Map::<Seq<char>, V>::empty(),
    {
        self.entries.clear();
        proof {
            assert(self@ =~= Map::<Seq<char>, V>::empty());
        }
    }

    /// The entries in walk order.
    pub fn as_pairs(&self) -> (r: &[(String, V)])
        ensures
            r@ == self.pairs(),
    {
        self.entries.as_slice()
    }
}

/// First-in first-out queues keyed by a pair of strings.
pub struct PairFifo<V> {
    by_first: StrMap<StrMap<Vec<V>>>,
}

impl<V> PairFifo<V> {
    /// Every level holds each key once.
    pub closed spec fn wf(&self) -> bool {
        &&& self.by_first.wf()
        &&& forall|k: Seq<char>| #[trigger] self.by_first@.contains_key(k) ==> self.by_first@[k].wf()
    }

    /// The queue under `(a, b)`, oldest first (empty when there is none).
    pub closed spec fn queue(&self, a: Seq<char>, b: Seq<char>) -> Seq<V> {
        if self.by_first@.contains_key(a) && self.by_first@[a]@.contains_key(b) {
            self.by_first@[a]@[b]@
        } else {
            Seq::empty()
        }
    }

    pub fn new() -> (r: Self)
        ensures
            r.wf(),
            forall|a: Seq<char>, b: Seq<char>| #[trigger] r.queue(a, b) == Seq::<V>::empty(),
    {
        PairFifo { by_first: StrMap::new() }
    }

    /// Appends `v` to the queue under `(a, b)`.
    pub fn push(&mut self, a: &str, b: &str, v: V)
        requires
            old(self).wf(),
        ensures
            final(self).wf(),
            final(self).queue(a@, b@) == old(self).queue(a@, b@).push(v),
            forall|x: Seq<char>, y: Seq<char>| (x, y) != (a@, b@) ==> #[trigger] final(self).queue(x, y) == old(self).queue(x, y),
    {
        let mut inner = match self.by_first.remove(a) {
            Some(m) => m,
            None => StrMap::new(),
        };
        let mut q = match inner.remove(b) {
            Some(q) => q,
            None => Vec::new(),
        };
        q.push(v);
        inner.insert(crate::text::to_owned_string(b), q);
        self.by_first.insert(crate::text::to_owned_string(a), inner);
        proof {
            assert forall|k: Seq<char>| #[trigger] self.by_first@.contains_key(k) implies self.by_first@[k].wf() by {
                if k != a@ {
                    assert(old(self).by_first@.contains_key(k));
                }
            }
        }
    }

    /// Takes the oldest entry under `(a, b)`, if any.
    pub fn pop_front(&mut self, a: &str, b: &str) -> (r: Option<V>)
        requires
            old(self).wf(),
        ensures
            final(self).wf(),
            old(self).queue(a@, b@).len() > 0 ==> r == Some(old(self).queue(a@, b@)[0])
                && final(self).queue(a@, b@) == old(self).queue(a@, b@).skip(1),
            old(self).queue(a@, b@).len() == 0 ==> r is None && final(self).queue(a@, b@) == old(self).queue(a@, b@),
            forall|x: Seq<char>, y: Seq<char>| (x, y) != (a@, b@) ==> #[trigger] final(self).queue(x, y) == old(self).queue(x, y),
    {
        let waiting = match self.by_first.get(a) {
            Some(m) => match m.get(b) {
                Some(q) => q.len() > 0,
                None => false,
            },
            None => false,
        };
        if !waiting {
            return None;
        }
        let mut inner = self.by_first.remove(a).unwrap();
        let mut q = inner.remove(b).unwrap();
        let v = q.remove(0);
        if q.len() > 0 {
            inner.insert(crate::text::to_owned_string(b), q);
        }
        self.by_first.insert(crate::text::to_owned_string(a), inner);
        proof {
            assert forall|k: Seq<char>| #[trigger] self.by_first@.contains_key(k) implies self.by_first@[k].wf() by {
                if k != a@ {
                    assert(old(self).by_first@.contains_key(k));
                }
            }
            assert(self.queue(a@, b@) =~= old(self).queue(a@, b@).skip(1));
        }
        Some(v)
    }
}

} // verus!
