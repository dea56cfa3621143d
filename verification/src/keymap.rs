//! An association from identity keys to values.
//!
//! Every registry the engine keeps — type dependencies, callback overrides,
//! cached descriptor lists, cached results, context-local overrides — is a
//! mapping keyed by a host identity hash.  `KeyMap` provides that mapping as
//! a verified container whose abstract value is a `Map<i64, V>`.

use vstd::prelude::*;

verus! {

pub struct KeyMap<V> {
    entries: Vec<(i64, V)>,
}

impl<V> View for KeyMap<V> {
    type V = Map<i64, V>;

    closed spec fn view(&self) -> Map<i64, V> {
        Map::new(
            |k: i64|
                exists|i: int|
                    0 <= i < self.entries@.len() && (#[trigger] self.entries@[i]).0 == k,
            |k: i64|
                {
                    let i = choose|i: int|
                        0 <= i < self.entries@.len() && (#[trigger] self.entries@[i]).0 == k;
                    self.entries@[i].1
                },
        )
    }
}

impl<V> KeyMap<V> {
    /// No two entries share a key, so each key picks out one value.
    #[verifier::type_invariant]
    spec fn wf(self) -> bool {
        forall|i: int, j: int|
            0 <= i < j < self.entries@.len() ==> (#[trigger] self.entries@[i]).0 != (
            #[trigger] self.entries@[j]).0
    }

    /// The entry at a position is what the whole map holds for its key.
    proof fn lemma_at(self, i: int)
        requires
            self.wf(),
            0 <= i < self.entries@.len(),
        ensures
            self@.contains_key(self.entries@[i].0),
            self@[self.entries@[i].0] == self.entries@[i].1,
    {
        let k = self.entries@[i].0;
        assert(exists|j: int|
            0 <= j < self.entries@.len() && (#[trigger] self.entries@[j]).0 == k);
    }

    /// A map whose entries all agree with `m`, and that reaches every key of
    /// `m`, has `m` as its abstract value.
    proof fn lemma_view_is(self, m: Map<i64, V>)
        requires
            self.wf(),
            forall|i: int|
                0 <= i < self.entries@.len() ==> m.contains_key(
                    (#[trigger] self.entries@[i]).0,
                ) && m[self.entries@[i].0] == self.entries@[i].1,
            forall|k: i64| #[trigger]
                m.contains_key(k) ==> exists|i: int|
                    0 <= i < self.entries@.len() && (#[trigger] self.entries@[i]).0 == k,
        ensures
            self@ == m,
    {
        assert forall|k: i64| self@.contains_key(k) == m.contains_key(k) && (
        self@.contains_key(k) ==> self@[k] == m[k]) by {
            if self@.contains_key(k) {
                let i = choose|i: int|
                    0 <= i < self.entries@.len() && (#[trigger] self.entries@[i]).0 == k;
                self.lemma_at(i);
            }
        }
        assert(self@ =~= m);
    }

    pub fn new() -> (r: Self)
        ensures
            r@ == Map::<i64, V>::empty(),
    {
        let r = KeyMap { entries: Vec::new() };
        proof {
            assert(r@ =~= Map::<i64, V>::empty());
        }
        r
    }

    /// The position of the entry carrying `key`, if any.
    fn find(&self, key: i64) -> (r: Option<usize>)
        ensures
            match r {
                Some(i) => i < self.entries@.len() && self.entries@[i as int].0 == key,
                None => forall|j: int|
                    0 <= j < self.entries@.len() ==> (#[trigger] self.entries@[j]).0 != key,
            },
    {
        let n = self.entries.len();
        let mut i: usize = 0;
        while i < n
            invariant
                n == self.entries@.len(),
                i <= n,
                forall|j: int| 0 <= j < i ==> (#[trigger] self.entries@[j]).0 != key,
            decreases n - i,
        {
            if self.entries[i].0 == key {
                return Some(i);
            }
            i += 1;
        }
        None
    }

    pub fn contains_key(&self, key: i64) -> (r: bool)
        ensures
            r == self@.contains_key(key),
    {
        proof {
            use_type_invariant(&*self);
        }
        match self.find(key) {
            Some(i) => {
                proof {
                    self.lemma_at(i as int);
                }
                true
            },
            None => false,
        }
    }

    pub fn get(&self, key: i64) -> (r: Option<&V>)
        ensures
            match r {
                Some(v) => self@.contains_key(key) && *v == self@[key],
                None => !self@.contains_key(key),
            },
    {
        proof {
            use_type_invariant(&*self);
        }
        match self.find(key) {
            Some(i) => {
                proof {
                    self.lemma_at(i as int);
                }
                Some(&self.entries[i].1)
            },
            None => None,
        }
    }

    pub fn insert(&mut self, key: i64, value: V)
        ensures
            final(self)@ == old(self)@.insert(key, value),
    {
        proof {
            use_type_invariant(&*self);
        }
        let found = self.find(key);
        let mut entries: Vec<(i64, V)> = Vec::new();
        std::mem::swap(&mut entries, &mut self.entries);
        let ghost m = old(self)@.insert(key, value);
        match found {
            Some(i) => {
                proof {
                    old(self).lemma_at(i as int);
                }
                entries.set(i, (key, value));
                proof {
                    assert forall|a: int, b: int|
                        0 <= a < b < entries@.len() implies (#[trigger] entries@[a]).0 != (
                    #[trigger] entries@[b]).0 by {
                        assert(old(self).entries@[a].0 != old(self).entries@[b].0);
                    }
                }
                self.entries = entries;
                proof {
                    assert forall|p: int|
                        0 <= p < self.entries@.len() implies m.contains_key(
                        (#[trigger] self.entries@[p]).0,
                    ) && m[self.entries@[p].0] == self.entries@[p].1 by {
                        if p != i {
                            old(self).lemma_at(p);
                            assert(old(self).entries@[p].0 != key);
                        }
                    }
                    assert forall|k: i64| #[trigger] m.contains_key(k) implies exists|p: int|
                        0 <= p < self.entries@.len() && (#[trigger] self.entries@[p]).0
                            == k by {
                        if k == key {
                            assert(self.entries@[i as int].0 == k);
                        } else {
                            let j = choose|j: int|
                                0 <= j < old(self).entries@.len() && (
                                #[trigger] old(self).entries@[j]).0 == k;
                            assert(self.entries@[j].0 == k);
                        }
                    }
                    self.lemma_view_is(m);
                }
            },
            None => {
                let ghost n = entries@.len();
                entries.push((key, value));
                self.entries = entries;
                proof {
                    assert forall|p: int|
                        0 <= p < self.entries@.len() implies m.contains_key(
                        (#[trigger] self.entries@[p]).0,
                    ) && m[self.entries@[p].0] == self.entries@[p].1 by {
                        if p < n {
                            old(self).lemma_at(p);
                        }
                    }
                    assert forall|k: i64| #[trigger] m.contains_key(k) implies exists|p: int|
                        0 <= p < self.entries@.len() && (#[trigger] self.entries@[p]).0
                            == k by {
                        if k == key {
                            assert(self.entries@[n as int].0 == k);
                        } else {
                            let j = choose|j: int|
                                0 <= j < old(self).entries@.len() && (
                                #[trigger] old(self).entries@[j]).0 == k;
                            assert(self.entries@[j].0 == k);
                        }
                    }
                    self.lemma_view_is(m);
                }
            },
        }
    }

    pub fn remove(&mut self, key: i64) -> (r: Option<V>)
        ensures
            match r {
                Some(v) => old(self)@.contains_key(key) && v == old(self)@[key] && final(self)@
                    == old(self)@.remove(key),
                None => !old(self)@.contains_key(key) && *final(self) == *old(self),
            },
    {
        proof {
            use_type_invariant(&*self);
        }
        let found = self.find(key);
        match found {
            Some(i) => {
                proof {
                    old(self).lemma_at(i as int);
                }
                let mut entries: Vec<(i64, V)> = Vec::new();
                std::mem::swap(&mut entries, &mut self.entries);
                let pair = entries.remove(i);
                let ghost m = old(self)@.remove(key);
                proof {
                    assert forall|a: int, b: int|
                        0 <= a < b < entries@.len() implies (#[trigger] entries@[a]).0 != (
                    #[trigger] entries@[b]).0 by {
                        let oa = if a < i as int {
                            a
                        } else {
                            a + 1
                        };
                        let ob = if b < i as int {
                            b
                        } else {
                            b + 1
                        };
                        assert(entries@[a] == old(self).entries@[oa]);
                        assert(entries@[b] == old(self).entries@[ob]);
                    }
                }
                self.entries = entries;
                proof {
                    assert forall|p: int|
                        0 <= p < self.entries@.len() implies m.contains_key(
                        (#[trigger] self.entries@[p]).0,
                    ) && m[self.entries@[p].0] == self.entries@[p].1 by {
                        let op = if p < i as int {
                            p
                        } else {
                            p + 1
                        };
                        assert(self.entries@[p] == old(self).entries@[op]);
                        old(self).lemma_at(op);
                        assert(old(self).entries@[op].0 != key);
                    }
                    assert forall|k: i64| #[trigger] m.contains_key(k) implies exists|p: int|
                        0 <= p < self.entries@.len() && (#[trigger] self.entries@[p]).0
                            == k by {
                        let j = choose|j: int|
                            0 <= j < old(self).entries@.len() && (
                            #[trigger] old(self).entries@[j]).0 == k;
                        let nj = if j < i as int {
                            j
                        } else {
                            j - 1
                        };
                        assert(self.entries@[nj] == old(self).entries@[j]);
                    }
                    self.lemma_view_is(m);
                }
                Some(pair.1)
            },
            None => {
                proof {
                    if old(self)@.contains_key(key) {
                        let j = choose|j: int|
                            0 <= j < old(self).entries@.len() && (
                            #[trigger] old(self).entries@[j]).0 == key;
                        assert(false);
                    }
                }
                None
            },
        }
    }
}

} // verus!
