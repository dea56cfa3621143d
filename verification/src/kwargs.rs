//! The keyword-argument set a call is invoked with.
//!
//! Dispatch merges resolved descriptor values into the caller-supplied
//! keyword arguments.  Caller-supplied entries win: a resolved value only
//! fills a gap, never replaces what the caller passed.  The abstract value
//! is a `Map<Seq<char>, Value>`.

use vstd::prelude::*;

use crate::values::Value;

verus! {

pub struct Kwargs {
    entries: Vec<(String, Value)>,
}

impl View for Kwargs {
    type V = Map<Seq<char>, Value>;

    closed spec fn view(&self) -> Map<Seq<char>, Value> {
        Map::new(
            |k: Seq<char>|
                exists|i: int|
                    0 <= i < self.entries@.len() && (#[trigger] self.entries@[i]).0@ == k,
            |k: Seq<char>|
                {
                    let i = choose|i: int|
                        0 <= i < self.entries@.len() && (#[trigger] self.entries@[i]).0@ == k;
                    self.entries@[i].1
                },
        )
    }
}

impl Kwargs {
    /// No two entries share a name, so each name picks out one value.
    #[verifier::type_invariant]
    spec fn wf(self) -> bool {
        forall|i: int, j: int|
            0 <= i < j < self.entries@.len() ==> (#[trigger] self.entries@[i]).0@ != (
            #[trigger] self.entries@[j]).0@
    }

    /// The entry at a position is what the whole set holds for its name.
    proof fn lemma_at(self, i: int)
        requires
            self.wf(),
            0 <= i < self.entries@.len(),
        ensures
            self@.contains_key(self.entries@[i].0@),
            self@[self.entries@[i].0@] == self.entries@[i].1,
    {
        let k = self.entries@[i].0@;
        assert(exists|j: int|
            0 <= j < self.entries@.len() && (#[trigger] self.entries@[j]).0@ == k);
    }

    /// A set whose entries all agree with `m`, and that reaches every name
    /// of `m`, has `m` as its abstract value.
    proof fn lemma_view_is(self, m: Map<Seq<char>, Value>)
        requires
            self.wf(),
            forall|i: int|
                0 <= i < self.entries@.len() ==> m.contains_key(
                    (#[trigger] self.entries@[i]).0@,
                ) && m[self.entries@[i].0@] == self.entries@[i].1,
            forall|k: Seq<char>| #[trigger]
                m.contains_key(k) ==> exists|i: int|
                    0 <= i < self.entries@.len() && (#[trigger] self.entries@[i]).0@ == k,
        ensures
            self@ == m,
    {
        assert forall|k: Seq<char>| self@.contains_key(k) == m.contains_key(k) && (
        self@.contains_key(k) ==> self@[k] == m[k]) by {
            if self@.contains_key(k) {
                let i = choose|i: int|
                    0 <= i < self.entries@.len() && (#[trigger] self.entries@[i]).0@ == k;
                self.lemma_at(i);
            }
        }
        assert(self@ =~= m);
    }

    pub fn new() -> (r: Self)
        ensures
            r@ == Map::<Seq<char>, Value>::empty(),
    {
        let r = Kwargs { entries: Vec::new() };
        proof {
            assert(r@ =~= Map::<Seq<char>, Value>::empty());
        }
        r
    }

    /// The position of the entry carrying `name`, if any.
    fn find(&self, name: &String) -> (r: Option<usize>)
        ensures
            match r {
                Some(i) => i < self.entries@.len() && self.entries@[i as int].0@ == name@,
                None => forall|j: int|
                    0 <= j < self.entries@.len() ==> (#[trigger] self.entries@[j]).0@ != name@,
            },
    {
        let n = self.entries.len();
        let mut i: usize = 0;
        while i < n
            invariant
                n == self.entries@.len(),
                i <= n,
                forall|j: int| 0 <= j < i ==> (#[trigger] self.entries@[j]).0@ != name@,
            decreases n - i,
        {
            if self.entries[i].0 == *name {
                return Some(i);
            }
            i += 1;
        }
        None
    }

    pub fn contains_key(&self, name: &String) -> (r: bool)
        ensures
            r == self@.contains_key(name@),
    {
        proof {
            use_type_invariant(&*self);
        }
        match self.find(name) {
            Some(i) => {
                proof {
                    self.lemma_at(i as int);
                }
                true
            },
            None => {
                proof {
                    if self@.contains_key(name@) {
                        let j = choose|j: int|
                            0 <= j < self.entries@.len() && (#[trigger] self.entries@[j]).0@
                                == name@;
                        assert(false);
                    }
                }
                false
            },
        }
    }

    pub fn get(&self, name: &String) -> (r: Option<Value>)
        ensures
            r == if self@.contains_key(name@) {
                Some(self@[name@])
            } else {
                None::<Value>
            },
    {
        proof {
            use_type_invariant(&*self);
        }
        match self.find(name) {
            Some(i) => {
                proof {
                    self.lemma_at(i as int);
                }
                Some(self.entries[i].1)
            },
            None => {
                proof {
                    if self@.contains_key(name@) {
                        let j = choose|j: int|
                            0 <= j < self.entries@.len() && (#[trigger] self.entries@[j]).0@
                                == name@;
                        assert(false);
                    }
                }
                None
            },
        }
    }

    /// Sets an entry, replacing any present one: how the caller's own
    /// keyword arguments are assembled.
    pub fn insert(&mut self, name: String, value: Value)
        ensures
            final(self)@ == old(self)@.insert(name@, value),
    {
        proof {
            use_type_invariant(&*self);
        }
        let found = self.find(&name);
        let mut entries: Vec<(String, Value)> = Vec::new();
        std::mem::swap(&mut entries, &mut self.entries);
        let ghost m = old(self)@.insert(name@, value);
        match found {
            Some(i) => {
                proof {
                    old(self).lemma_at(i as int);
                }
                entries.set(i, (name, value));
                proof {
                    assert forall|a: int, b: int|
                        0 <= a < b < entries@.len() implies (#[trigger] entries@[a]).0@ != (
                    #[trigger] entries@[b]).0@ by {
                        assert(old(self).entries@[a].0@ != old(self).entries@[b].0@);
                    }
                }
                self.entries = entries;
                proof {
                    assert forall|p: int|
                        0 <= p < self.entries@.len() implies m.contains_key(
                        (#[trigger] self.entries@[p]).0@,
                    ) && m[self.entries@[p].0@] == self.entries@[p].1 by {
                        if p != i {
                            old(self).lemma_at(p);
                            assert(old(self).entries@[p].0@ != old(self).entries@[i as int].0@);
                        }
                    }
                    assert forall|k: Seq<char>| #[trigger] m.contains_key(k) implies exists|p: int|
                        0 <= p < self.entries@.len() && (#[trigger] self.entries@[p]).0@
                            == k by {
                        if k == old(self).entries@[i as int].0@ {
                            assert(self.entries@[i as int].0@ == k);
                        } else {
                            let j = choose|j: int|
                                0 <= j < old(self).entries@.len() && (
                                #[trigger] old(self).entries@[j]).0@ == k;
                            assert(self.entries@[j].0@ == k);
                        }
                    }
                    self.lemma_view_is(m);
                }
            },
            None => {
                let ghost n = entries@.len();
                entries.push((name, value));
                self.entries = entries;
                proof {
                    assert forall|p: int|
                        0 <= p < self.entries@.len() implies m.contains_key(
                        (#[trigger] self.entries@[p]).0@,
                    ) && m[self.entries@[p].0@] == self.entries@[p].1 by {
                        if p < n {
                            old(self).lemma_at(p);
                        }
                    }
                    assert forall|k: Seq<char>| #[trigger] m.contains_key(k) implies exists|p: int|
                        0 <= p < self.entries@.len() && (#[trigger] self.entries@[p]).0@
                            == k by {
                        if k == self.entries@[n as int].0@ {
                            assert(self.entries@[n as int].0@ == k);
                        } else {
                            let j = choose|j: int|
                                0 <= j < old(self).entries@.len() && (
                                #[trigger] old(self).entries@[j]).0@ == k;
                            assert(self.entries@[j].0@ == k);
                        }
                    }
                    self.lemma_view_is(m);
                }
            },
        }
    }

    /// Fills a gap: a resolved value is added only where the caller did not
    /// already supply that keyword.
    pub fn insert_if_absent(&mut self, name: String, value: Value)
        ensures
            final(self)@ == if old(self)@.contains_key(name@) {
                old(self)@
            } else {
                old(self)@.insert(name@, value)
            },
    {
        if !self.contains_key(&name) {
            self.insert(name, value);
        }
    }
}

} // verus!
