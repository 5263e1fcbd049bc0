//! A string-keyed map held as a list of entries, the library's model of the
//! tables the language keeps by name (keyed by text, each key once).
use vstd::prelude::*;
use crate::text::str_eq;

verus! {

/// A finite map from names to values; each name occurs once.
#[derive(Debug)]
pub struct Dict<V> {
    pub entries: Vec<(String, V)>,
}

impl<V> Dict<V> {
    /// Each key occurs at most once.
    pub open spec fn wf(&self) -> bool {
        forall|i: int, j: int|
            0 <= i < self.entries@.len() && 0 <= j < self.entries@.len() && i != j
                ==> (#[trigger] self.entries@[i]).0@ != (#[trigger] self.entries@[j]).0@
    }

    /// Whether `k` is a key.
    pub open spec fn has(&self, k: Seq<char>) -> bool {
        exists|i: int| 0 <= i < self.entries@.len() && (#[trigger] self.entries@[i]).0@ == k
    }

    /// The index of key `k` (meaningful when `has(k)`).
    pub open spec fn index_of(&self, k: Seq<char>) -> int {
        choose|i: int| 0 <= i < self.entries@.len() && (#[trigger] self.entries@[i]).0@ == k
    }

    /// The value stored under `k` (meaningful when `has(k)`).
    pub open spec fn get_spec(&self, k: Seq<char>) -> V {
        self.entries@[self.index_of(k)].1
    }

    /// The map this dictionary stands for.
    pub open spec fn as_map(&self) -> Map<Seq<char>, V> {
        Map::new(|k: Seq<char>| self.has(k), |k: Seq<char>| self.get_spec(k))
    }

    /// An empty dictionary.
    pub fn new() -> (d: Self)
        ensures
            d.wf(),
            d.entries@.len() == 0,
            d.as_map() =~= Map::empty(),
    {
        Dict { entries: Vec::new() }
    }

    /// The number of entries.
    pub fn len(&self) -> (n: usize)
        ensures
            n == self.entries@.len(),
    {
        self.entries.len()
    }

    /// The position of `k` among the entries.
    pub fn find(&self, k: &str) -> (r: Option<usize>)
        requires
            self.wf(),
        ensures
            r is None <==> !self.has(k@),
            r matches Some(i) ==> i < self.entries@.len() && self.entries@[i as int].0@ == k@
                && self.index_of(k@) == i,
    {
        let mut i: usize = 0;
        while i < self.entries.len()
            invariant
                self.wf(),
                i <= self.entries@.len(),
                forall|j: int| 0 <= j < i ==> (#[trigger] self.entries@[j]).0@ != k@,
            decreases self.entries@.len() - i,
        {
            if str_eq(self.entries[i].0.as_str(), k) {
                proof {
                    let w = self.index_of(k@);
                    assert(self.entries@[i as int].0@ == k@);
                    assert(self.has(k@));
                    assert(0 <= w < self.entries@.len() && self.entries@[w].0@ == k@);
                    if w != i as int {
                        assert(self.entries@[w].0@ != self.entries@[i as int].0@);
                    }
                }
                return Some(i);
            }
            i = i + 1;
        }
        None
    }

    /// Whether `k` is a key (`contains_key`).
    pub fn contains_key(&self, k: &str) -> (b: bool)
        requires
            self.wf(),
        ensures
            b == self.has(k@),
            b == self.as_map().dom().contains(k@),
    {
        self.find(k).is_some()
    }

    /// The value stored under `k` (`get`).
    pub fn get(&self, k: &str) -> (r: Option<&V>)
        requires
            self.wf(),
        ensures
            r is None <==> !self.has(k@),
            r matches Some(v) ==> *v == self.get_spec(k@) && *v == self.as_map()[k@],
    {
        match self.find(k) {
            Some(i) => Some(&self.entries[i].1),
            None => None,
        }
    }

    /// Stores `v` under `k`, replacing an older value (`insert`).
    pub fn insert(&mut self, k: String, v: V)
        requires
            old(self).wf(),
        ensures
            final(self).wf(),
            final(self).as_map() =~= old(self).as_map().insert(k@, v),
            final(self).has(k@),
            forall|q: Seq<char>| #[trigger] old(self).has(q) ==> final(self).has(q),
            forall|q: Seq<char>| #[trigger] final(self).has(q) ==> q == k@ || old(self).has(q),
    {
        match self.find(k.as_str()) {
            Some(i) => {
                let ghost kv = k@;
                let ghost old_entries = self.entries@;
                self.entries.set(i, (k, v));
                proof {
                    assert forall|q: Seq<char>| #![auto] self.has(q) == (q == kv || old(self).has(q)) by {
                        if old(self).has(q) {
                            let w = old(self).index_of(q);
                            if w == i as int {
                                assert(self.entries@[w].0@ == q);
                            } else {
                                assert(self.entries@[w] == old_entries[w]);
                            }
                        }
                        if self.has(q) {
                            let w = self.index_of(q);
                            if w != i as int {
                                assert(old_entries[w] == self.entries@[w]);
                            }
                        }
                        if q == kv {
                            assert(self.entries@[i as int].0@ == kv);
                        }
                    }
                    assert forall|q: Seq<char>| #![auto] self.has(q) implies
                        self.get_spec(q) == (if q == kv { v } else { old(self).get_spec(q) }) by {
                        let w = self.index_of(q);
                        if q == kv {
                            if w != i as int {
                                assert(self.entries@[w].0@ != self.entries@[i as int].0@);
                            }
                        } else {
                            assert(w != i as int);
                            assert(old_entries[w].0@ == q);
                            let w2 = old(self).index_of(q);
                            if w2 != w {
                                assert(old_entries[w2].0@ != old_entries[w].0@);
                            }
                        }
                    }
                }
            },
            None => {
                let ghost kv = k@;
                let ghost old_entries = self.entries@;
                self.entries.push((k, v));
                proof {
                    let n = old_entries.len() as int;
                    assert forall|q: Seq<char>| #![auto] self.has(q) == (q == kv || old(self).has(q)) by {
                        if old(self).has(q) {
                            let w = old(self).index_of(q);
                            assert(self.entries@[w] == old_entries[w]);
                        }
                        if self.has(q) {
                            let w = self.index_of(q);
                            if w != n {
                                assert(old_entries[w] == self.entries@[w]);
                            }
                        }
                        if q == kv {
                            assert(self.entries@[n].0@ == kv);
                        }
                    }
                    assert forall|q: Seq<char>| #![auto] self.has(q) implies
                        self.get_spec(q) == (if q == kv { v } else { old(self).get_spec(q) }) by {
                        let w = self.index_of(q);
                        if q == kv {
                            if w != n {
                                assert(old_entries[w].0@ == kv);
                            }
                        } else {
                            assert(w != n);
                            let w2 = old(self).index_of(q);
                            assert(old_entries[w].0@ == q);
                            if w2 != w {
                                assert(old_entries[w2].0@ != old_entries[w].0@);
                            }
                        }
                    }
                }
            },
        }
    }

    /// Removes `k` and its value (`remove`).
    pub fn remove(&mut self, k: &str)
        requires
            old(self).wf(),
        ensures
            final(self).wf(),
            final(self).as_map() =~= old(self).as_map().remove(k@),
            !final(self).has(k@),
    {
        match self.find(k) {
            Some(i) => {
                let ghost old_entries = self.entries@;
                let ghost kv = old_entries[i as int].0@;
                let _ = self.entries.remove(i);
                proof {
                    assert forall|a: int| 0 <= a < self.entries@.len() implies
                        #[trigger] self.entries@[a] == (if a < i { old_entries[a] } else { old_entries[a + 1] }) by {}
                    assert forall|q: Seq<char>| #![auto] self.has(q) == (q != kv && old(self).has(q)) by {
                        if self.has(q) {
                            let w = self.index_of(q);
                            if w < i as int {
                                assert(old_entries[w] == self.entries@[w]);
                                assert(old_entries[w].0@ != old_entries[i as int].0@);
                            } else {
                                assert(old_entries[w + 1] == self.entries@[w]);
                                assert(old_entries[w + 1].0@ != old_entries[i as int].0@);
                            }
                        }
                        if q != kv && old(self).has(q) {
                            let w = old(self).index_of(q);
                            assert(w != i as int);
                            if w < i as int {
                                assert(self.entries@[w] == old_entries[w]);
                            } else {
                                assert(self.entries@[w - 1] == old_entries[w]);
                            }
                        }
                    }
                    assert forall|q: Seq<char>| #![auto] self.has(q) implies
                        self.get_spec(q) == old(self).get_spec(q) by {
                        let w = self.index_of(q);
                        let w2 = old(self).index_of(q);
                        let ow = if w < i as int { w } else { w + 1 };
                        assert(old_entries[ow] == self.entries@[w]);
                        if w2 != ow {
                            assert(old_entries[w2].0@ != old_entries[ow].0@);
                        }
                    }
                    assert forall|a: int, b: int|
                        0 <= a < self.entries@.len() && 0 <= b < self.entries@.len() && a != b
                        implies (#[trigger] self.entries@[a]).0@ != (#[trigger] self.entries@[b]).0@ by {
                        let oa = if a < i as int { a } else { a + 1 };
                        let ob = if b < i as int { b } else { b + 1 };
                        assert(old_entries[oa] == self.entries@[a]);
                        assert(old_entries[ob] == self.entries@[b]);
                    }
                }
            },
            None => {
                assert(old(self).as_map().remove(k@) =~= old(self).as_map());
            },
        }
        proof {
            if self.has(k@) {
                assert(self.as_map().dom().contains(k@));
            }
        }
    }
}

} // verus!
