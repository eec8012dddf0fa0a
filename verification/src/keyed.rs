//! A map from string keys to values, kept as a list of distinct keys.

use vstd::prelude::*;
use crate::text::str_eq;

verus! {

/// A finite map from string keys to values. Each key occurs at most once.
#[derive(Debug, Clone)]
pub struct KeyedList<V> {
    entries: Vec<(String, V)>,
}

impl<V> KeyedList<V> {
    /// Keys are pairwise distinct.
    pub closed spec fn wf(&self) -> bool {
        forall|i: int, j: int|
            0 <= i < self.entries.len() && 0 <= j < self.entries.len() && i != j
                ==> #[trigger] self.entries[i].0@ != #[trigger] self.entries[j].0@
    }

    pub closed spec fn has_key_at(&self, k: Seq<char>, i: int) -> bool {
        0 <= i < self.entries.len() && self.entries[i].0@ == k
    }

    /// The map that the list stands for.
    pub closed spec fn view(&self) -> Map<Seq<char>, V> {
        Map::new(
            |k: Seq<char>| exists|i: int| self.has_key_at(k, i),
            |k: Seq<char>| self.entries[choose|i: int| self.has_key_at(k, i)].1,
        )
    }

    proof fn lemma_at(&self, k: Seq<char>, i: int)
        requires
            self.wf(),
            self.has_key_at(k, i),
        ensures
            self.view().contains_key(k),
            self.view()[k] == self.entries[i].1,
    {
        let j = choose|j: int| self.has_key_at(k, j);
        assert(self.has_key_at(k, j));
        if i != j {
            assert(self.entries[i].0@ != self.entries[j].0@);
        }
    }

    /// The keys in the order the list keeps them.
    pub closed spec fn key_seq(&self) -> Seq<Seq<char>> {
        self.entries@.map_values(|e: (String, V)| e.0@)
    }

    /// The values, in the order of `key_seq`.
    pub closed spec fn value_seq(&self) -> Seq<V> {
        self.entries@.map_values(|e: (String, V)| e.1)
    }

    /// The listed keys are the keys of the map, each once, each with its
    /// value.
    pub proof fn lemma_seqs(&self)
        requires
            self.wf(),
        ensures
            self.key_seq().len() == self.value_seq().len(),
            self.key_seq().no_duplicates(),
            forall|k: Seq<char>| #[trigger] self.view().contains_key(k) <==> self.key_seq().contains(k),
            forall|i: int| 0 <= i < self.key_seq().len() ==> self.view().contains_key(#[trigger] self.key_seq()[i])
                && self.view()[self.key_seq()[i]] == self.value_seq()[i],
    {
        assert forall|k: Seq<char>| #[trigger] self.view().contains_key(k) <==> self.key_seq().contains(k) by {
            if self.view().contains_key(k) {
                let j = choose|j: int| self.has_key_at(k, j);
                assert(self.key_seq()[j] == k);
            }
            if self.key_seq().contains(k) {
                let j = choose|j: int| 0 <= j < self.key_seq().len() && self.key_seq()[j] == k;
                assert(self.has_key_at(k, j));
            }
        }
        assert forall|i: int| 0 <= i < self.key_seq().len() implies self.view().contains_key(#[trigger] self.key_seq()[i])
            && self.view()[self.key_seq()[i]] == self.value_seq()[i] by {
            self.lemma_at(self.key_seq()[i], i);
        }
        assert forall|i: int, j: int| 0 <= i < self.key_seq().len() && 0 <= j < self.key_seq().len() && i != j
            implies self.key_seq()[i] != self.key_seq()[j] by {
            assert(self.entries[i].0@ != self.entries[j].0@);
        }
    }

    /// The number of keys.
    pub fn len(&self) -> (r: usize)
        ensures
            r == self.key_seq().len(),
    {
        self.entries.len()
    }

    /// The key and value at position `i` of the list.
    pub fn entry_at(&self, i: usize) -> (r: (&String, &V))
        requires
            i < self.key_seq().len(),
        ensures
            r.0@ == self.key_seq()[i as int],
            *r.1 == self.value_seq()[i as int],
    {
        (&self.entries[i].0, &self.entries[i].1)
    }

    /// An empty map.
    pub fn new() -> (r: Self)
        ensures
            r.wf(),
            r.view() == Map::<Seq<char>, V>::empty(),
    {
        let r = KeyedList { entries: Vec::new() };
        assert(r.view() =~= Map::<Seq<char>, V>::empty());
        r
    }

    /// The position of `k`, if present.
    fn find(&self, k: &str) -> (r: Option<usize>)
        requires
            self.wf(),
        ensures
            match r {
                Some(i) => self.has_key_at(k@, i as int),
                None => !self.view().contains_key(k@),
            },
    {
        let mut i: usize = 0;
        while i < self.entries.len()
            invariant
                i <= self.entries@.len(),
                forall|j: int| 0 <= j < i ==> self.entries@[j].0@ != k@,
            decreases self.entries.len() - i,
        {
            if str_eq(self.entries[i].0.as_str(), k) {
                return Some(i);
            }
            i = i + 1;
        }
        None
    }

    /// Whether `k` is a key.
    pub fn contains_key(&self, k: &str) -> (r: bool)
        requires
            self.wf(),
        ensures
            r == self.view().contains_key(k@),
    {
        match self.find(k) {
            Some(i) => {
                proof {
                    self.lemma_at(k@, i as int);
                }
                true
            },
            None => false,
        }
    }

    /// The value under `k`, if any.
    pub fn get(&self, k: &str) -> (r: Option<&V>)
        requires
            self.wf(),
        ensures
            r is Some <==> self.view().contains_key(k@),
            r matches Some(v) ==> *v == self.view()[k@],
    {
        match self.find(k) {
            Some(i) => {
                proof {
                    self.lemma_at(k@, i as int);
                }
                Some(&self.entries[i].1)
            },
            None => None,
        }
    }

    /// Puts `v` under `k`, replacing any value that was there.
    pub fn insert(&mut self, k: String, v: V)
        requires
            old(self).wf(),
        ensures
            final(self).wf(),
            final(self).view() == old(self).view().insert(k@, v),
    {
        let ghost kv = k@;
        match self.find(k.as_str()) {
            Some(i) => {
                let ghost old_self = *self;
                self.entries.set(i, (k, v));
                proof {
                    assert(self.wf());
                    assert forall|key: Seq<char>|
                        #![trigger self.view().contains_key(key)]
                        self.view().contains_key(key) == old_self.view().insert(kv, v).contains_key(key)
                    by {
                        if key == kv {
                            assert(self.has_key_at(key, i as int));
                        } else if self.view().contains_key(key) {
                            let j = choose|j: int| self.has_key_at(key, j);
                            assert(old_self.has_key_at(key, j));
                        } else if old_self.view().contains_key(key) {
                            let j = choose|j: int| old_self.has_key_at(key, j);
                            assert(self.has_key_at(key, j));
                        }
                    }
                    assert forall|key: Seq<char>| #[trigger]
                        self.view().contains_key(key) implies self.view()[key] == old_self.view().insert(kv, v)[key]
                    by {
                        let j = choose|j: int| self.has_key_at(key, j);
                        self.lemma_at(key, j);
                        if key != kv {
                            old_self.lemma_at(key, j);
                        } else {
                            self.lemma_at(key, i as int);
                        }
                    }
                    assert(self.view() =~= old_self.view().insert(kv, v));
                }
            },
            None => {
                let ghost old_self = *self;
                self.entries.push((k, v));
                proof {
                    let n = old_self.entries.len() as int;
                    assert(self.wf()) by {
                        assert forall|a: int, b: int|
                            0 <= a < self.entries.len() && 0 <= b < self.entries.len() && a != b
                            implies #[trigger] self.entries[a].0@ != #[trigger] self.entries[b].0@
                        by {
                            if a == n {
                                assert(!old_self.has_key_at(kv, b));
                            } else if b == n {
                                assert(!old_self.has_key_at(kv, a));
                            } else {
                                assert(old_self.entries[a] == self.entries[a]);
                                assert(old_self.entries[b] == self.entries[b]);
                            }
                        }
                    }
                    assert forall|key: Seq<char>|
                        #![trigger self.view().contains_key(key)]
                        self.view().contains_key(key) == old_self.view().insert(kv, v).contains_key(key)
                    by {
                        if key == kv {
                            assert(self.has_key_at(key, n));
                        } else if self.view().contains_key(key) {
                            let j = choose|j: int| self.has_key_at(key, j);
                            assert(old_self.has_key_at(key, j));
                        } else if old_self.view().contains_key(key) {
                            let j = choose|j: int| old_self.has_key_at(key, j);
                            assert(self.has_key_at(key, j));
                        }
                    }
                    assert forall|key: Seq<char>| #[trigger]
                        self.view().contains_key(key) implies self.view()[key] == old_self.view().insert(kv, v)[key]
                    by {
                        let j = choose|j: int| self.has_key_at(key, j);
                        self.lemma_at(key, j);
                        if key != kv {
                            old_self.lemma_at(key, j);
                        } else {
                            self.lemma_at(key, n);
                        }
                    }
                    assert(self.view() =~= old_self.view().insert(kv, v));
                }
            },
        }
    }

    /// Drops `k` and its value, if present.
    pub fn remove(&mut self, k: &str)
        requires
            old(self).wf(),
        ensures
            final(self).wf(),
            final(self).view() == old(self).view().remove(k@),
    {
        match self.find(k) {
            Some(i) => {
                let ghost old_self = *self;
                let _ = self.entries.remove(i);
                proof {
                    let ii = i as int;
                    assert forall|a: int|
                        0 <= a < self.entries.len() implies #[trigger] self.entries[a]
                        == old_self.entries[if a < ii { a } else { a + 1 }]
                    by {}
                    assert(self.wf()) by {
                        assert forall|a: int, b: int|
                            0 <= a < self.entries.len() && 0 <= b < self.entries.len() && a != b
                            implies #[trigger] self.entries[a].0@ != #[trigger] self.entries[b].0@
                        by {
                            let a1 = if a < ii { a } else { a + 1 };
                            let b1 = if b < ii { b } else { b + 1 };
                            assert(old_self.entries[a1].0@ != old_self.entries[b1].0@);
                        }
                    }
                    assert forall|key: Seq<char>|
                        #![trigger self.view().contains_key(key)]
                        self.view().contains_key(key) == old_self.view().remove(k@).contains_key(key)
                    by {
                        if self.view().contains_key(key) {
                            let j = choose|j: int| self.has_key_at(key, j);
                            let j1 = if j < ii { j } else { j + 1 };
                            assert(old_self.has_key_at(key, j1));
                            assert(key != k@);
                        } else if old_self.view().contains_key(key) && key != k@ {
                            let j = choose|j: int| old_self.has_key_at(key, j);
                            assert(j != ii);
                            let j0 = if j < ii { j } else { j - 1 };
                            assert(self.has_key_at(key, j0));
                        }
                    }
                    assert forall|key: Seq<char>| #[trigger]
                        self.view().contains_key(key) implies self.view()[key] == old_self.view().remove(k@)[key]
                    by {
                        let j = choose|j: int| self.has_key_at(key, j);
                        self.lemma_at(key, j);
                        let j1 = if j < ii { j } else { j + 1 };
                        old_self.lemma_at(key, j1);
                    }
                    assert(self.view() =~= old_self.view().remove(k@));
                }
            },
            None => {
                assert(self.view() =~= old(self).view().remove(k@));
            },
        }
    }
}

} // verus!
