//! A map from texts to values, for small numbers of entries.

use crate::text;
use vstd::prelude::*;

verus! {

/// A map keyed by text. Every key occurs once.
#[derive(Debug)]
pub struct TextMap<V> {
    entries: Vec<(String, V)>,
}

spec fn holds_key<V>(s: Seq<(String, V)>, k: Seq<char>) -> bool {
    exists|i: int| 0 <= i < s.len() && (#[trigger] s[i]).0@ == k
}

spec fn slot<V>(s: Seq<(String, V)>, k: Seq<char>) -> int {
    choose|i: int| 0 <= i < s.len() && (#[trigger] s[i]).0@ == k
}

spec fn distinct<V>(s: Seq<(String, V)>) -> bool {
    forall|i: int, j: int|
        0 <= i < s.len() && 0 <= j < s.len() && (#[trigger] s[i]).0@ == (#[trigger] s[j]).0@ ==> i
            == j
}

spec fn as_map<V>(s: Seq<(String, V)>) -> Map<Seq<char>, V> {
    Map::new(|k: Seq<char>| holds_key(s, k), |k: Seq<char>| s[slot(s, k)].1)
}

impl<V> View for TextMap<V> {
    type V = Map<Seq<char>, V>;

    closed spec fn view(&self) -> Map<Seq<char>, V> {
        as_map(self.entries@)
    }
}

impl<V> TextMap<V> {
    #[verifier::type_invariant]
    spec fn wf(self) -> bool {
        distinct(self.entries@)
    }

    /// The empty map.
    pub fn new() -> (r: Self)
        ensures
            r@ == Map::<Seq<char>, V>::empty(),
    {
        let r = TextMap { entries: Vec::new() };
        assert(r@ =~= Map::<Seq<char>, V>::empty());
        r
    }

    fn position(&self, key: &str) -> (r: Option<usize>)
        ensures
            match r {
                Some(i) => i < self.entries@.len() && self.entries@[i as int].0@ == key@,
                None => !holds_key(self.entries@, key@),
            },
    {
        let mut i: usize = 0;
        while i < self.entries.len()
            invariant
                i <= self.entries@.len(),
                forall|j: int| 0 <= j < i ==> (#[trigger] self.entries@[j]).0@ != key@,
            decreases self.entries.len() - i,
        {
            if text::same(&self.entries[i].0, key) {
                return Some(i);
            }
            i += 1;
        }
        None
    }

    /// The value under `key`.
    pub fn get(&self, key: &str) -> (r: Option<&V>)
        ensures
            match r {
                Some(v) => self@.dom().contains(key@) && *v == self@[key@],
                None => !self@.dom().contains(key@),
            },
    {
        proof {
            use_type_invariant(self);
        }
        match self.position(key) {
            Some(i) => {
                assert(holds_key(self.entries@, key@));
                Some(&self.entries[i].1)
            },
            None => None,
        }
    }

    /// Removes the entry under `key` and returns its value.
    pub fn remove(&mut self, key: &str) -> (r: Option<V>)
        ensures
            match r {
                Some(v) => old(self)@.dom().contains(key@) && v == old(self)@[key@],
                None => !old(self)@.dom().contains(key@),
            },
            final(self)@ == old(self)@.remove(key@),
    {
        proof {
            use_type_invariant(&*self);
        }
        match self.position(key) {
            Some(i) => {
                let mut entries: Vec<(String, V)> = Vec::new();
                std::mem::swap(&mut entries, &mut self.entries);
                let ghost before = entries@;
                let e = entries.remove(i);
                assert(entries@ == before.remove(i as int));
                proof {
                    assert(holds_key(before, key@));
                    assert forall|a: int, b: int|
                        0 <= a < entries@.len() && 0 <= b < entries@.len() && (
                        #[trigger] entries@[a]).0@ == (#[trigger] entries@[b]).0@ implies a == b by {
                        let a2 = if a < i {
                            a
                        } else {
                            a + 1
                        };
                        let b2 = if b < i {
                            b
                        } else {
                            b + 1
                        };
                        assert(entries@[a] == before[a2]);
                        assert(entries@[b] == before[b2]);
                    }
                    assert forall|k: Seq<char>| #[trigger]
                        holds_key(entries@, k) <==> (holds_key(before, k) && k != key@) by {
                        if holds_key(entries@, k) {
                            let a = slot(entries@, k);
                            let a2 = if a < i {
                                a
                            } else {
                                a + 1
                            };
                            assert(entries@[a] == before[a2]);
                            assert(before[a2].0@ == k);
                            if k == key@ {
                                assert(before[a2].0@ == before[i as int].0@);
                            }
                        }
                        if holds_key(before, k) && k != key@ {
                            let a2 = slot(before, k);
                            let a = if a2 < i {
                                a2
                            } else {
                                a2 - 1
                            };
                            assert(entries@[a] == before[a2]);
                        }
                    }
                    assert forall|k: Seq<char>|
                        holds_key(entries@, k) implies as_map(entries@)[k] == as_map(
                        before,
                    )[k] by {
                        let a = slot(entries@, k);
                        let a2 = if a < i {
                            a
                        } else {
                            a + 1
                        };
                        assert(entries@[a] == before[a2]);
                        assert(holds_key(before, k));
                        assert(before[a2].0@ == before[slot(before, k)].0@);
                    }
                    assert(as_map(entries@) =~= as_map(before).remove(key@));
                }
                self.entries = entries;
                Some(e.1)
            },
            None => {
                assert(self@ =~= self@.remove(key@));
                None
            },
        }
    }

    /// Puts `value` under `key`, in place of a value already there.
    pub fn insert(&mut self, key: &str, value: V)
        ensures
            final(self)@ == old(self)@.insert(key@, value),
    {
        let gone = self.remove(key);
        proof {
            use_type_invariant(&*self);
        }
        let mut entries: Vec<(String, V)> = Vec::new();
        std::mem::swap(&mut entries, &mut self.entries);
        let ghost before = entries@;
        let name = String::from_str(key);
        entries.push((name, value));
        proof {
            assert(!as_map(before).dom().contains(key@));
            assert(!holds_key(before, key@));
            let after = entries@;
            assert(after[before.len() as int] == (name, value));
            assert forall|a: int, b: int|
                0 <= a < after.len() && 0 <= b < after.len() && (#[trigger] after[a]).0@ == (
                #[trigger] after[b]).0@ implies a == b by {
                if a < before.len() {
                    assert(after[a] == before[a]);
                    assert(holds_key(before, after[a].0@));
                }
                if b < before.len() {
                    assert(after[b] == before[b]);
                    assert(holds_key(before, after[b].0@));
                }
            }
            assert forall|k: Seq<char>| #[trigger]
                holds_key(after, k) <==> (holds_key(before, k) || k == key@) by {
                if holds_key(after, k) {
                    let a = slot(after, k);
                    if a < before.len() {
                        assert(before[a].0@ == k);
                    }
                }
                if holds_key(before, k) {
                    let a = slot(before, k);
                    assert(after[a].0@ == k);
                }
                if k == key@ {
                    assert(after[before.len() as int].0@ == k);
                }
            }
            assert forall|k: Seq<char>| holds_key(after, k) implies as_map(after)[k] == (if k
                == key@ {
                value
            } else {
                as_map(before)[k]
            }) by {
                let a = slot(after, k);
                if k == key@ {
                    assert(after[before.len() as int].0@ == after[a].0@);
                } else {
                    assert(holds_key(before, k));
                    let b = slot(before, k);
                    assert(after[b].0@ == after[a].0@);
                    assert(after[b] == before[b]);
                }
            }
            assert(as_map(after) =~= as_map(before).insert(key@, value));
            assert(old(self)@.remove(key@).insert(key@, value) =~= old(self)@.insert(key@, value));
        }
        self.entries = entries;
    }

    /// The keys, in the order in which they were put in last.
    pub closed spec fn keys(&self) -> Seq<Seq<char>> {
        self.entries@.map_values(|e: (String, V)| e.0@)
    }

    /// The keys of the map are the keys in order.
    pub proof fn lemma_keys(&self)
        ensures
            forall|k: Seq<char>| #[trigger] self.keys().contains(k) <==> self@.dom().contains(k),
    {
        assert forall|k: Seq<char>| #[trigger] self.keys().contains(k) <==> self@.dom().contains(
            k,
        ) by {
            if self.keys().contains(k) {
                let i = choose|i: int| 0 <= i < self.keys().len() && self.keys()[i] == k;
                assert(self.entries@[i].0@ == k);
            }
            if holds_key(self.entries@, k) {
                let i = slot(self.entries@, k);
                assert(self.keys()[i] == k);
            }
        }
    }

    /// A value of the map is smaller than the map, as recursion measures it.
    pub proof fn lemma_values_decrease(&self, k: Seq<char>)
        requires
            self@.dom().contains(k),
        ensures
            decreases_to!(*self => self@[k]),
    {
        let i = slot(self.entries@, k);
        assert(decreases_to!(*self => self.entries));
        assert(decreases_to!(self.entries => self.entries@));
        assert(decreases_to!(self.entries@ => self.entries@[i]));
        assert(decreases_to!(self.entries@[i] => self.entries@[i].1));
    }

    /// The number of entries. Every key stands in the order once.
    pub fn len(&self) -> (r: usize)
        ensures
            r == self.keys().len(),
            self.keys().no_duplicates(),
    {
        proof {
            use_type_invariant(self);
            assert forall|i: int, j: int|
                0 <= i < self.keys().len() && 0 <= j < self.keys().len() && i
                    != j implies self.keys()[i] != self.keys()[j] by {
                assert(self.entries@[i].0@ == self.keys()[i]);
                assert(self.entries@[j].0@ == self.keys()[j]);
            }
        }
        self.entries.len()
    }

    /// The entry at a position of the order.
    pub fn entry(&self, i: usize) -> (r: (&String, &V))
        requires
            i < self.keys().len(),
        ensures
            r.0@ == self.keys()[i as int],
            self@.dom().contains(r.0@),
            *r.1 == self@[r.0@],
    {
        proof {
            use_type_invariant(self);
            assert(holds_key(self.entries@, self.entries@[i as int].0@));
        }
        let e = &self.entries[i];
        (&e.0, &e.1)
    }

    /// Whether there is an entry under `key`.
    pub fn contains(&self, key: &str) -> (r: bool)
        ensures
            r == self@.dom().contains(key@),
    {
        self.get(key).is_some()
    }
}

} // verus!
