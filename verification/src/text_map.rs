//! A small map from text keys to values, kept in insertion order.
use vstd::prelude::*;
use crate::text::str_eq;

verus! {

/// A map from text keys to values. Keys are distinct; entries keep the
/// order in which their keys were first inserted.
pub struct TextMap<V> {
    keys: Vec<String>,
    values: Vec<V>,
}

impl<V> TextMap<V> {
    /// Keys and values line up and no key occurs twice.
    pub closed spec fn wf(&self) -> bool {
        &&& self.keys@.len() == self.values@.len()
        &&& forall|i: int, j: int|
            0 <= i < j < self.keys@.len() ==> #[trigger] self.keys@[i]@ != #[trigger] self.keys@[j]@
    }

    /// The keys, in insertion order.
    pub closed spec fn key_seq(&self) -> Seq<Seq<char>> {
        self.keys@.map_values(|k: String| k@)
    }

    /// The values, in the order of their keys.
    pub closed spec fn value_seq(&self) -> Seq<V> {
        self.values@
    }

    pub closed spec fn has(&self, k: Seq<char>) -> bool {
        exists|i: int| 0 <= i < self.keys@.len() && #[trigger] self.keys@[i]@ == k
    }

    pub closed spec fn index_of(&self, k: Seq<char>) -> int {
        choose|i: int| 0 <= i < self.keys@.len() && #[trigger] self.keys@[i]@ == k
    }

    /// The entries as a mathematical map.
    pub closed spec fn view(&self) -> Map<Seq<char>, V> {
        Map::new(|k: Seq<char>| self.has(k), |k: Seq<char>| self.values@[self.index_of(k)])
    }

    /// Entry `i` holds key `key_seq()[i]` and value `value_seq()[i]`, and
    /// every key of the map is one of them.
    pub proof fn lemma_entries(&self)
        requires
            self.wf(),
        ensures
            self.key_seq().len() == self.value_seq().len(),
            forall|i: int|
                0 <= i < self.key_seq().len() ==> #[trigger] self.view().contains_key(self.key_seq()[i])
                    && self.view()[self.key_seq()[i]] == self.value_seq()[i],
            forall|k: Seq<char>|
                #[trigger] self.view().contains_key(k) ==> exists|i: int|
                    0 <= i < self.key_seq().len() && self.key_seq()[i] == k,
            forall|i: int, j: int|
                0 <= i < j < self.key_seq().len() ==> self.key_seq()[i] != self.key_seq()[j],
    {
        assert forall|i: int| 0 <= i < self.key_seq().len() implies #[trigger] self.view().contains_key(self.key_seq()[i])
            && self.view()[self.key_seq()[i]] == self.value_seq()[i] by {
            let k = self.keys@[i]@;
            assert(self.has(k));
            let j = self.index_of(k);
            assert(self.keys@[j]@ == k);
            if i < j {
                assert(self.keys@[i]@ != self.keys@[j]@);
            }
            if j < i {
                assert(self.keys@[j]@ != self.keys@[i]@);
            }
        }
        assert forall|k: Seq<char>| #[trigger] self.view().contains_key(k) implies exists|i: int|
            0 <= i < self.key_seq().len() && self.key_seq()[i] == k by {
            let i = self.index_of(k);
            assert(self.key_seq()[i] == k);
        }
        assert forall|i: int, j: int| 0 <= i < j < self.key_seq().len() implies self.key_seq()[i] != self.key_seq()[j] by {
            assert(self.keys@[i]@ != self.keys@[j]@);
        }
    }

    pub fn new() -> (m: Self)
        ensures
            m.wf(),
            m@ == Map::<Seq<char>, V>::empty(),
            m.key_seq().len() == 0,
    {
        let m = TextMap { keys: Vec::new(), values: Vec::new() };
        proof {
            assert(m@ =~= Map::<Seq<char>, V>::empty());
            assert(m.key_seq() =~= Seq::<Seq<char>>::empty());
        }
        m
    }

    pub fn len(&self) -> (n: usize)
        requires
            self.wf(),
        ensures
            n == self.key_seq().len(),
    {
        self.keys.len()
    }

    /// The position of `key`, if it is present.
    pub fn find(&self, key: &str) -> (r: Option<usize>)
        requires
            self.wf(),
        ensures
            r is None <==> !self@.contains_key(key@),
            r matches Some(i) ==> i < self.key_seq().len() && self.key_seq()[i as int] == key@,
    {
        proof {
            self.lemma_entries();
        }
        let mut i: usize = 0;
        while i < self.keys.len()
            invariant
                self.wf(),
                i <= self.keys@.len(),
                forall|k: int| 0 <= k < i ==> self.keys@[k]@ != key@,
            decreases self.keys.len() - i,
        {
            if str_eq(self.keys[i].as_str(), key) {
                proof {
                    assert(self.key_seq()[i as int] == key@);
                }
                return Some(i);
            }
            i = i + 1;
        }
        proof {
            if self@.contains_key(key@) {
                let j = choose|j: int| 0 <= j < self.key_seq().len() && self.key_seq()[j] == key@;
                assert(self.keys@[j]@ == key@);
            }
        }
        None
    }

    /// The key of entry `i`.
    pub fn key_at(&self, i: usize) -> (k: &String)
        requires
            self.wf(),
            i < self.key_seq().len(),
        ensures
            k@ == self.key_seq()[i as int],
    {
        &self.keys[i]
    }

    /// The value of entry `i`.
    pub fn value_at(&self, i: usize) -> (v: &V)
        requires
            self.wf(),
            i < self.key_seq().len(),
        ensures
            *v == self.value_seq()[i as int],
    {
        &self.values[i]
    }

    /// The value stored under `key`.
    pub fn get(&self, key: &str) -> (r: Option<&V>)
        requires
            self.wf(),
        ensures
            r is Some <==> self@.contains_key(key@),
            r matches Some(v) ==> *v == self@[key@],
    {
        proof {
            self.lemma_entries();
        }
        match self.find(key) {
            Some(i) => Some(&self.values[i]),
            None => None,
        }
    }

    /// Stores `v` under `key`, replacing the value there if any. A new key
    /// goes after the existing ones; an existing key keeps its place.
    pub fn insert(&mut self, key: &str, v: V)
        requires
            old(self).wf(),
        ensures
            final(self).wf(),
            final(self)@ == old(self)@.insert(key@, v),
            old(self)@.contains_key(key@) ==> final(self).key_seq() == old(self).key_seq(),
            !old(self)@.contains_key(key@) ==> final(self).key_seq() == old(self).key_seq().push(key@),
    {
        let ghost before = *self;
        proof {
            before.lemma_entries();
        }
        match self.find(key) {
            Some(i) => {
                self.values.set(i, v);
                proof {
                    assert(self.keys@ == before.keys@);
                    assert(self.key_seq() =~= before.key_seq());
                }
            },
            None => {
                self.keys.push(key.to_string());
                self.values.push(v);
                proof {
                    assert forall|j: int| 0 <= j < before.keys@.len() implies before.keys@[j]@ != key@ by {
                        assert(before.key_seq()[j] == before.keys@[j]@);
                    }
                    assert(self.key_seq() =~= before.key_seq().push(key@));
                }
            },
        }
        proof {
            self.lemma_entries();
            assert(self@ =~= before@.insert(key@, v)) by {
                assert forall|k: Seq<char>| #[trigger] self@.contains_key(k) <==> before@.insert(key@, v).contains_key(k) by {
                    if self@.contains_key(k) {
                        let j = choose|j: int| 0 <= j < self.key_seq().len() && self.key_seq()[j] == k;
                        if k != key@ {
                            assert(before.key_seq()[j] == k);
                        }
                    }
                    if before@.contains_key(k) {
                        let j = choose|j: int| 0 <= j < before.key_seq().len() && before.key_seq()[j] == k;
                        assert(self.key_seq()[j] == k);
                    }
                    if k == key@ {
                        let j = if before@.contains_key(key@) {
                            choose|j: int| 0 <= j < before.key_seq().len() && before.key_seq()[j] == k
                        } else {
                            before.key_seq().len() as int
                        };
                        assert(self.key_seq()[j] == k);
                    }
                }
                assert forall|k: Seq<char>| #[trigger] self@.contains_key(k) implies self@[k] == before@.insert(key@, v)[k] by {
                    let j = choose|j: int| 0 <= j < self.key_seq().len() && self.key_seq()[j] == k;
                    if k != key@ {
                        assert(before.key_seq()[j] == k);
                        assert(self.value_seq()[j] == before.value_seq()[j]);
                    }
                }
            }
        }
    }

    /// Removes entry `i`, returning its key and value.
    pub fn remove_at(&mut self, i: usize) -> (r: (String, V))
        requires
            old(self).wf(),
            i < old(self).key_seq().len(),
        ensures
            final(self).wf(),
            r.0@ == old(self).key_seq()[i as int],
            r.1 == old(self).value_seq()[i as int],
            final(self).key_seq() == old(self).key_seq().remove(i as int),
            final(self).value_seq() == old(self).value_seq().remove(i as int),
            final(self)@ == old(self)@.remove(r.0@),
    {
        let ghost before = *self;
        proof {
            before.lemma_entries();
        }
        let k = self.keys.remove(i);
        let v = self.values.remove(i);
        proof {
            assert(self.key_seq() =~= before.key_seq().remove(i as int));
            assert forall|a: int, b: int| 0 <= a < b < self.keys@.len() implies #[trigger] self.keys@[a]@ != #[trigger] self.keys@[b]@ by {
                let a2 = if a < i { a } else { a + 1 };
                let b2 = if b < i { b } else { b + 1 };
                assert(self.keys@[a] == before.keys@[a2]);
                assert(self.keys@[b] == before.keys@[b2]);
            }
            self.lemma_entries();
            let kk = k@;
            assert(self@ =~= before@.remove(kk)) by {
                assert forall|key: Seq<char>| #[trigger] self@.contains_key(key) <==> before@.remove(kk).contains_key(key) by {
                    if self@.contains_key(key) {
                        let j = choose|j: int| 0 <= j < self.key_seq().len() && self.key_seq()[j] == key;
                        let j2 = if j < i { j } else { j + 1 };
                        assert(before.key_seq()[j2] == key);
                        assert(j2 != i);
                    }
                    if before@.contains_key(key) && key != kk {
                        let j = choose|j: int| 0 <= j < before.key_seq().len() && before.key_seq()[j] == key;
                        assert(j != i);
                        let j2 = if j < i { j } else { j - 1 };
                        assert(self.key_seq()[j2] == key);
                    }
                }
                assert forall|key: Seq<char>| #[trigger] self@.contains_key(key) implies self@[key] == before@.remove(kk)[key] by {
                    let j = choose|j: int| 0 <= j < self.key_seq().len() && self.key_seq()[j] == key;
                    let j2 = if j < i { j } else { j + 1 };
                    assert(before.key_seq()[j2] == key);
                    assert(self.value_seq()[j] == before.value_seq()[j2]);
                }
            }
        }
        (k, v)
    }

    /// Removes `key`, returning its value if it was present.
    pub fn remove(&mut self, key: &str) -> (r: Option<V>)
        requires
            old(self).wf(),
        ensures
            final(self).wf(),
            final(self)@ == old(self)@.remove(key@),
            r is Some <==> old(self)@.contains_key(key@),
            r matches Some(v) ==> v == old(self)@[key@],
    {
        proof {
            self.lemma_entries();
        }
        match self.find(key) {
            Some(i) => {
                let (_, v) = self.remove_at(i);
                Some(v)
            },
            None => {
                proof {
                    assert(self@ =~= self@.remove(key@));
                }
                None
            },
        }
    }
}

} // verus!
