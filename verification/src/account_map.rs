//! A map keyed by account name.
//!
//! Accounts are few per contract and their names are short, so the map is a pair of
//! parallel vectors that is searched front to back. Its meaning is a `Map` from the
//! characters of the account name to the stored value.

use vstd::prelude::*;

verus! {

/// A map from account names to values of type `V`.
pub struct AccountMap<V> {
    keys: Vec<String>,
    values: Vec<V>,
}

impl<V> View for AccountMap<V> {
    type V = Map<Seq<char>, V>;

    closed spec fn view(&self) -> Map<Seq<char>, V> {
        Map::new(|key: Seq<char>| self.has(key), |key: Seq<char>| self.values[self.slot(key)])
    }
}

impl<V> AccountMap<V> {
    /// Some position holds `key`.
    spec fn has(&self, key: Seq<char>) -> bool {
        exists|i: int| 0 <= i < self.keys.len() && #[trigger] self.keys[i]@ == key
    }

    /// A position that holds `key`, if there is one.
    spec fn slot(&self, key: Seq<char>) -> int {
        choose|i: int| 0 <= i < self.keys.len() && #[trigger] self.keys[i]@ == key
    }

    /// Every key has a value beside it and no account name occurs twice.
    pub closed spec fn wf(&self) -> bool {
        &&& self.keys.len() == self.values.len()
        &&& forall|i: int, j: int|
            0 <= i < j < self.keys.len() ==> #[trigger] self.keys[i]@ != #[trigger] self.keys[j]@
    }

    /// In a well-formed map the position of a key is the only one that holds it.
    proof fn lemma_slot(&self, i: int)
        requires
            self.wf(),
            0 <= i < self.keys.len(),
        ensures
            self.has(self.keys[i]@),
            self.slot(self.keys[i]@) == i,
            self@.contains_key(self.keys[i]@),
            self@[self.keys[i]@] == self.values[i],
    {
        let key = self.keys[i]@;
        assert(self.has(key));
        let j = self.slot(key);
        assert(0 <= j < self.keys.len() && self.keys[j]@ == key);
        if j < i {
            assert(self.keys[j]@ != self.keys[i]@);
        } else if i < j {
            assert(self.keys[i]@ != self.keys[j]@);
        }
    }

    /// A map without entries.
    pub fn new() -> (map: Self)
        ensures
            map.wf(),
            map@ == Map::<Seq<char>, V>::empty(),
    {
        let map = AccountMap { keys: Vec::new(), values: Vec::new() };
        assert(map@ =~= Map::<Seq<char>, V>::empty());
        map
    }

    /// Where `key` is kept.
    fn position(&self, key: &String) -> (found: Option<usize>)
        requires
            self.wf(),
        ensures
            match found {
                Some(i) => i < self.keys.len() && self.keys[i as int]@ == key@ && self.has(key@)
                    && self.slot(key@) == i,
                None => !self.has(key@),
            },
    {
        let mut i: usize = 0;
        while i < self.keys.len()
            invariant
                self.wf(),
                i <= self.keys.len(),
                forall|j: int| 0 <= j < i ==> #[trigger] self.keys[j]@ != key@,
            decreases self.keys.len() - i,
        {
            if self.keys[i] == *key {
                proof {
                    self.lemma_slot(i as int);
                }
                return Some(i);
            }
            i += 1;
        }
        None
    }

    /// Whether `key` has an entry.
    pub fn contains_key(&self, key: &String) -> (found: bool)
        requires
            self.wf(),
        ensures
            found == self@.contains_key(key@),
    {
        self.position(key).is_some()
    }

    /// The value stored for `key`.
    pub fn get(&self, key: &String) -> (value: Option<&V>)
        requires
            self.wf(),
        ensures
            match value {
                Some(v) => self@.contains_key(key@) && *v == self@[key@],
                None => !self@.contains_key(key@),
            },
    {
        match self.position(key) {
            Some(i) => Some(&self.values[i]),
            None => None,
        }
    }

    /// Stores `value` for `key`, in place of what was stored for it before.
    pub fn insert(&mut self, key: String, value: V)
        requires
            old(self).wf(),
        ensures
            final(self).wf(),
            final(self)@ == old(self)@.insert(key@, value),
    {
        match self.position(&key) {
            Some(i) => {
                self.values.set(i, value);
                proof {
                    assert forall|k: Seq<char>| self.has(k) == old(self).has(k) by {
                        if self.has(k) {
                            let j = self.slot(k);
                            assert(old(self).keys[j]@ == k);
                        }
                        if old(self).has(k) {
                            let j = old(self).slot(k);
                            assert(self.keys[j]@ == k);
                        }
                    }
                    assert forall|k: Seq<char>| self.has(k) implies #[trigger] self@[k] == old(
                        self,
                    )@.insert(key@, value)[k] by {
                        let j = self.slot(k);
                        self.lemma_slot(j);
                        old(self).lemma_slot(j);
                    }
                    assert(self@ =~= old(self)@.insert(key@, value));
                }
            },
            None => {
                self.keys.push(key);
                self.values.push(value);
                proof {
                    let n = old(self).keys.len() as int;
                    assert forall|i: int, j: int| 0 <= i < j < self.keys.len() implies
                        #[trigger] self.keys[i]@ != #[trigger] self.keys[j]@ by {
                        if j == n {
                            assert(old(self).keys[i]@ == self.keys[i]@);
                            if self.keys[i]@ == key@ {
                                assert(old(self).has(key@));
                            }
                        } else {
                            assert(old(self).keys[i]@ != old(self).keys[j]@);
                        }
                    }
                    assert(self.wf());
                    self.lemma_slot(n);
                    assert forall|k: Seq<char>| old(self).has(k) implies self.has(k) && self@[k]
                        == old(self)@[k] by {
                        let j = old(self).slot(k);
                        assert(self.keys[j]@ == k);
                        self.lemma_slot(j);
                        old(self).lemma_slot(j);
                    }
                    assert forall|k: Seq<char>| self.has(k) && k != key@ implies old(self).has(
                        k,
                    ) by {
                        let j = self.slot(k);
                        assert(j != n);
                        assert(old(self).keys[j]@ == k);
                    }
                    assert(self@ =~= old(self)@.insert(key@, value));
                }
            },
        }
    }

    /// Takes out the entry of `key` and returns what was stored for it.
    pub fn remove(&mut self, key: &String) -> (value: Option<V>)
        requires
            old(self).wf(),
        ensures
            final(self).wf(),
            final(self)@ == old(self)@.remove(key@),
            match value {
                Some(v) => old(self)@.contains_key(key@) && v == old(self)@[key@],
                None => !old(self)@.contains_key(key@),
            },
    {
        match self.position(key) {
            Some(i) => {
                self.keys.remove(i);
                let value = self.values.remove(i);
                proof {
                    let at = i as int;
                    old(self).lemma_slot(at);
                    assert forall|a: int, b: int| 0 <= a < b < self.keys.len() implies
                        #[trigger] self.keys[a]@ != #[trigger] self.keys[b]@ by {
                        let a0 = if a < at { a } else { a + 1 };
                        let b0 = if b < at { b } else { b + 1 };
                        assert(old(self).keys[a0]@ != old(self).keys[b0]@);
                    }
                    assert(self.wf());
                    assert forall|k: Seq<char>| self.has(k) implies old(self).has(k) && k != key@
                        && self@[k] == old(self)@[k] by {
                        let j = self.slot(k);
                        let j0 = if j < at { j } else { j + 1 };
                        assert(old(self).keys[j0]@ == k);
                        if j0 < at {
                            assert(old(self).keys[j0]@ != old(self).keys[at]@);
                        } else {
                            assert(old(self).keys[at]@ != old(self).keys[j0]@);
                        }
                        self.lemma_slot(j);
                        old(self).lemma_slot(j0);
                    }
                    assert forall|k: Seq<char>| old(self).has(k) && k != key@ implies self.has(
                        k,
                    ) by {
                        let j0 = old(self).slot(k);
                        let j = if j0 < at { j0 } else { j0 - 1 };
                        assert(self.keys[j]@ == k);
                    }
                    assert(self@ =~= old(self)@.remove(key@));
                }
                Some(value)
            },
            None => {
                assert(self@ =~= old(self)@.remove(key@));
                None
            },
        }
    }
}

} // verus!
