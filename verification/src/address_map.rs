//! A map from addresses to values that remembers the order in which the
//! addresses were first set.

use vstd::prelude::*;
use crate::address::Address;

verus! {

/// A map keyed by address. Its view is the mathematical map from each key
/// to its value.
#[derive(Debug)]
pub struct AddressMap<V> {
    /// The keys in the order in which they were first set.
    pub keys: Vec<Address>,
    /// The value of each key, at the key's position.
    pub values: Vec<V>,
}

/// Position of `key` among `keys`, where it occurs.
pub open spec fn key_index(keys: Seq<Address>, key: Address) -> int {
    choose|i: int| 0 <= i < keys.len() && keys[i] == key
}

impl<V> View for AddressMap<V> {
    type V = Map<Address, V>;

    open spec fn view(&self) -> Map<Address, V> {
        Map::new(
            |key: Address| self.keys@.contains(key),
            |key: Address| self.values@[key_index(self.keys@, key)],
        )
    }
}

impl<V> AddressMap<V> {
    /// Every key has one value and occurs once.
    pub open spec fn wf(&self) -> bool {
        self.keys@.len() == self.values@.len() && self.keys@.no_duplicates()
    }

    /// In a well-formed map the key at position `i` has the value at `i`.
    pub proof fn lemma_entry(&self, i: int)
        requires
            self.wf(),
            0 <= i < self.keys@.len(),
        ensures
            self@.dom().contains(self.keys@[i]),
            self@[self.keys@[i]] == self.values@[i],
            key_index(self.keys@, self.keys@[i]) == i,
    {
    }

    /// The empty map.
    pub fn new() -> (map: AddressMap<V>)
        ensures
            map.wf(),
            map@ == Map::<Address, V>::empty(),
    {
        let map = AddressMap { keys: Vec::new(), values: Vec::new() };
        assert(map@ =~= Map::<Address, V>::empty());
        map
    }

    /// Whether every key has one value and occurs once.
    pub fn is_well_formed(&self) -> (r: bool)
        ensures
            r == self.wf(),
    {
        let n = self.keys.len();
        if self.values.len() != n {
            return false;
        }
        let mut i: usize = 0;
        while i < n
            invariant
                n == self.keys@.len(),
                i <= n,
                forall|a: int, b: int|
                    0 <= a < i && 0 <= b < a ==> self.keys@[a] != self.keys@[b],
            decreases n - i,
        {
            let mut j: usize = 0;
            while j < i
                invariant
                    n == self.keys@.len(),
                    i < n,
                    j <= i,
                    forall|b: int| 0 <= b < j ==> self.keys@[i as int] != self.keys@[b],
                decreases i - j,
            {
                if self.keys[j] == self.keys[i] {
                    return false;
                }
                j = j + 1;
            }
            i = i + 1;
        }
        assert forall|a: int, b: int|
            0 <= a < self.keys@.len() && 0 <= b < self.keys@.len() && a
                != b implies self.keys@[a] != self.keys@[b] by {
            if b < a {
            } else {
                assert(self.keys@[b] != self.keys@[a]);
            }
        }
        true
    }

    /// Number of keys.
    pub fn len(&self) -> (n: usize)
        ensures
            n == self.keys@.len(),
    {
        self.keys.len()
    }

    /// Position of `key`, if it is set.
    pub fn position(&self, key: &Address) -> (r: Option<usize>)
        ensures
            r is Some <==> self.keys@.contains(*key),
            r matches Some(i) ==> i < self.keys@.len() && self.keys@[i as int] == *key,
    {
        let mut i: usize = 0;
        while i < self.keys.len()
            invariant
                i <= self.keys@.len(),
                forall|j: int| 0 <= j < i ==> self.keys@[j] != *key,
            decreases self.keys@.len() - i,
        {
            if self.keys[i] == *key {
                return Some(i);
            }
            i = i + 1;
        }
        None
    }

    /// Whether `key` is set.
    pub fn contains_key(&self, key: &Address) -> (r: bool)
        ensures
            r == self@.dom().contains(*key),
    {
        self.position(key).is_some()
    }

    /// The value of `key`, if it is set.
    pub fn get(&self, key: &Address) -> (r: Option<&V>)
        requires
            self.wf(),
        ensures
            r is Some <==> self@.dom().contains(*key),
            r matches Some(value) ==> *value == self@[*key],
    {
        match self.position(key) {
            Some(i) => {
                proof {
                    self.lemma_entry(i as int);
                }
                Some(&self.values[i])
            },
            None => None,
        }
    }

    /// Sets the value of `key`, replacing the one it had.
    pub fn set(&mut self, key: Address, value: V)
        requires
            old(self).wf(),
        ensures
            final(self).wf(),
            final(self)@ == old(self)@.insert(key, value),
            old(self)@.dom().contains(key) ==> final(self).keys@ == old(self).keys@,
            !old(self)@.dom().contains(key) ==> final(self).keys@ == old(self).keys@.push(key),
    {
        match self.position(&key) {
            Some(i) => {
                self.values.set(i, value);
                proof {
                    assert forall|other: Address| self@.dom().contains(other) implies self@[other]
                        == old(self)@.insert(key, value)[other] by {
                        let j = key_index(self.keys@, other);
                        old(self).lemma_entry(j);
                    }
                    assert(self@ =~= old(self)@.insert(key, value));
                }
            },
            None => {
                self.keys.push(key);
                self.values.push(value);
                proof {
                    let n = old(self).keys@.len() as int;
                    assert(self.keys@[n] == key);
                    assert forall|other: Address| old(self).keys@.contains(other) implies self.keys@.contains(
                        other,
                    ) by {
                        let j = key_index(old(self).keys@, other);
                        assert(self.keys@[j] == other);
                    }
                    assert forall|other: Address| self@.dom().contains(other) implies self@[other]
                        == old(self)@.insert(key, value)[other] by {
                        let j = key_index(self.keys@, other);
                        if j < n {
                            old(self).lemma_entry(j);
                        }
                    }
                    assert(self@ =~= old(self)@.insert(key, value));
                }
            },
        }
    }
}

} // verus!
