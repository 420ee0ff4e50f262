//! Values in the order they came, found by key.
use vstd::prelude::*;

use crate::collections::table::{KeyTable, TableKey};

verus! {

/// A map that keeps its values side by side.
#[derive(Debug)]
pub struct IndexedValues<K, V> {
    values: Vec<V>,
    places: KeyTable<K>,
}

/// The values that the places lead to.
spec fn values_at<K, V>(places: Map<K, u64>, values: Seq<V>) -> Map<K, V> {
    Map::new(|key: K| places.contains_key(key), |key: K| values[places[key] as int])
}

impl<K: TableKey, V: Copy> View for IndexedValues<K, V> {
    type V = Map<K, V>;

    closed spec fn view(&self) -> Map<K, V> {
        values_at(self.places@, self.values@)
    }
}

impl<K: TableKey, V: Copy> IndexedValues<K, V> {
    pub closed spec fn well_formed(self) -> bool {
        &&& self.places.well_formed()
        &&& forall|key: K| #[trigger]
            self.places@.contains_key(key) ==> self.places@[key] < self.values@.len()
        &&& forall|a: K, b: K|
            self.places@.contains_key(a) && self.places@.contains_key(b) && a != b
                ==> #[trigger] self.places@[a] != #[trigger] self.places@[b]
        &&& self@.dom().finite()
        &&& self@.dom().len() == self.values@.len()
    }

    pub fn new(chains: u32) -> (r: Self)
        ensures
            r.well_formed(),
            r@ == Map::<K, V>::empty(),
    {
        let r = IndexedValues { values: Vec::new(), places: KeyTable::new(chains) };
        proof {
            assert(r@ =~= Map::<K, V>::empty());
        }
        r
    }

    /// How many keys have a value.
    pub fn len(&self) -> (r: usize)
        requires
            self.well_formed(),
        ensures
            r == self@.dom().len(),
    {
        self.values.len()
    }

    pub fn lookup(&self, key: K) -> (r: Option<V>)
        requires
            self.well_formed(),
        ensures
            r == (if self@.contains_key(key) {
                Some(self@[key])
            } else {
                None
            }),
    {
        let count: usize = self.values.len();
        match self.places.lookup(key) {
            Some(place) => {
                assert(place < count);
                Some(self.values[place as usize])
            },
            None => None,
        }
    }

    /// Gives a key a value, in place of the one it has.
    pub fn insert(&mut self, key: K, value: V)
        requires
            old(self).well_formed(),
        ensures
            final(self).well_formed(),
            final(self)@ == old(self)@.insert(key, value),
    {
        let count: usize = self.values.len();
        if let Some(place) = self.places.lookup(key) {
            assert(place < count);
            self.values.set(place as usize, value);
            proof {
                assert(self@ =~= old(self)@.insert(key, value));
                assert(self@.dom() =~= old(self)@.dom());
            }
            return;
        }
        self.values.push(value);
        self.places.insert(key, count as u64);
        proof {
            assert(self@ =~= old(self)@.insert(key, value));
            assert(self@.dom() =~= old(self)@.dom().insert(key));
        }
    }

    /// `other` holds the first `count` keys of `pairs`, with our values.
    spec fn covered(self, other: Self, pairs: Seq<(K, u64)>, count: int) -> bool {
        &&& forall|key: K| #[trigger]
            other@.contains_key(key) ==> self@.contains_key(key) && other@[key] == self@[key]
        &&& forall|k: int| 0 <= k < count ==> other@.contains_key((#[trigger] pairs[k]).0)
    }
}

impl<K: TableKey, V: Copy> Clone for IndexedValues<K, V> {
    fn clone(&self) -> (r: Self)
        ensures
            self.well_formed() ==> r.well_formed() && r@ == self@,
    {
        let mut cloned: IndexedValues<K, V> = IndexedValues::new(64);
        let pairs = self.places.pairs();
        let mut i: usize = 0;
        while i < pairs.len()
            invariant
                i <= pairs@.len(),
                cloned.well_formed(),
                self.well_formed() ==> self.places.listed(pairs@) && self.covered(
                    cloned,
                    pairs@,
                    i as int,
                ),
            decreases pairs@.len() - i,
        {
            let (key, place) = pairs[i];
            if place < self.values.len() as u64 {
                cloned.insert(key, self.values[place as usize]);
            }
            i = i + 1;
        }
        proof {
            if self.well_formed() {
                assert(cloned@ =~= self@);
            }
        }
        cloned
    }
}

} // verus!
