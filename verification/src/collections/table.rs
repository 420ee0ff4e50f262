//! A hash table from small keys to words.
use vstd::prelude::*;

verus! {

/// A key that can be hashed and compared.
pub trait TableKey: Copy {
    spec fn spec_hash(self) -> u64;

    fn hash(self) -> (r: u64)
        ensures
            r == self.spec_hash(),
    ;

    fn same(self, other: Self) -> (r: bool)
        ensures
            r == (self == other),
    ;
}

impl TableKey for u32 {
    open spec fn spec_hash(self) -> u64 {
        crate::collections::hashing::mixed(self as u64)
    }

    fn hash(self) -> (r: u64) {
        crate::collections::hashing::splitmix64(self as u64)
    }

    fn same(self, other: Self) -> (r: bool) {
        self == other
    }
}

impl TableKey for u64 {
    open spec fn spec_hash(self) -> u64 {
        crate::collections::hashing::mixed(self)
    }

    fn hash(self) -> (r: u64) {
        crate::collections::hashing::splitmix64(self)
    }

    fn same(self, other: Self) -> (r: bool) {
        self == other
    }
}

/// Where `key` stands in a chain, or the length of the chain.
pub open spec fn place_in<K: TableKey>(chain: Seq<(K, u64)>, key: K) -> int
    decreases chain.len(),
{
    if chain.len() == 0 {
        0
    } else if chain.last().0 == key {
        chain.len() - 1
    } else {
        let earlier = place_in(chain.drop_last(), key);
        if earlier == chain.len() - 1 {
            chain.len() as int
        } else {
            earlier
        }
    }
}

/// No key stands twice in a chain.
pub open spec fn keys_differ<K: TableKey>(chain: Seq<(K, u64)>) -> bool {
    forall|i: int, j: int|
        0 <= i < j < chain.len() ==> (#[trigger] chain[i]).0 != (#[trigger] chain[j]).0
}

proof fn lemma_place_bounds<K: TableKey>(chain: Seq<(K, u64)>, key: K)
    ensures
        0 <= place_in(chain, key) <= chain.len(),
        place_in(chain, key) < chain.len() ==> chain[place_in(chain, key)].0 == key,
        place_in(chain, key) == chain.len() ==> forall|i: int|
            0 <= i < chain.len() ==> (#[trigger] chain[i]).0 != key,
    decreases chain.len(),
{
    if chain.len() > 0 {
        lemma_place_bounds(chain.drop_last(), key);
        if place_in(chain, key) == chain.len() {
            assert forall|i: int| 0 <= i < chain.len() implies (#[trigger] chain[i]).0 != key by {
                if i < chain.len() - 1 {
                    assert(chain.drop_last()[i] == chain[i]);
                }
            }
        }
    }
}

proof fn lemma_place_at<K: TableKey>(chain: Seq<(K, u64)>, key: K, i: int)
    requires
        keys_differ(chain),
        0 <= i < chain.len(),
        chain[i].0 == key,
    ensures
        place_in(chain, key) == i,
{
    lemma_place_bounds(chain, key);
    let p = place_in(chain, key);
    if p < chain.len() && p != i {
        if p < i {
            assert(chain[p].0 != chain[i].0);
        } else {
            assert(chain[i].0 != chain[p].0);
        }
    }
}

proof fn lemma_place_absent<K: TableKey>(chain: Seq<(K, u64)>, key: K)
    requires
        forall|i: int| 0 <= i < chain.len() ==> (#[trigger] chain[i]).0 != key,
    ensures
        place_in(chain, key) == chain.len(),
{
    lemma_place_bounds(chain, key);
}

/// A map from keys to words, with one chain for each remainder of the hash.
#[derive(Debug)]
pub struct KeyTable<K> {
    chains: Vec<Vec<(K, u64)>>,
}

impl<K: TableKey> View for KeyTable<K> {
    type V = Map<K, u64>;

    closed spec fn view(&self) -> Map<K, u64> {
        Map::new(
            |key: K| place_in(self.chain(key), key) < self.chain(key).len(),
            |key: K| self.chain(key)[place_in(self.chain(key), key)].1,
        )
    }
}

impl<K: TableKey> KeyTable<K> {
    spec fn home(self, key: K) -> int {
        key.spec_hash() as int % self.chains@.len() as int
    }

    spec fn chain(self, key: K) -> Seq<(K, u64)> {
        self.chains@[self.home(key)]@
    }

    pub closed spec fn well_formed(self) -> bool {
        &&& self.chains@.len() > 0
        &&& forall|c: int|
            0 <= c < self.chains@.len() ==> keys_differ((#[trigger] self.chains@[c])@)
        &&& self.homed()
    }

    /// An empty table with `chains` chains, at least one.
    pub fn new(chains: u32) -> (r: Self)
        ensures
            r.well_formed(),
            r@ == Map::<K, u64>::empty(),
    {
        let mut list: Vec<Vec<(K, u64)>> = Vec::new();
        list.push(Vec::new());
        let mut i: u32 = 1;
        while i < chains
            invariant
                1 <= i,
                i == list@.len(),
                chains >= 1 ==> i <= chains,
                forall|c: int|
                    0 <= c < list@.len() ==> (#[trigger] list@[c])@ == Seq::<(K, u64)>::empty(),
            decreases chains - i,
        {
            list.push(Vec::new());
            i = i + 1;
        }
        let r = KeyTable { chains: list };
        proof {
            assert forall|key: K| !r@.contains_key(key) by {
                lemma_home_in_range(key.spec_hash() as int, r.chains@.len() as int);
                assert(r.chains@[r.home(key)]@ == Seq::<(K, u64)>::empty());
            }
            assert(r@ =~= Map::<K, u64>::empty());
        }
        r
    }

    fn home_of(&self, key: K) -> (r: usize)
        requires
            self.chains@.len() > 0,
        ensures
            r == self.home(key),
            r < self.chains@.len(),
    {
        proof {
            lemma_home_in_range(key.spec_hash() as int, self.chains@.len() as int);
        }
        let hash: u64 = key.hash();
        (hash % self.chains.len() as u64) as usize
    }

    fn find(&self, home: usize, key: K) -> (r: usize)
        requires
            home < self.chains@.len(),
            keys_differ(self.chains@[home as int]@),
        ensures
            r == place_in(self.chains@[home as int]@, key),
            r <= self.chains@[home as int]@.len(),
    {
        let chain = &self.chains[home];
        let mut i: usize = 0;
        while i < chain.len()
            invariant
                i <= chain@.len(),
                home < self.chains@.len(),
                chain@ == self.chains@[home as int]@,
                keys_differ(chain@),
                forall|k: int| 0 <= k < i ==> (#[trigger] chain@[k]).0 != key,
            decreases chain@.len() - i,
        {
            if chain[i].0.same(key) {
                proof {
                    lemma_place_at(chain@, key, i as int);
                }
                return i;
            }
            i = i + 1;
        }
        proof {
            lemma_place_absent(chain@, key);
        }
        i
    }

    pub fn lookup(&self, key: K) -> (r: Option<u64>)
        requires
            self.well_formed(),
        ensures
            r == (if self@.contains_key(key) {
                Some(self@[key])
            } else {
                None
            }),
    {
        let home: usize = self.home_of(key);
        let place: usize = self.find(home, key);
        if place < self.chains[home].len() {
            Some(self.chains[home][place].1)
        } else {
            None
        }
    }

    pub fn insert(&mut self, key: K, value: u64)
        requires
            old(self).well_formed(),
        ensures
            final(self).well_formed(),
            final(self)@ == old(self)@.insert(key, value),
    {
        let home: usize = self.home_of(key);
        let place: usize = self.find(home, key);
        let ghost before = self.chains@;
        let ghost chain = self.chains@[home as int]@;
        if place < self.chains[home].len() {
            self.chains[home].set(place, (key, value));
            proof {
                let after = chain.update(place as int, (key, value));
                assert(self.chains@[home as int]@ == after);
                lemma_place_bounds(chain, key);
                assert(keys_differ(after));
                self.lemma_inserted(*old(self), home as int, key, value);
            }
        } else {
            self.chains[home].push((key, value));
            proof {
                let after = chain.push((key, value));
                assert(self.chains@[home as int]@ == after);
                lemma_place_bounds(chain, key);
                assert(keys_differ(after));
                self.lemma_inserted(*old(self), home as int, key, value);
            }
        }
    }

    pub fn remove(&mut self, key: K)
        requires
            old(self).well_formed(),
        ensures
            final(self).well_formed(),
            final(self)@ == old(self)@.remove(key),
    {
        let home: usize = self.home_of(key);
        let place: usize = self.find(home, key);
        let ghost chain = self.chains@[home as int]@;
        if place >= self.chains[home].len() {
            proof {
                assert(self@ =~= old(self)@.remove(key));
            }
            return;
        }
        let _ = self.chains[home].remove(place);
        proof {
            let after = chain.remove(place as int);
            assert(self.chains@[home as int]@ == after);
            lemma_place_bounds(chain, key);
            assert forall|i: int, j: int| 0 <= i < j < after.len() implies (
            #[trigger] after[i]).0 != (#[trigger] after[j]).0 by {
                let i0 = if i < place {
                    i
                } else {
                    i + 1
                };
                let j0 = if j < place {
                    j
                } else {
                    j + 1
                };
                assert(after[i] == chain[i0]);
                assert(after[j] == chain[j0]);
            }
            let expected = old(self)@.remove(key);
            assert forall|other: K| #[trigger] self@.dom().contains(other)
                == expected.dom().contains(other) by {
                self.lemma_removed(*old(self), home as int, place as int, key, other);
            }
            assert forall|other: K| #[trigger] self@.dom().contains(other) implies self@[other]
                == expected[other] by {
                self.lemma_removed(*old(self), home as int, place as int, key, other);
            }
            assert(self@.dom() =~= expected.dom());
            assert(self@ =~= expected);
        }
    }

    /// The keys with their values, in no order of note.
    pub fn pairs(&self) -> (r: Vec<(K, u64)>)
        ensures
            self.well_formed() ==> self.listed(r@),
    {
        let mut out: Vec<(K, u64)> = Vec::new();
        let mut c: usize = 0;
        while c < self.chains.len()
            invariant
                c <= self.chains@.len(),
                self.well_formed() ==> self.listed_before(out@, c as int),
            decreases self.chains@.len() - c,
        {
            let ghost before = out@;
            let chain = &self.chains[c];
            let mut k: usize = 0;
            while k < chain.len()
                invariant
                    c < self.chains@.len(),
                    k <= chain@.len(),
                    chain@ == self.chains@[c as int]@,
                    out@ == before + chain@.take(k as int),
                decreases chain@.len() - k,
            {
                out.push(chain[k]);
                k = k + 1;
                assert(out@ =~= before + chain@.take(k as int));
            }
            proof {
                assert(out@ =~= before + chain@);
                if self.well_formed() {
                    self.lemma_chain_listed(before, c as int);
                }
            }
            c = c + 1;
        }
        proof {
            if self.well_formed() {
                assert forall|key: K| #[trigger] self@.contains_key(key) implies exists|i: int|
                    0 <= i < out@.len() && (#[trigger] out@[i]).0 == key by {
                    lemma_home_in_range(key.spec_hash() as int, self.chains@.len() as int);
                }
            }
        }
        out
    }

    /// `pairs` holds exactly the keys of the table with their values.
    pub open spec fn listed(self, pairs: Seq<(K, u64)>) -> bool {
        &&& forall|i: int|
            0 <= i < pairs.len() ==> self@.contains_key((#[trigger] pairs[i]).0)
                && self@[pairs[i].0] == pairs[i].1
        &&& forall|key: K| #[trigger]
            self@.contains_key(key) ==> exists|i: int|
                0 <= i < pairs.len() && (#[trigger] pairs[i]).0 == key
    }

    /// `pairs` holds exactly the keys of the first `count` chains.
    spec fn listed_before(self, pairs: Seq<(K, u64)>, count: int) -> bool {
        &&& forall|i: int|
            0 <= i < pairs.len() ==> self@.contains_key((#[trigger] pairs[i]).0)
                && self@[pairs[i].0] == pairs[i].1
        &&& forall|key: K| #[trigger]
            self@.contains_key(key) && self.home(key) < count ==> exists|i: int|
                0 <= i < pairs.len() && (#[trigger] pairs[i]).0 == key
    }

    proof fn lemma_chain_listed(self, pairs: Seq<(K, u64)>, c: int)
        requires
            self.well_formed(),
            0 <= c < self.chains@.len(),
            self.listed_before(pairs, c),
        ensures
            self.listed_before(pairs + self.chains@[c]@, c + 1),
    {
        let chain = self.chains@[c]@;
        let after = pairs + chain;
        assert forall|i: int| 0 <= i < after.len() implies self@.contains_key(
            (#[trigger] after[i]).0,
        ) && self@[after[i].0] == after[i].1 by {
            if i < pairs.len() {
                assert(after[i] == pairs[i]);
            } else {
                let k = i - pairs.len();
                assert(after[i] == chain[k]);
                assert(self.home(self.chains@[c]@[k].0) == c);
                lemma_place_at(chain, chain[k].0, k);
            }
        }
        assert forall|key: K| #[trigger] self@.contains_key(key) && self.home(key) < c
            + 1 implies exists|i: int| 0 <= i < after.len() && (#[trigger] after[i]).0 == key by {
            if self.home(key) == c {
                let p = place_in(chain, key);
                lemma_place_bounds(chain, key);
                assert(after[pairs.len() + p].0 == key);
            } else {
                let i = choose|i: int| 0 <= i < pairs.len() && (#[trigger] pairs[i]).0 == key;
                assert(after[i].0 == key);
            }
        }
    }

    /// Every key stands in the chain of its hash.
    spec fn homed(self) -> bool {
        forall|c: int, i: int|
            0 <= c < self.chains@.len() && 0 <= i < self.chains@[c]@.len() ==> self.home(
                (#[trigger] self.chains@[c]@[i]).0,
            ) == c
    }

    proof fn lemma_inserted(self, old_table: Self, home: int, key: K, value: u64)
        requires
            old_table.well_formed(),
            home == old_table.home(key),
            0 <= home < old_table.chains@.len(),
            self.chains@.len() == old_table.chains@.len(),
            forall|c: int|
                0 <= c < self.chains@.len() && c != home ==> self.chains@[c]
                    == old_table.chains@[c],
            keys_differ(self.chains@[home]@),
            ({
                let chain = old_table.chains@[home]@;
                let place = place_in(chain, key);
                self.chains@[home]@ == (if place < chain.len() {
                    chain.update(place, (key, value))
                } else {
                    chain.push((key, value))
                })
            }),
        ensures
            self@ == old_table@.insert(key, value),
    {
        let chain = old_table.chains@[home]@;
        let after = self.chains@[home]@;
        let place = place_in(chain, key);
        lemma_place_bounds(chain, key);
        lemma_place_at(after, key, place);
        let expected = old_table@.insert(key, value);
        assert forall|other: K| #[trigger] self@.dom().contains(other) == expected.dom().contains(
            other,
        ) && (self@.dom().contains(other) ==> self@[other] == expected[other]) by {
            lemma_home_in_range(other.spec_hash() as int, self.chains@.len() as int);
            if other != key && self.home(other) == home {
                lemma_place_bounds(chain, other);
                lemma_place_bounds(after, other);
                let p = place_in(chain, other);
                if p < chain.len() {
                    assert(after[p] == chain[p]);
                    lemma_place_at(after, other, p);
                } else {
                    assert forall|i: int| 0 <= i < after.len() implies (#[trigger] after[i]).0
                        != other by {
                        if i != place {
                            assert(after[i] == chain[i]);
                        }
                    }
                    lemma_place_absent(after, other);
                }
            }
        }
        assert(self@.dom() =~= expected.dom());
        assert(self@ =~= expected);
    }

    proof fn lemma_removed(self, old_table: Self, home: int, place: int, key: K, other: K)
        requires
            old_table.well_formed(),
            home == old_table.home(key),
            0 <= home < old_table.chains@.len(),
            self.chains@.len() == old_table.chains@.len(),
            forall|c: int|
                0 <= c < self.chains@.len() && c != home ==> self.chains@[c]
                    == old_table.chains@[c],
            keys_differ(self.chains@[home]@),
            place == place_in(old_table.chains@[home]@, key),
            place < old_table.chains@[home]@.len(),
            self.chains@[home]@ == old_table.chains@[home]@.remove(place),
        ensures
            self@.contains_key(other) == old_table@.remove(key).contains_key(other),
            self@.contains_key(other) ==> self@[other] == old_table@[other],
    {
        let chain = old_table.chains@[home]@;
        let after = self.chains@[home]@;
        lemma_home_in_range(other.spec_hash() as int, self.chains@.len() as int);
        lemma_place_bounds(chain, key);
        if self.home(other) == home {
            lemma_place_bounds(chain, other);
            lemma_place_bounds(after, other);
            if other == key {
                assert forall|i: int| 0 <= i < after.len() implies (#[trigger] after[i]).0 != key by {
                    let i0 = if i < place {
                        i
                    } else {
                        i + 1
                    };
                    assert(after[i] == chain[i0]);
                    if i0 < place {
                        assert(chain[i0].0 != chain[place].0);
                    } else {
                        assert(chain[place].0 != chain[i0].0);
                    }
                }
                lemma_place_absent(after, key);
            } else {
                let p = place_in(chain, other);
                if p < chain.len() {
                    let q = if p < place {
                        p
                    } else {
                        p - 1
                    };
                    assert(after[q] == chain[p]);
                    lemma_place_at(after, other, q);
                } else {
                    assert forall|i: int| 0 <= i < after.len() implies (#[trigger] after[i]).0
                        != other by {
                        let i0 = if i < place {
                            i
                        } else {
                            i + 1
                        };
                        assert(after[i] == chain[i0]);
                    }
                    lemma_place_absent(after, other);
                }
            }
        }
    }
}

proof fn lemma_home_in_range(hash: int, count: int)
    requires
        hash >= 0,
        count > 0,
    ensures
        0 <= hash % count < count,
{
}

} // verus!
