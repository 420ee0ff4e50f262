//! Slots that hold values under indices that go stale when a value leaves.
use vstd::prelude::*;

verus! {

/// The place of a value in a pool, and how often that place was emptied before.
#[derive(Clone, Copy, Debug, PartialEq, Eq, Structural, Hash)]
pub struct PoolIndex {
    pub slot: u32,
    pub generation: u32,
}

/// The number that both halves of an index make.
pub open spec fn packed(index: PoolIndex) -> u64 {
    (index.generation * 0x1_0000_0000 + index.slot) as u64
}

pub open spec fn unpacked(value: u64) -> PoolIndex {
    PoolIndex {
        slot: (value % 0x1_0000_0000) as u32,
        generation: (value / 0x1_0000_0000) as u32,
    }
}

impl PoolIndex {
    pub fn new(slot: u32, generation: u32) -> (r: PoolIndex)
        ensures
            r == (PoolIndex { slot, generation }),
    {
        PoolIndex { slot, generation }
    }

    pub fn slot(self) -> (r: u32)
        ensures
            r == self.slot,
    {
        self.slot
    }

    pub fn generation(self) -> (r: u32)
        ensures
            r == self.generation,
    {
        self.generation
    }
}

pub fn pool_index_to_bihash_value(index: PoolIndex) -> (r: u64)
    ensures
        r == packed(index),
{
    index.generation as u64 * 0x1_0000_0000 + index.slot as u64
}

pub fn pool_index_from_bihash_value(value: u64) -> (r: PoolIndex)
    ensures
        r == unpacked(value),
{
    PoolIndex {
        slot: (value % 0x1_0000_0000) as u32,
        generation: (value / 0x1_0000_0000) as u32,
    }
}

/// An index survives the way into a table value and back.
pub proof fn index_round_trip(index: PoolIndex)
    ensures
        unpacked(packed(index)) == index,
{
}

/// So does a table value.
pub proof fn value_round_trip(value: u64)
    ensures
        packed(unpacked(value)) == value,
{
}

#[derive(Clone, Copy, Debug)]
struct PoolSlot<T> {
    generation: u32,
    value: Option<T>,
}

/// Up to a fixed number of values. An index that a value had is not valid for a
/// value that takes its place, until the place was emptied 2^32 times.
#[derive(Debug)]
pub struct Pool<T> {
    slots: Vec<PoolSlot<T>>,
    free: Vec<u32>,
    capacity: usize,
}

impl<T: Copy> View for Pool<T> {
    type V = Map<PoolIndex, T>;

    closed spec fn view(&self) -> Map<PoolIndex, T> {
        Map::new(
            |index: PoolIndex| self.live(index),
            |index: PoolIndex| self.slots@[index.slot as int].value->0,
        )
    }
}

impl<T: Copy> Pool<T> {
    spec fn live(self, index: PoolIndex) -> bool {
        &&& index.slot < self.slots@.len()
        &&& self.slots@[index.slot as int].generation == index.generation
        &&& self.slots@[index.slot as int].value is Some
    }

    /// How many values the pool can hold.
    pub closed spec fn spec_capacity(self) -> nat {
        self.capacity as nat
    }

    pub closed spec fn well_formed(self) -> bool {
        &&& self.slots@.len() <= self.capacity <= u32::MAX
        &&& self.free@.no_duplicates()
        &&& forall|k: int|
            0 <= k < self.free@.len() ==> (#[trigger] self.free@[k]) < self.slots@.len()
                && self.slots@[self.free@[k] as int].value is None
        &&& self@.dom().finite()
        &&& self@.dom().len() + self.free@.len() == self.slots@.len()
    }

    /// A pool holds finitely many values, no more than its capacity.
    pub proof fn lemma_bounded(self)
        requires
            self.well_formed(),
        ensures
            self@.dom().finite(),
            self@.dom().len() <= self.spec_capacity(),
    {
    }

    pub fn with_capacity(capacity: u32) -> (r: Self)
        ensures
            r.well_formed(),
            r.spec_capacity() == capacity,
            r@ == Map::<PoolIndex, T>::empty(),
    {
        let r = Pool { slots: Vec::new(), free: Vec::new(), capacity: capacity as usize };
        proof {
            assert(r@ =~= Map::<PoolIndex, T>::empty());
        }
        r
    }

    pub fn len(&self) -> (r: usize)
        requires
            self.well_formed(),
        ensures
            r == self@.dom().len(),
    {
        self.slots.len() - self.free.len()
    }

    pub fn get(&self, index: PoolIndex) -> (r: Option<T>)
        ensures
            r == (if self@.contains_key(index) {
                Some(self@[index])
            } else {
                None
            }),
    {
        if index.slot as usize >= self.slots.len() {
            return None;
        }
        let slot = self.slots[index.slot as usize];
        if slot.generation != index.generation {
            return None;
        }
        slot.value
    }

    /// Puts a value in and returns its index, or nothing if the pool is full.
    pub fn insert(&mut self, value: T) -> (r: Option<PoolIndex>)
        requires
            old(self).well_formed(),
        ensures
            final(self).well_formed(),
            final(self).spec_capacity() == old(self).spec_capacity(),
            match r {
                Some(index) => {
                    &&& old(self)@.dom().len() < old(self).spec_capacity()
                    &&& !old(self)@.contains_key(index)
                    &&& final(self)@ == old(self)@.insert(index, value)
                },
                None => {
                    &&& old(self)@.dom().len() >= old(self).spec_capacity()
                    &&& final(self)@ == old(self)@
                },
            },
    {
        match self.free.pop() {
            Some(slot) => {
                let generation: u32 = self.slots[slot as usize].generation;
                self.slots.set(slot as usize, PoolSlot { generation, value: Some(value) });
                let index = PoolIndex { slot, generation };
                proof {
                    let freed = old(self).free@;
                    assert(freed[freed.len() - 1] == slot);
                    assert(self@ =~= old(self)@.insert(index, value));
                    assert forall|k: int| 0 <= k < self.free@.len() implies (
                    #[trigger] self.free@[k]) < self.slots@.len()
                        && self.slots@[self.free@[k] as int].value is None by {
                        assert(self.free@[k] == freed[k]);
                        assert(freed[k] != freed[freed.len() - 1]);
                    }
                }
                Some(index)
            },
            None => {
                if self.slots.len() >= self.capacity {
                    proof {
                        assert(self@ =~= old(self)@);
                    }
                    return None;
                }
                let slot: u32 = self.slots.len() as u32;
                self.slots.push(PoolSlot { generation: 0, value: Some(value) });
                let index = PoolIndex { slot, generation: 0 };
                proof {
                    assert(self@ =~= old(self)@.insert(index, value));
                }
                Some(index)
            },
        }
    }

    /// Replaces the value under a valid index.
    pub fn replace(&mut self, index: PoolIndex, value: T)
        requires
            old(self).well_formed(),
            old(self)@.contains_key(index),
        ensures
            final(self).well_formed(),
            final(self).spec_capacity() == old(self).spec_capacity(),
            final(self)@ == old(self)@.insert(index, value),
    {
        self.slots.set(
            index.slot as usize,
            PoolSlot { generation: index.generation, value: Some(value) },
        );
        proof {
            assert(self@ =~= old(self)@.insert(index, value));
        }
    }

    /// Takes a value out, if the index is valid.
    pub fn remove(&mut self, index: PoolIndex) -> (r: Option<T>)
        requires
            old(self).well_formed(),
        ensures
            final(self).well_formed(),
            final(self).spec_capacity() == old(self).spec_capacity(),
            final(self)@ == old(self)@.remove(index),
            r == (if old(self)@.contains_key(index) {
                Some(old(self)@[index])
            } else {
                None
            }),
    {
        let Some(value) = self.get(index) else {
            proof {
                assert(self@ =~= old(self)@.remove(index));
            }
            return None;
        };
        let generation: u32 = index.generation.wrapping_add(1);
        self.slots.set(index.slot as usize, PoolSlot { generation, value: None });
        self.free.push(index.slot);
        proof {
            assert(self@ =~= old(self)@.remove(index));
            let freed = old(self).free@;
            assert forall|k: int| 0 <= k < freed.len() implies freed[k] != index.slot by {
                assert(old(self).slots@[freed[k] as int].value is None);
            }
            assert(self.free@.no_duplicates());
        }
        Some(value)
    }

    /// The indices in use, by place.
    pub fn indices(&self) -> (r: Vec<PoolIndex>)
        requires
            self.well_formed(),
        ensures
            forall|k: int| 0 <= k < r@.len() ==> self@.contains_key(#[trigger] r@[k]),
            forall|index: PoolIndex| self@.contains_key(index) ==> r@.contains(index),
            r@.no_duplicates(),
    {
        let mut out: Vec<PoolIndex> = Vec::new();
        let mut i: usize = 0;
        while i < self.slots.len()
            invariant
                i <= self.slots.len(),
                self.slots@.len() <= u32::MAX,
                forall|k: int|
                    0 <= k < out@.len() ==> self@.contains_key(#[trigger] out@[k]) && out@[k].slot
                        < i,
                forall|index: PoolIndex|
                    self@.contains_key(index) && index.slot < i ==> #[trigger] out@.contains(index),
                out@.no_duplicates(),
            decreases self.slots.len() - i,
        {
            let slot = self.slots[i];
            let ghost before = out@;
            if slot.value.is_some() {
                let index = PoolIndex { slot: i as u32, generation: slot.generation };
                out.push(index);
                proof {
                    assert(self.live(index));
                    assert(out@[before.len() as int] == index);
                    assert forall|other: PoolIndex|
                        self@.contains_key(other) && other.slot < i
                            + 1 implies #[trigger] out@.contains(other) by {
                        if other.slot == i {
                            assert(self.live(other));
                            assert(other == index);
                        } else {
                            assert(before.contains(other));
                            let k = choose|k: int| 0 <= k < before.len() && before[k] == other;
                            assert(out@[k] == other);
                        }
                    }
                }
            } else {
                proof {
                    assert forall|other: PoolIndex|
                        self@.contains_key(other) && other.slot < i
                            + 1 implies #[trigger] out@.contains(other) by {
                        assert(self.live(other));
                    }
                }
            }
            i = i + 1;
        }
        proof {
            assert forall|index: PoolIndex| self@.contains_key(index) implies out@.contains(
                index,
            ) by {
                assert(self.live(index));
            }
        }
        out
    }
}

} // verus!
