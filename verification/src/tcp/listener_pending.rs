//! Handshakes that a listener has answered and that are not complete yet.
//!
//! Each entry belongs to the epoch in which its SYN was last seen, and goes once
//! that epoch is out of the window. Entries are chained into one bucket for each
//! epoch of the window and one to spare, so that a whole epoch goes at once.
use vstd::prelude::*;

use crate::collections::pool;
use crate::collections::pool::{
    pool_index_from_bihash_value, pool_index_to_bihash_value, Pool, PoolIndex,
};
use crate::collections::table::KeyTable;
use crate::tcp::tuple;
use crate::tcp::tuple::{tcp_tuple, TcpTuple};
use crate::tcp::types::{SocketAddress, TcpCapabilities, TcpEndpoint, TcpTimestampOption};

verus! {

/// The name of a listener.
pub type TcpLookupId = u32;

pub const TCP_LISTENER_PENDING_ROTATION_SECS: u64 = 15;

/// How many epochs before the current one still count.
pub const TCP_LISTENER_PENDING_PREVIOUS_EPOCH_WINDOW: u32 = 1;

pub const TCP_LISTENER_BACKLOG_LIMIT: usize = 128;

pub const TCP_LISTENER_PENDING_BUCKET_COUNT: usize = 3;

pub const TCP_LISTENER_PENDING_CAPACITY: u32 = 1024;

/// One incomplete handshake.
#[derive(Clone, Copy, Debug, PartialEq, Eq, Structural)]
pub struct TcpListenerPendingEntry {
    pub listener_id: TcpLookupId,
    pub local: TcpEndpoint,
    pub remote: TcpEndpoint,
    pub client_sequence: u32,
    pub advertised_window: u16,
    pub capabilities: TcpCapabilities,
    pub timestamp: Option<TcpTimestampOption>,
    pub created_epoch: u32,
}

impl TcpListenerPendingEntry {
    pub open spec fn key(self) -> TcpTuple {
        TcpTuple { local: self.local, remote: self.remote }
    }
}

/// `epoch` is the current one or within the window before it.
pub open spec fn in_window(epoch: u32, current_epoch: u32) -> bool {
    epoch <= current_epoch <= epoch + TCP_LISTENER_PENDING_PREVIOUS_EPOCH_WINDOW
}

/// The entries that are left at `current_epoch`.
pub open spec fn pruned(
    entries: Map<TcpTuple, TcpListenerPendingEntry>,
    current_epoch: u32,
) -> Map<TcpTuple, TcpListenerPendingEntry> {
    Map::new(
        |key: TcpTuple|
            entries.contains_key(key) && in_window(entries[key].created_epoch, current_epoch),
        |key: TcpTuple| entries[key],
    )
}

/// The tuples that wait for one listener.
pub open spec fn waiting_for(
    entries: Map<TcpTuple, TcpListenerPendingEntry>,
    listener_id: TcpLookupId,
) -> Set<TcpTuple> {
    entries.dom().filter(|key: TcpTuple| entries[key].listener_id == listener_id)
}

/// How many handshakes a listener may have open.
pub open spec fn backlog_limit(backlog: usize) -> int {
    if backlog == 0 {
        1
    } else if backlog > TCP_LISTENER_BACKLOG_LIMIT {
        TCP_LISTENER_BACKLOG_LIMIT as int
    } else {
        backlog as int
    }
}

/// A new or refreshed SYN is admitted: its tuple is not another listener's, and
/// where it is new the listener's backlog and the table have room.
pub open spec fn admits(
    entries: Map<TcpTuple, TcpListenerPendingEntry>,
    entry: TcpListenerPendingEntry,
    backlog: usize,
) -> bool {
    &&& tuple::same_version(entry.local.ip, entry.remote.ip)
    &&& if entries.contains_key(entry.key()) {
        entries[entry.key()].listener_id == entry.listener_id
    } else {
        &&& waiting_for(entries, entry.listener_id).len() < backlog_limit(backlog)
        &&& entries.dom().len() < TCP_LISTENER_PENDING_CAPACITY
    }
}

#[derive(Debug)]
pub struct EpochBucket {
    epoch: u32,
    indices: Vec<PoolIndex>,
}

#[derive(Debug)]
pub struct TcpListenerPendingTable {
    entries: Pool<TcpListenerPendingEntry>,
    tuples: KeyTable<TcpTuple>,
    listener_counts: KeyTable<u32>,
    buckets: Vec<EpochBucket>,
    pruned_epoch: Option<u32>,
}

impl View for TcpListenerPendingTable {
    type V = Map<TcpTuple, TcpListenerPendingEntry>;

    closed spec fn view(&self) -> Map<TcpTuple, TcpListenerPendingEntry> {
        found_entries(self.tuples@, self.entries@)
    }
}

/// The entries that the tuple index leads to.
spec fn found_entries(
    tuples: Map<TcpTuple, u64>,
    entries: Map<PoolIndex, TcpListenerPendingEntry>,
) -> Map<TcpTuple, TcpListenerPendingEntry> {
    Map::new(
        |key: TcpTuple| tuples.contains_key(key),
        |key: TcpTuple| entries[pool::unpacked(tuples[key])],
    )
}

/// The bucket of an epoch.
spec fn bucket_of(epoch: u32) -> int {
    epoch as int % 3
}

spec fn stored_count(counts: Map<u32, u64>, listener_id: u32) -> int {
    if counts.contains_key(listener_id) {
        counts[listener_id] as int
    } else {
        0
    }
}

impl TcpListenerPendingTable {
    spec fn index_of(self, key: TcpTuple) -> PoolIndex {
        pool::unpacked(self.tuples@[key])
    }

    /// Entries and tuple index describe each other.
    spec fn linked(self) -> bool {
        &&& forall|index: PoolIndex| #[trigger]
            self.entries@.contains_key(index) ==> {
                let key = self.entries@[index].key();
                &&& self.tuples@.contains_key(key)
                &&& self.index_of(key) == index
                &&& tuple::same_version(key.local.ip, key.remote.ip)
            }
        &&& forall|key: TcpTuple| #[trigger]
            self.tuples@.contains_key(key) ==> {
                &&& self.entries@.contains_key(self.index_of(key))
                &&& self.entries@[self.index_of(key)].key() == key
            }
        &&& self@.dom().len() == self.entries@.dom().len()
        &&& self@.dom().finite()
    }

    /// The stored counts are those of the entries.
    spec fn counted(self) -> bool {
        &&& forall|listener_id: u32| #[trigger]
            stored_count(self.listener_counts@, listener_id) == waiting_for(
                self@,
                listener_id,
            ).len()
        &&& forall|listener_id: u32| #[trigger]
            self.listener_counts@.contains_key(listener_id)
                ==> self.listener_counts@[listener_id] > 0
    }

    /// Every entry of an epoch is chained into the bucket of that epoch.
    spec fn chained_at(self, index: PoolIndex) -> bool {
        let epoch = self.entries@[index].created_epoch;
        let bucket = self.buckets@[bucket_of(epoch)];
        bucket.epoch == epoch && bucket.indices@.contains(index)
    }

    spec fn chained(self) -> bool {
        forall|index: PoolIndex| #[trigger]
            self.entries@.contains_key(index) ==> self.chained_at(index)
    }

    /// After a prune nothing is left outside its window.
    spec fn prune_remembered(self) -> bool {
        self.pruned_epoch matches Some(epoch) ==> forall|index: PoolIndex| #[trigger]
            self.entries@.contains_key(index) ==> in_window(
                self.entries@[index].created_epoch,
                epoch,
            )
    }

    /// What holds even while entries are being chained.
    spec fn sound(self) -> bool {
        &&& self.entries.well_formed()
        &&& self.entries.spec_capacity() == TCP_LISTENER_PENDING_CAPACITY
        &&& self.tuples.well_formed()
        &&& self.listener_counts.well_formed()
        &&& self.buckets@.len() == 3
        &&& forall|b: int| 0 <= b < 3 ==> bucket_of((#[trigger] self.buckets@[b]).epoch) == b
        &&& self.linked()
        &&& self.counted()
    }

    pub closed spec fn well_formed(self) -> bool {
        &&& self.sound()
        &&& self.chained()
        &&& self.prune_remembered()
    }

    pub fn new() -> (r: Self)
        ensures
            r.well_formed(),
            r@ == Map::<TcpTuple, TcpListenerPendingEntry>::empty(),
    {
        let mut buckets: Vec<EpochBucket> = Vec::new();
        buckets.push(EpochBucket { epoch: 0, indices: Vec::new() });
        buckets.push(EpochBucket { epoch: 1, indices: Vec::new() });
        buckets.push(EpochBucket { epoch: 2, indices: Vec::new() });
        let r = TcpListenerPendingTable {
            entries: Pool::with_capacity(TCP_LISTENER_PENDING_CAPACITY),
            tuples: KeyTable::new(TCP_LISTENER_PENDING_CAPACITY),
            listener_counts: KeyTable::new(64),
            buckets,
            pruned_epoch: None,
        };
        proof {
            assert(r@ =~= Map::<TcpTuple, TcpListenerPendingEntry>::empty());
            assert forall|listener_id: u32| #[trigger]
                stored_count(r.listener_counts@, listener_id) == waiting_for(r@, listener_id).len() by {
                assert(waiting_for(r@, listener_id) =~= Set::<TcpTuple>::empty());
            }
        }
        r
    }

    fn lookup_tuple_index(&self, local: SocketAddress, remote: SocketAddress) -> (r: Option<
        PoolIndex,
    >)
        requires
            self.sound(),
        ensures
            ({
                let key = tuple::key_of(local, remote);
                r == (if self@.contains_key(key) {
                    Some(self.index_of(key))
                } else {
                    None
                })
            }),
    {
        let Some(key) = tcp_tuple(local, remote) else {
            proof {
                assert(!self.tuples@.contains_key(tuple::key_of(local, remote)));
            }
            return None;
        };
        match self.tuples.lookup(key) {
            Some(value) => Some(pool_index_from_bihash_value(value)),
            None => None,
        }
    }

    /// Takes the entry under `index` out of the entries, the tuple index and the
    /// counts.
    fn remove_index(&mut self, index: PoolIndex)
        requires
            old(self).sound(),
            old(self).entries@.contains_key(index),
        ensures
            final(self).sound(),
            final(self).entries@ == old(self).entries@.remove(index),
            final(self).buckets == old(self).buckets,
            final(self).pruned_epoch is None,
            final(self)@ == old(self)@.remove(old(self).entries@[index].key()),
            forall|key: TcpTuple| #[trigger]
                final(self)@.contains_key(key) ==> final(self).index_of(key) == old(self).index_of(
                    key,
                ),
    {
        let Some(entry) = self.entries.remove(index) else {
            return;
        };
        let key = TcpTuple { local: entry.local, remote: entry.remote };
        self.tuples.remove(key);
        let count: u64 = match self.listener_counts.lookup(entry.listener_id) {
            Some(count) => count,
            None => 0,
        };
        if count <= 1 {
            self.listener_counts.remove(entry.listener_id);
        } else {
            self.listener_counts.insert(entry.listener_id, count - 1);
        }
        self.pruned_epoch = None;
        proof {
            let before = old(self)@;
            old(self).entries.lemma_bounded();
            assert(before.contains_key(key));
            assert(self@ =~= before.remove(key));
            assert(self@.dom() =~= before.dom().remove(key));
            assert(self.entries@.dom() =~= old(self).entries@.dom().remove(index));
            assert forall|listener_id: u32| #[trigger]
                stored_count(self.listener_counts@, listener_id) == waiting_for(self@, listener_id).len() by {
                lemma_waiting_removed(before, key, listener_id);
                assert(stored_count(old(self).listener_counts@, listener_id) == waiting_for(before, listener_id).len());
            }
            assert forall|listener_id: u32| #[trigger]
                self.listener_counts@.contains_key(
                    listener_id,
                ) implies self.listener_counts@[listener_id] > 0 by {
                assert(old(self).listener_counts@.contains_key(listener_id));
            }
            assert forall|other: PoolIndex| #[trigger] self.entries@.contains_key(other) implies {
                let other_key = self.entries@[other].key();
                &&& self.tuples@.contains_key(other_key)
                &&& self.index_of(other_key) == other
                &&& tuple::same_version(other_key.local.ip, other_key.remote.ip)
            } by {
                assert(old(self).entries@.contains_key(other));
            }
            assert forall|other_key: TcpTuple| #[trigger]
                self.tuples@.contains_key(other_key) implies {
                &&& self.entries@.contains_key(self.index_of(other_key))
                &&& self.entries@[self.index_of(other_key)].key() == other_key
            } by {
                assert(old(self).tuples@.contains_key(other_key));
                assert(old(self).index_of(other_key) != index);
            }
        }
    }
}

impl TcpListenerPendingTable {
    /// Drops the entries of a bucket's epoch that are chained into it.
    fn prune_bucket(&mut self, bucket: usize)
        requires
            old(self).sound(),
            bucket < 3,
        ensures
            final(self).sound(),
            final(self).buckets@[bucket as int].indices@ == Seq::<PoolIndex>::empty(),
            final(self).buckets@[bucket as int].epoch == old(self).buckets@[bucket as int].epoch,
            forall|c: int|
                0 <= c < 3 && c != bucket ==> final(self).buckets@[c] == old(self).buckets@[c],
            forall|index: PoolIndex| #[trigger]
                final(self).entries@.contains_key(index) == (old(self).entries@.contains_key(index)
                    && !old(self).to_drop(bucket as int, index)),
            forall|index: PoolIndex| #[trigger]
                final(self).entries@.contains_key(index) ==> final(self).entries@[index]
                    == old(self).entries@[index],
            forall|key: TcpTuple| #[trigger]
                final(self)@.contains_key(key) == (old(self)@.contains_key(key) && !old(
                    self,
                ).to_drop(bucket as int, old(self).index_of(key))),
            forall|key: TcpTuple| #[trigger]
                final(self)@.contains_key(key) ==> final(self)@[key] == old(self)@[key],
            final(self).pruned_epoch is None || (final(self).pruned_epoch == old(self).pruned_epoch
                && final(self).entries@ == old(self).entries@),
    {
        let epoch: u32 = self.buckets[bucket].epoch;
        let ghost before = *self;
        let ghost chain = self.buckets@[bucket as int].indices@;
        while self.buckets[bucket].indices.len() > 0
            invariant
                bucket < 3,
                before == *old(self),
                before.sound(),
                self.sound(),
                epoch == before.buckets@[bucket as int].epoch,
                chain == before.buckets@[bucket as int].indices@,
                self.buckets@[bucket as int].epoch == epoch,
                self.buckets@[bucket as int].indices@.len() <= chain.len(),
                self.buckets@[bucket as int].indices@ == chain.take(
                    self.buckets@[bucket as int].indices@.len() as int,
                ),
                forall|c: int|
                    0 <= c < 3 && c != bucket ==> self.buckets@[c] == before.buckets@[c],
                forall|index: PoolIndex| #[trigger]
                    self.entries@.contains_key(index) ==> before.entries@.contains_key(index)
                        && self.entries@[index] == before.entries@[index],
                forall|index: PoolIndex| #[trigger]
                    before.entries@.contains_key(index) && !self.entries@.contains_key(index)
                        ==> before.to_drop(bucket as int, index),
                forall|k: int|
                    self.buckets@[bucket as int].indices@.len() <= k < chain.len()
                        ==> !self.entries@.contains_key(#[trigger] chain[k])
                        || self.entries@[chain[k]].created_epoch != epoch,
                forall|key: TcpTuple| #[trigger]
                    self@.contains_key(key) ==> before@.contains_key(key) && self.index_of(key)
                        == before.index_of(key),
                self.pruned_epoch is None || (self.pruned_epoch == before.pruned_epoch
                    && self.entries@ == before.entries@),
            decreases self.buckets@[bucket as int].indices@.len(),
        {
            let ghost earlier = *self;
            let ghost rest = self.buckets@[bucket as int].indices@;
            let popped = self.buckets[bucket].indices.pop();
            let Some(index) = popped else {
                continue;
            };
            proof {
                assert(self@ =~= earlier@);
                assert(index == chain[rest.len() - 1]);
                assert(self.buckets@[bucket as int].indices@ =~= chain.take(rest.len() - 1));
                assert forall|listener_id: u32| #[trigger]
                    stored_count(self.listener_counts@, listener_id) == waiting_for(self@, listener_id).len() by {
                    assert(stored_count(earlier.listener_counts@, listener_id) == waiting_for(
                        earlier@,
                        listener_id,
                    ).len());
                }
                assert(self.sound());
            }
            match self.entries.get(index) {
                Some(entry) => {
                    if entry.created_epoch == epoch {
                        proof {
                            assert(chain.contains(index));
                            assert(before.to_drop(bucket as int, index));
                        }
                        self.remove_index(index);
                    }
                },
                None => {},
            }
        }
        proof {
            assert forall|index: PoolIndex| #[trigger]
                self.entries@.contains_key(index) == (before.entries@.contains_key(index)
                    && !before.to_drop(bucket as int, index)) by {
                if before.entries@.contains_key(index) && before.to_drop(bucket as int, index) {
                    let k = choose|k: int| 0 <= k < chain.len() && chain[k] == index;
                    assert(chain[k] == index);
                }
            }
            assert forall|key: TcpTuple| #[trigger]
                self@.contains_key(key) == (before@.contains_key(key) && !before.to_drop(
                    bucket as int,
                    before.index_of(key),
                )) by {
                if self@.contains_key(key) {
                    assert(self.tuples@.contains_key(key));
                    assert(self.entries@.contains_key(self.index_of(key)));
                } else if before@.contains_key(key) {
                    assert(before.tuples@.contains_key(key));
                    let index = before.index_of(key);
                    assert(before.entries@.contains_key(index));
                    if self.entries@.contains_key(index) {
                        assert(self.entries@[index].key() == key);
                    }
                }
            }
            assert forall|key: TcpTuple| #[trigger] self@.contains_key(key) implies self@[key]
                == before@[key] by {
                assert(self.tuples@.contains_key(key));
                assert(self.entries@.contains_key(self.index_of(key)));
            }
        }
    }

    /// `index` is chained into the bucket and its entry is of the bucket's epoch.
    spec fn to_drop(self, bucket: int, index: PoolIndex) -> bool {
        &&& self.entries@.contains_key(index)
        &&& self.entries@[index].created_epoch == self.buckets@[bucket].epoch
        &&& self.buckets@[bucket].indices@.contains(index)
    }
}

/// Taking a tuple out takes one off its listener's count and no other.
proof fn lemma_waiting_removed(
    entries: Map<TcpTuple, TcpListenerPendingEntry>,
    key: TcpTuple,
    listener_id: TcpLookupId,
)
    requires
        entries.dom().finite(),
        entries.contains_key(key),
    ensures
        waiting_for(entries.remove(key), listener_id).len() == waiting_for(
            entries,
            listener_id,
        ).len() - (if entries[key].listener_id == listener_id {
            1int
        } else {
            0
        }),
        entries[key].listener_id == listener_id ==> waiting_for(entries, listener_id).len() > 0,
{
    let before = waiting_for(entries, listener_id);
    let after = waiting_for(entries.remove(key), listener_id);
    assert(before.finite());
    if entries[key].listener_id == listener_id {
        assert(before.contains(key));
        assert(after =~= before.remove(key));
    } else {
        assert(after =~= before);
    }
}

/// Putting a new tuple in adds one to its listener's count and to no other.
proof fn lemma_waiting_inserted(
    entries: Map<TcpTuple, TcpListenerPendingEntry>,
    key: TcpTuple,
    entry: TcpListenerPendingEntry,
    listener_id: TcpLookupId,
)
    requires
        entries.dom().finite(),
        !entries.contains_key(key),
    ensures
        waiting_for(entries.insert(key, entry), listener_id).len() == waiting_for(
            entries,
            listener_id,
        ).len() + (if entry.listener_id == listener_id {
            1int
        } else {
            0
        }),
{
    let before = waiting_for(entries, listener_id);
    let after = waiting_for(entries.insert(key, entry), listener_id);
    assert(before.finite());
    if entry.listener_id == listener_id {
        assert(after =~= before.insert(key));
    } else {
        assert(after =~= before);
    }
}

impl TcpListenerPendingTable {
    /// Drops what is outside the window of `current_epoch`.
    pub fn prune(&mut self, current_epoch: u32)
        requires
            old(self).well_formed(),
        ensures
            final(self).well_formed(),
            final(self)@ == pruned(old(self)@, current_epoch),
    {
        if let Some(epoch) = self.pruned_epoch {
            if epoch == current_epoch {
                proof {
                    assert forall|key: TcpTuple| #[trigger] self@.contains_key(key) implies in_window(
                        self@[key].created_epoch,
                        current_epoch,
                    ) by {
                        assert(self.tuples@.contains_key(key));
                        assert(self.entries@.contains_key(self.index_of(key)));
                    }
                    assert(self@ =~= pruned(old(self)@, current_epoch));
                }
                return;
            }
        }
        let ghost before = self@;
        let mut bucket: usize = 0;
        while bucket < TCP_LISTENER_PENDING_BUCKET_COUNT
            invariant
                bucket <= 3,
                self.sound(),
                self.chained(),
                before == old(self)@,
                forall|key: TcpTuple| #[trigger]
                    self@.contains_key(key) ==> before.contains_key(key) && self@[key]
                        == before[key],
                forall|key: TcpTuple| #[trigger]
                    before.contains_key(key) && (in_window(
                        before[key].created_epoch,
                        current_epoch,
                    ) || bucket_of(before[key].created_epoch) >= bucket) ==> self@.contains_key(
                        key,
                    ),
                forall|key: TcpTuple| #[trigger]
                    self@.contains_key(key) && bucket_of(self@[key].created_epoch) < bucket
                        ==> in_window(self@[key].created_epoch, current_epoch),
            decreases 3 - bucket,
        {
            let ghost earlier = *self;
            let epoch: u32 = self.buckets[bucket].epoch;
            let kept = current_epoch >= epoch && current_epoch - epoch
                <= TCP_LISTENER_PENDING_PREVIOUS_EPOCH_WINDOW;
            if self.buckets[bucket].indices.len() > 0 && !kept {
                self.prune_bucket(bucket);
                proof {
                    assert forall|index: PoolIndex| #[trigger]
                        self.entries@.contains_key(index) implies self.chained_at(index) by {
                        assert(earlier.entries@.contains_key(index));
                        assert(earlier.chained_at(index));
                        let b = bucket_of(self.entries@[index].created_epoch);
                        if b == bucket {
                            assert(earlier.to_drop(bucket as int, index));
                        }
                    }
                }
            }
            proof {
                assert forall|key: TcpTuple| #[trigger]
                    self@.contains_key(key) && bucket_of(self@[key].created_epoch)
                        <= bucket implies in_window(self@[key].created_epoch, current_epoch) by {
                    assert(self.tuples@.contains_key(key));
                    let index = self.index_of(key);
                    assert(self.entries@.contains_key(index));
                    assert(self.chained_at(index));
                }
                assert forall|key: TcpTuple| #[trigger]
                    before.contains_key(key) && (in_window(
                        before[key].created_epoch,
                        current_epoch,
                    ) || bucket_of(before[key].created_epoch) >= bucket
                        + 1) implies self@.contains_key(key) by {
                    assert(earlier@.contains_key(key));
                    assert(earlier.tuples@.contains_key(key));
                    assert(earlier.entries@.contains_key(earlier.index_of(key)));
                    assert(earlier.chained_at(earlier.index_of(key)));
                }
            }
            bucket = bucket + 1;
        }
        self.pruned_epoch = Some(current_epoch);
        proof {
            assert forall|key: TcpTuple| #[trigger] self@.contains_key(key) implies in_window(
                self@[key].created_epoch,
                current_epoch,
            ) by {}
            assert(self@ =~= pruned(before, current_epoch));
            assert forall|index: PoolIndex| #[trigger] self.entries@.contains_key(index) implies {
                &&& in_window(self.entries@[index].created_epoch, current_epoch)
                &&& self.chained_at(index)
            } by {
                let key = self.entries@[index].key();
                assert(self@.contains_key(key));
            }
        }
    }

    /// Chains the entry under `index`, which is of `epoch`, into its bucket. What
    /// the bucket still holds of another epoch goes.
    fn push_epoch_bucket(&mut self, epoch: u32, index: PoolIndex)
        requires
            old(self).sound(),
            old(self).entries@.contains_key(index),
            old(self).entries@[index].created_epoch == epoch,
            forall|other: PoolIndex| #[trigger]
                old(self).entries@.contains_key(other) && other != index ==> old(self).chained_at(
                    other,
                ),
        ensures
            final(self).well_formed(),
            forall|key: TcpTuple| #[trigger]
                final(self)@.contains_key(key) == (old(self)@.contains_key(key) && !old(
                    self,
                ).displaced(epoch, old(self)@[key])),
            forall|key: TcpTuple| #[trigger]
                final(self)@.contains_key(key) ==> final(self)@[key] == old(self)@[key],
    {
        let bucket: usize = (epoch % 3) as usize;
        if self.buckets[bucket].epoch != epoch {
            self.prune_bucket(bucket);
            self.buckets[bucket].epoch = epoch;
        }
        let ghost middle = *self;
        self.buckets[bucket].indices.push(index);
        self.pruned_epoch = None;
        proof {
            let chain = self.buckets@[bucket as int].indices@;
            assert(chain[chain.len() - 1] == index);
            assert(self@ =~= middle@);
            assert forall|listener_id: u32| #[trigger]
                stored_count(self.listener_counts@, listener_id) == waiting_for(self@, listener_id).len() by {
                assert(stored_count(middle.listener_counts@, listener_id) == waiting_for(middle@, listener_id).len());
            }
            assert forall|key: TcpTuple| #[trigger]
                self@.contains_key(key) == (old(self)@.contains_key(key) && !old(self).displaced(
                    epoch,
                    old(self)@[key],
                )) by {
                if old(self)@.contains_key(key) {
                    assert(old(self).tuples@.contains_key(key));
                    let other = old(self).index_of(key);
                    assert(old(self).entries@.contains_key(other));
                    if other != index {
                        assert(old(self).chained_at(other));
                    }
                }
            }
            assert forall|other: PoolIndex| #[trigger]
                self.entries@.contains_key(other) implies self.chained_at(other) by {
                assert(old(self).entries@.contains_key(other));
                if other != index {
                    assert(old(self).chained_at(other));
                    let b = bucket_of(self.entries@[other].created_epoch);
                    if b == bucket {
                        if old(self).buckets@[b].epoch != epoch {
                            assert(old(self).to_drop(b, other));
                        }
                        let old_chain = old(self).buckets@[b].indices@;
                        let k = choose|k: int| 0 <= k < old_chain.len() && old_chain[k] == other;
                        assert(chain[k] == other);
                    }
                }
            }
        }
    }

    /// An entry has to make room in the bucket that `epoch` needs.
    spec fn displaced(self, epoch: u32, entry: TcpListenerPendingEntry) -> bool {
        let bucket = self.buckets@[bucket_of(epoch)];
        bucket.epoch != epoch && entry.created_epoch == bucket.epoch && bucket_of(
            entry.created_epoch,
        ) == bucket_of(epoch)
    }

    /// Admits a SYN for a listener, new or seen before, at `current_epoch`.
    pub fn begin(
        &mut self,
        listener_id: TcpLookupId,
        local: SocketAddress,
        remote: SocketAddress,
        client_sequence: u32,
        advertised_window: u16,
        capabilities: TcpCapabilities,
        timestamp: Option<TcpTimestampOption>,
        backlog: usize,
        current_epoch: u32,
    ) -> (r: bool)
        requires
            old(self).well_formed(),
        ensures
            final(self).well_formed(),
            ({
                let entry = TcpListenerPendingEntry {
                    listener_id,
                    local: local.spec_endpoint(),
                    remote: remote.spec_endpoint(),
                    client_sequence,
                    advertised_window,
                    capabilities,
                    timestamp,
                    created_epoch: current_epoch,
                };
                let left = pruned(old(self)@, current_epoch);
                &&& r == admits(left, entry, backlog)
                &&& final(self)@ == (if r {
                    left.insert(entry.key(), entry)
                } else {
                    left
                })
            }),
    {
        let entry = TcpListenerPendingEntry {
            listener_id,
            local: local.endpoint(),
            remote: remote.endpoint(),
            client_sequence,
            advertised_window,
            capabilities,
            timestamp,
            created_epoch: current_epoch,
        };
        let ghost key = entry.key();
        self.prune(current_epoch);
        let ghost left = *self;
        proof {
            assert forall|other: TcpTuple| #[trigger]
                left@.contains_key(other) implies !left.displaced(current_epoch, left@[other]) by {
                assert(in_window(left@[other].created_epoch, current_epoch));
            }
        }
        if let Some(index) = self.lookup_tuple_index(local, remote) {
            proof {
                assert(self.tuples@.contains_key(key));
                assert(self.entries@.contains_key(index));
            }
            let Some(existing) = self.entries.get(index) else {
                return false;
            };
            if existing.listener_id != listener_id {
                return false;
            }
            self.entries.replace(index, entry);
            proof {
                self.lemma_replaced(left, index, entry);
            }
            if existing.created_epoch != current_epoch {
                proof {
                    assert forall|other: PoolIndex| #[trigger]
                        self.entries@.contains_key(other) && other
                            != index implies self.chained_at(other) by {
                        assert(left.chained_at(other));
                    }
                }
                self.push_epoch_bucket(current_epoch, index);
                proof {
                    assert(self@ =~= left@.insert(key, entry));
                }
            } else {
                proof {
                    assert forall|other: PoolIndex| #[trigger]
                        self.entries@.contains_key(other) implies self.chained_at(other) by {
                        assert(left.chained_at(other));
                    }
                }
            }
            return true;
        }
        let limit: usize = if backlog == 0 {
            1
        } else if backlog > TCP_LISTENER_BACKLOG_LIMIT {
            TCP_LISTENER_BACKLOG_LIMIT
        } else {
            backlog
        };
        let used: u64 = match self.listener_counts.lookup(listener_id) {
            Some(count) => count,
            None => 0,
        };
        proof {
            assert(stored_count(self.listener_counts@, listener_id) == waiting_for(self@, listener_id).len());
        }
        if used >= limit as u64 {
            return false;
        }
        let Some(tuple) = tcp_tuple(local, remote) else {
            return false;
        };
        let Some(index) = self.entries.insert(entry) else {
            proof {
                assert(self@ =~= left@);
                assert forall|listener_id: u32| #[trigger]
                    stored_count(self.listener_counts@, listener_id) == waiting_for(self@, listener_id).len() by {
                    assert(stored_count(left.listener_counts@, listener_id) == waiting_for(left@, listener_id).len());
                }
                assert forall|other: PoolIndex| #[trigger]
                    self.entries@.contains_key(other) implies self.chained_at(other) by {
                    assert(left.chained_at(other));
                }
            }
            return false;
        };
        self.tuples.insert(tuple, pool_index_to_bihash_value(index));
        self.listener_counts.insert(listener_id, used + 1);
        proof {
            self.lemma_added(left, index, entry);
            assert forall|other: PoolIndex| #[trigger]
                self.entries@.contains_key(other) && other != index implies self.chained_at(
                other,
            ) by {
                assert(left.chained_at(other));
            }
        }
        self.push_epoch_bucket(current_epoch, index);
        proof {
            assert(self@ =~= left@.insert(key, entry));
        }
        true
    }

    proof fn lemma_replaced(self, left: Self, index: PoolIndex, entry: TcpListenerPendingEntry)
        requires
            left.sound(),
            left.entries@.contains_key(index),
            left.entries@[index].key() == entry.key(),
            left.entries@[index].listener_id == entry.listener_id,
            self.entries.well_formed(),
            self.entries.spec_capacity() == left.entries.spec_capacity(),
            self.entries@ == left.entries@.insert(index, entry),
            self.tuples == left.tuples,
            self.listener_counts == left.listener_counts,
            self.buckets == left.buckets,
        ensures
            self.sound(),
            self@ == left@.insert(entry.key(), entry),
    {
        let key = entry.key();
        assert(left@.contains_key(key));
        assert forall|other: TcpTuple| #[trigger] self.tuples@.contains_key(other) && other
            != key implies self.index_of(other) != index by {
            assert(left.tuples@.contains_key(other));
        }
        assert(self@ =~= left@.insert(key, entry));
        assert(self@.dom() =~= left@.dom());
        assert(self.entries@.dom() =~= left.entries@.dom());
        assert forall|other: PoolIndex| #[trigger] self.entries@.contains_key(other) implies {
            let other_key = self.entries@[other].key();
            &&& self.tuples@.contains_key(other_key)
            &&& self.index_of(other_key) == other
            &&& tuple::same_version(other_key.local.ip, other_key.remote.ip)
        } by {
            assert(left.entries@.contains_key(other));
        }
        assert forall|other: TcpTuple| #[trigger] self.tuples@.contains_key(other) implies {
            &&& self.entries@.contains_key(self.index_of(other))
            &&& self.entries@[self.index_of(other)].key() == other
        } by {
            assert(left.tuples@.contains_key(other));
        }
        assert forall|listener_id: u32| #[trigger]
            stored_count(self.listener_counts@, listener_id) == waiting_for(self@, listener_id).len() by {
            assert(stored_count(left.listener_counts@, listener_id) == waiting_for(left@, listener_id).len());
            assert(waiting_for(self@, listener_id) =~= waiting_for(left@, listener_id));
        }
    }

    proof fn lemma_added(self, left: Self, index: PoolIndex, entry: TcpListenerPendingEntry)
        requires
            left.sound(),
            !left@.contains_key(entry.key()),
            tuple::same_version(entry.local.ip, entry.remote.ip),
            !left.entries@.contains_key(index),
            self.entries.well_formed(),
            self.entries.spec_capacity() == left.entries.spec_capacity(),
            self.entries@ == left.entries@.insert(index, entry),
            self.tuples.well_formed(),
            self.tuples@ == left.tuples@.insert(entry.key(), pool::packed(index)),
            self.listener_counts.well_formed(),
            self.listener_counts@ == left.listener_counts@.insert(
                entry.listener_id,
                (stored_count(left.listener_counts@, entry.listener_id) + 1) as u64,
            ),
            stored_count(left.listener_counts@, entry.listener_id) < u64::MAX,
            self.buckets == left.buckets,
        ensures
            self.sound(),
            self@ == left@.insert(entry.key(), entry),
    {
        let key = entry.key();
        pool::index_round_trip(index);
        left.entries.lemma_bounded();
        assert forall|other: TcpTuple| #[trigger] left.tuples@.contains_key(other) implies {
            &&& other != key
            &&& self.index_of(other) == left.index_of(other)
            &&& left.index_of(other) != index
        } by {
            assert(left@.contains_key(other));
        }
        assert(self@ =~= left@.insert(key, entry));
        assert(self@.dom() =~= left@.dom().insert(key));
        assert(self.entries@.dom() =~= left.entries@.dom().insert(index));
        assert forall|other: PoolIndex| #[trigger] self.entries@.contains_key(other) implies {
            let other_key = self.entries@[other].key();
            &&& self.tuples@.contains_key(other_key)
            &&& self.index_of(other_key) == other
            &&& tuple::same_version(other_key.local.ip, other_key.remote.ip)
        } by {
            if other != index {
                assert(left.entries@.contains_key(other));
            }
        }
        assert forall|other: TcpTuple| #[trigger] self.tuples@.contains_key(other) implies {
            &&& self.entries@.contains_key(self.index_of(other))
            &&& self.entries@[self.index_of(other)].key() == other
        } by {
            if other != key {
                assert(left.tuples@.contains_key(other));
            }
        }
        assert forall|listener_id: u32| #[trigger]
            stored_count(self.listener_counts@, listener_id) == waiting_for(self@, listener_id).len() by {
            assert(stored_count(left.listener_counts@, listener_id) == waiting_for(left@, listener_id).len());
            lemma_waiting_inserted(left@, key, entry, listener_id);
        }
        assert forall|listener_id: u32| #[trigger]
            self.listener_counts@.contains_key(
                listener_id,
            ) implies self.listener_counts@[listener_id] > 0 by {}
    }

    /// The handshake of a tuple that waits for a listener at `current_epoch`.
    pub fn get(
        &mut self,
        listener_id: TcpLookupId,
        local: SocketAddress,
        remote: SocketAddress,
        current_epoch: u32,
    ) -> (r: Option<TcpListenerPendingEntry>)
        requires
            old(self).well_formed(),
        ensures
            final(self).well_formed(),
            final(self)@ == pruned(old(self)@, current_epoch),
            ({
                let key = tuple::key_of(local, remote);
                r == (if final(self)@.contains_key(key) && final(self)@[key].listener_id
                    == listener_id {
                    Some(final(self)@[key])
                } else {
                    None
                })
            }),
    {
        self.prune(current_epoch);
        let Some(index) = self.lookup_tuple_index(local, remote) else {
            return None;
        };
        let Some(entry) = self.entries.get(index) else {
            proof {
                assert(self.tuples@.contains_key(tuple::key_of(local, remote)));
            }
            return None;
        };
        if entry.listener_id != listener_id {
            return None;
        }
        Some(entry)
    }

    /// Whether a tuple waits for any listener at `current_epoch`.
    pub fn contains(&mut self, local: SocketAddress, remote: SocketAddress, current_epoch: u32) -> (r:
        bool)
        requires
            old(self).well_formed(),
        ensures
            final(self).well_formed(),
            final(self)@ == pruned(old(self)@, current_epoch),
            r == final(self)@.contains_key(tuple::key_of(local, remote)),
    {
        self.prune(current_epoch);
        self.lookup_tuple_index(local, remote).is_some()
    }

    /// Takes the handshake of a listener's tuple out.
    pub fn finish(&mut self, listener_id: TcpLookupId, local: SocketAddress, remote: SocketAddress)
        requires
            old(self).well_formed(),
        ensures
            final(self).well_formed(),
            ({
                let key = tuple::key_of(local, remote);
                final(self)@ == (if old(self)@.contains_key(key) && old(self)@[key].listener_id
                    == listener_id {
                    old(self)@.remove(key)
                } else {
                    old(self)@
                })
            }),
    {
        let Some(index) = self.lookup_tuple_index(local, remote) else {
            return;
        };
        proof {
            assert(self.tuples@.contains_key(tuple::key_of(local, remote)));
        }
        let Some(entry) = self.entries.get(index) else {
            return;
        };
        if entry.listener_id != listener_id {
            return;
        }
        self.remove_index(index);
        proof {
            assert forall|other: PoolIndex| #[trigger]
                self.entries@.contains_key(other) implies self.chained_at(other) by {
                assert(old(self).chained_at(other));
            }
        }
    }

    /// How many handshakes wait for a listener.
    pub fn entry_count(&self, listener_id: TcpLookupId) -> (r: u64)
        requires
            self.well_formed(),
        ensures
            r == waiting_for(self@, listener_id).len(),
    {
        proof {
            assert(stored_count(self.listener_counts@, listener_id) == waiting_for(self@, listener_id).len());
        }
        match self.listener_counts.lookup(listener_id) {
            Some(count) => count,
            None => 0,
        }
    }

    /// Whether a tuple waits for a listener, whatever its epoch.
    pub fn has_entry(
        &self,
        listener_id: TcpLookupId,
        local: SocketAddress,
        remote: SocketAddress,
    ) -> (r: bool)
        requires
            self.well_formed(),
        ensures
            ({
                let key = tuple::key_of(local, remote);
                r == (self@.contains_key(key) && self@[key].listener_id == listener_id)
            }),
    {
        let Some(index) = self.lookup_tuple_index(local, remote) else {
            return false;
        };
        proof {
            assert(self.tuples@.contains_key(tuple::key_of(local, remote)));
        }
        match self.entries.get(index) {
            Some(entry) => entry.listener_id == listener_id,
            None => false,
        }
    }

    /// Moves a listener's tuple to another epoch. What is in the way there goes:
    /// the entries of another epoch that shares its bucket.
    pub fn update_created_epoch(
        &mut self,
        listener_id: TcpLookupId,
        local: SocketAddress,
        remote: SocketAddress,
        epoch: u32,
    ) -> (r: bool)
        requires
            old(self).well_formed(),
        ensures
            final(self).well_formed(),
            ({
                let key = tuple::key_of(local, remote);
                &&& r == (old(self)@.contains_key(key) && old(self)@[key].listener_id
                    == listener_id)
                &&& !r ==> final(self)@ == old(self)@
                &&& r ==> final(self)@.contains_key(key) && final(self)@[key] == (
                TcpListenerPendingEntry { created_epoch: epoch, ..old(self)@[key] })
                &&& forall|other: TcpTuple| #[trigger]
                    final(self)@.contains_key(other) && other != key ==> old(self)@.contains_key(
                        other,
                    ) && final(self)@[other] == old(self)@[other]
                &&& r ==> forall|other: TcpTuple|
                    other != key ==> #[trigger] final(self)@.contains_key(other) == (old(
                        self,
                    )@.contains_key(other) && (old(self)@[other].created_epoch == epoch || (
                    epoch as int - old(self)@[other].created_epoch) % 3 != 0))
            }),
    {
        let Some(index) = self.lookup_tuple_index(local, remote) else {
            return false;
        };
        proof {
            assert(self.tuples@.contains_key(tuple::key_of(local, remote)));
        }
        let Some(existing) = self.entries.get(index) else {
            return false;
        };
        if existing.listener_id != listener_id {
            return false;
        }
        let entry = TcpListenerPendingEntry { created_epoch: epoch, ..existing };
        let ghost left = *self;
        self.entries.replace(index, entry);
        proof {
            self.lemma_replaced(left, index, entry);
            assert forall|other: PoolIndex| #[trigger]
                self.entries@.contains_key(other) && other != index implies self.chained_at(
                other,
            ) by {
                assert(left.chained_at(other));
            }
        }
        let ghost middle = *self;
        self.push_epoch_bucket(epoch, index);
        proof {
            let key = tuple::key_of(local, remote);
            assert(middle@.contains_key(key));
            assert(middle@[key] == entry);
            assert(!middle.displaced(epoch, entry));
            assert(self@.contains_key(key));
            assert forall|other: TcpTuple|
                other != key implies #[trigger] self@.contains_key(other) == (left@.contains_key(
                other,
            ) && (left@[other].created_epoch == epoch || (epoch as int
                - left@[other].created_epoch) % 3 != 0)) by {
                assert(middle@.contains_key(other) == left@.contains_key(other));
                if left@.contains_key(other) {
                    assert(left.tuples@.contains_key(other));
                    assert(left.chained_at(left.index_of(other)));
                }
            }
            assert forall|other: TcpTuple| #[trigger] self@.contains_key(other) && other
                != key implies left@.contains_key(other) && self@[other] == left@[other] by {
                assert(middle@.contains_key(other));
            }
        }
        true
    }
}

/// At no epoch do more handshakes wait for a listener than its backlog allows,
/// if that held before.
pub proof fn backlog_is_bounded(
    entries: Map<TcpTuple, TcpListenerPendingEntry>,
    entry: TcpListenerPendingEntry,
    backlog: usize,
    current_epoch: u32,
)
    requires
        entries.dom().finite(),
        waiting_for(entries, entry.listener_id).len() <= backlog_limit(backlog),
    ensures
        ({
            let left = pruned(entries, current_epoch);
            let after = if admits(left, entry, backlog) {
                left.insert(entry.key(), entry)
            } else {
                left
            };
            waiting_for(after, entry.listener_id).len() <= backlog_limit(backlog)
        }),
{
    let left = pruned(entries, current_epoch);
    assert(left.dom() =~= entries.dom().filter(
        |key: TcpTuple| in_window(entries[key].created_epoch, current_epoch),
    ));
    assert(left.dom().finite());
    let before = waiting_for(entries, entry.listener_id);
    let kept = waiting_for(left, entry.listener_id);
    assert(before.finite());
    assert(kept.subset_of(before));
    vstd::set_lib::lemma_len_subset(kept, before);
    if admits(left, entry, backlog) {
        let after = left.insert(entry.key(), entry);
        if left.contains_key(entry.key()) {
            assert(waiting_for(after, entry.listener_id) =~= kept);
        } else {
            lemma_waiting_inserted(left, entry.key(), entry, entry.listener_id);
        }
    }
}

/// A SYN that was admitted is found at once and in the next epoch, and not in
/// the one after that.
pub proof fn admitted_syn_expires(
    entries: Map<TcpTuple, TcpListenerPendingEntry>,
    entry: TcpListenerPendingEntry,
    current_epoch: u32,
)
    requires
        entry.created_epoch <= current_epoch,
    ensures
        pruned(entries.insert(entry.key(), entry), current_epoch).contains_key(entry.key()) == (
        current_epoch <= entry.created_epoch + 1),
{
}

/// Only handshakes of this epoch and the one before are left, each as it was.
pub proof fn pruning_keeps_two_epochs(
    entries: Map<TcpTuple, TcpListenerPendingEntry>,
    current_epoch: u32,
    key: TcpTuple,
)
    ensures
        pruned(entries, current_epoch).contains_key(key) == (entries.contains_key(key)
            && entries[key].created_epoch <= current_epoch && current_epoch
            - entries[key].created_epoch <= 1),
        pruned(entries, current_epoch).contains_key(key) ==> pruned(entries, current_epoch)[key]
            == entries[key],
{
}

/// A new handshake needs room: in the listener's backlog, which holds one at least
/// and 128 at most, and among the 1024 of all listeners. One that waits already is
/// refreshed, for the same listener only. Both addresses are of one IP version.
pub proof fn admission_needs_room(
    entries: Map<TcpTuple, TcpListenerPendingEntry>,
    entry: TcpListenerPendingEntry,
    backlog: usize,
)
    ensures
        ({
            let waiting = entries.dom().filter(
                |key: TcpTuple| entries[key].listener_id == entry.listener_id,
            ).len();
            let key = TcpTuple { local: entry.local, remote: entry.remote };
            let limit = if backlog < 1 {
                1
            } else if backlog > 128 {
                128
            } else {
                backlog as int
            };
            admits(entries, entry, backlog) == ((entry.local.ip is V4) == (entry.remote.ip is V4)
                && (if entries.contains_key(key) {
                entries[key].listener_id == entry.listener_id
            } else {
                waiting < limit && entries.dom().len() < 1024
            }))
        }),
{
    assert(waiting_for(entries, entry.listener_id) == entries.dom().filter(
        |key: TcpTuple| entries[key].listener_id == entry.listener_id,
    ));
}

} // verus!
