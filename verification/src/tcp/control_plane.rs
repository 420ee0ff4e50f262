//! The listeners that all workers share.
//!
//! One writer publishes a snapshot; any number of readers look listeners up in
//! the snapshot that was published last. The swap between them is `arc-swap`'s.
use std::sync::Arc;

use arc_swap::ArcSwap;
use vstd::prelude::*;

use crate::tcp::listeners;
use crate::tcp::listeners::{
    TcpIpv4ListenerAddress, TcpIpv6ListenerAddress, TcpLookupSnapshot, TcpLookupValue,
    TcpV4ListenerKey, TcpV6ListenerKey,
};
use crate::tcp::types::{IpAddress, SocketAddress};

verus! {

/// A place that holds one snapshot at a time, shared by all who hold a handle on
/// it: an `arc_swap::ArcSwap` behind a shared pointer.
#[verifier::external_body]
pub struct SnapshotPlace {
    place: Arc<ArcSwap<TcpLookupSnapshot>>,
}

/// Every snapshot that a place holds at some time, whichever handle it was put
/// there by. All handles on one place are equal.
pub uninterp spec fn snapshots_held(place: SnapshotPlace) -> Set<TcpLookupSnapshot>;

/// The listener at a local address in a snapshot.
pub open spec fn listener_at(snapshot: TcpLookupSnapshot, local: SocketAddress) -> Option<
    TcpLookupValue,
> {
    match local.ip {
        IpAddress::V4(address) => {
            let table = snapshot.spec_listeners().spec_v4()@;
            let key = listeners::v4_key(0, address, local.port);
            if table.contains_key(key) {
                Some(table[key])
            } else {
                None
            }
        },
        IpAddress::V6(address) => {
            let table = snapshot.spec_listeners().spec_v6()@;
            let key = listeners::v6_key(0, address, local.port);
            if table.contains_key(key) {
                Some(table[key])
            } else {
                None
            }
        },
    }
}

/// The listener at a local address in a snapshot.
pub fn listener_in_snapshot(snapshot: &TcpLookupSnapshot, local: SocketAddress) -> (r: Option<
    TcpLookupValue,
>)
    ensures
        r == listener_at(*snapshot, local),
{
    match local.ip {
        IpAddress::V4(address) => snapshot.lookup_listener::<TcpIpv4ListenerAddress>(
            TcpV4ListenerKey::new(0, address, local.port),
        ),
        IpAddress::V6(address) => snapshot.lookup_listener::<TcpIpv6ListenerAddress>(
            TcpV6ListenerKey::new(0, address, local.port),
        ),
    }
}

/// Calls `ArcSwap::from_pointee`, which makes a place that holds the value. What
/// it holds later depends on its writers, and nothing is claimed of that.
#[verifier::external_body]
fn snapshot_place(first: TcpLookupSnapshot) -> (r: SnapshotPlace)
    ensures
        snapshots_held(r).contains(first),
{
    SnapshotPlace { place: Arc::new(ArcSwap::from_pointee(first)) }
}

/// Calls `ArcSwap::store`, which puts a value in the place of the one that was
/// there. Nothing is claimed: other writers may put theirs in right after.
#[verifier::external_body]
fn store_snapshot(shared: &SnapshotPlace, lookup: TcpLookupSnapshot) {
    shared.place.store(Arc::new(lookup))
}

/// Calls `ArcSwap::load_full`, which returns the value that is there: one that the
/// place holds at some time. Which one depends on the writers.
#[verifier::external_body]
fn load_snapshot(shared: &SnapshotPlace) -> (r: Arc<TcpLookupSnapshot>)
    ensures
        snapshots_held(*shared).contains(*r),
{
    shared.place.load_full()
}

/// Calls `Arc::clone` on the shared place, which makes another handle on the same
/// place.
#[verifier::external_body]
fn another_handle(shared: &SnapshotPlace) -> (r: SnapshotPlace)
    ensures
        r == *shared,
{
    SnapshotPlace { place: Arc::clone(&shared.place) }
}

/// The listeners that all workers share.
pub struct TcpInputControlPlane {
    inner: SnapshotPlace,
}

/// A snapshot in which no listener is found.
pub open spec fn without_listeners(snapshot: TcpLookupSnapshot) -> bool {
    forall|local: SocketAddress| #[trigger] listener_at(snapshot, local) is None
}

impl TcpInputControlPlane {
    /// Every snapshot that readers find at some time.
    pub closed spec fn held(self) -> Set<TcpLookupSnapshot> {
        snapshots_held(self.inner)
    }

    /// A control plane without listeners.
    pub fn new() -> (r: Self)
        ensures
            exists|first: TcpLookupSnapshot| #[trigger]
                r.held().contains(first) && without_listeners(first),
    {
        let first = TcpLookupSnapshot::empty();
        assert(without_listeners(first));
        let ghost held_first = first;
        let r = TcpInputControlPlane { inner: snapshot_place(first) };
        assert(r.held().contains(held_first));
        r
    }

    /// Makes `lookup` what readers find from now on.
    pub fn publish_lookup(&self, lookup: TcpLookupSnapshot) {
        store_snapshot(&self.inner, lookup)
    }

    /// The snapshot that was published last, whichever that is.
    pub fn snapshot(&self) -> (r: Arc<TcpLookupSnapshot>)
        ensures
            r.well_formed(),
            self.held().contains(*r),
    {
        let snapshot = load_snapshot(&self.inner);
        snapshot.checked();
        snapshot
    }

    /// The listener at a local address in the snapshot that was published last,
    /// whichever that is.
    pub fn lookup_listener(&self, local: SocketAddress) -> (r: Option<TcpLookupValue>)
        ensures
            exists|snapshot: TcpLookupSnapshot| #[trigger]
                self.held().contains(snapshot) && r == listener_at(snapshot, local),
    {
        let snapshot = load_snapshot(&self.inner);
        assert(self.held().contains(*snapshot));
        listener_in_snapshot(&snapshot, local)
    }
}

impl Clone for TcpInputControlPlane {
    /// Another handle on the same listeners.
    fn clone(&self) -> (r: Self)
        ensures
            r == *self,
    {
        TcpInputControlPlane { inner: another_handle(&self.inner) }
    }
}

/// The TCP service of a process.
pub struct TcpMain {
    control: TcpInputControlPlane,
}

impl TcpMain {
    pub closed spec fn spec_control(self) -> TcpInputControlPlane {
        self.control
    }

    /// A service without listeners.
    pub fn new() -> (r: Self)
        ensures
            exists|first: TcpLookupSnapshot| #[trigger]
                r.spec_control().held().contains(first) && without_listeners(first),
    {
        let control = TcpInputControlPlane::new();
        let ghost first = choose|first: TcpLookupSnapshot| #[trigger]
            control.held().contains(first) && without_listeners(first);
        let r = TcpMain { control };
        assert(r.spec_control().held().contains(first));
        r
    }

    pub fn control(&self) -> (r: &TcpInputControlPlane)
        ensures
            *r == self.spec_control(),
    {
        &self.control
    }
}

/// A listener that was put in for an IPv4 address and port is found there and nowhere
/// else; all others are found as before.
pub proof fn listener_is_found_where_it_was_put(
    before: TcpLookupSnapshot,
    after: TcpLookupSnapshot,
    address: u32,
    port: u16,
    value: TcpLookupValue,
    local: SocketAddress,
)
    requires
        after.spec_listeners().spec_v4()@ == before.spec_listeners().spec_v4()@.insert(
            listeners::v4_key(0, address, port),
            value,
        ),
        after.spec_listeners().spec_v6()@ == before.spec_listeners().spec_v6()@,
    ensures
        listener_at(after, local) == (if local.ip == IpAddress::V4(address) && local.port == port {
            Some(value)
        } else {
            listener_at(before, local)
        }),
{
    if let IpAddress::V4(other) = local.ip {
        listeners::v4_keys_are_distinct(0, address, port, 0, other, local.port);
    }
}

/// So it is for an IPv6 address.
pub proof fn long_listener_is_found_where_it_was_put(
    before: TcpLookupSnapshot,
    after: TcpLookupSnapshot,
    address: u128,
    port: u16,
    value: TcpLookupValue,
    local: SocketAddress,
)
    requires
        after.spec_listeners().spec_v6()@ == before.spec_listeners().spec_v6()@.insert(
            listeners::v6_key(0, address, port),
            value,
        ),
        after.spec_listeners().spec_v4()@ == before.spec_listeners().spec_v4()@,
    ensures
        listener_at(after, local) == (if local.ip == IpAddress::V6(address) && local.port == port {
            Some(value)
        } else {
            listener_at(before, local)
        }),
{
    if let IpAddress::V6(other) = local.ip {
        listeners::v6_keys_are_distinct(0, address, port, 0, other, local.port);
    }
}

/// Where no listener was put in, none is found.
pub proof fn empty_snapshot_has_no_listener(snapshot: TcpLookupSnapshot, local: SocketAddress)
    requires
        without_listeners(snapshot),
    ensures
        listener_at(snapshot, local) is None,
{
}

} // verus!
