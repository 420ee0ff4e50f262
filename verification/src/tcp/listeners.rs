//! The listeners of a worker, by scope, address and port.
use vstd::prelude::*;

use crate::collections::hashing;
use crate::collections::hashing::{fold_u128, hash_words};
use crate::collections::indexed::IndexedValues;
use crate::collections::table::TableKey;
use crate::tcp::listener_pending::TcpLookupId;
use crate::tcp::types::{DataWorkerId, TcpCapabilities};

verus! {

/// What a listener's address leads to.
#[derive(Clone, Copy, Debug, PartialEq, Eq, Structural)]
pub struct TcpLookupValue {
    pub id: TcpLookupId,
    pub owner_worker: DataWorkerId,
    pub capabilities: TcpCapabilities,
}

/// An IP version that listeners can have addresses of.
pub trait TcpListenerAddress: Copy {
    type Ip;

    type Key: TableKey;

    spec fn spec_key(scope_id: u32, local_addr: Self::Ip, local_port: u16) -> Self::Key;

    fn key(scope_id: u32, local_addr: Self::Ip, local_port: u16) -> (r: Self::Key)
        ensures
            r == Self::spec_key(scope_id, local_addr, local_port),
    ;
}

#[derive(Clone, Copy, Debug, PartialEq, Eq, Structural)]
pub struct TcpIpv4ListenerAddress;

#[derive(Clone, Copy, Debug, PartialEq, Eq, Structural)]
pub struct TcpIpv6ListenerAddress;

impl Default for TcpIpv4ListenerAddress {
    fn default() -> (r: Self)
        ensures
            r == TcpIpv4ListenerAddress,
    {
        TcpIpv4ListenerAddress
    }
}

impl Default for TcpIpv6ListenerAddress {
    fn default() -> (r: Self)
        ensures
            r == TcpIpv6ListenerAddress,
    {
        TcpIpv6ListenerAddress
    }
}

/// Scope, address and port of a listener, packed into two words.
#[derive(Clone, Copy, Debug, PartialEq, Eq, Structural)]
pub struct TcpListenerKey<A> {
    pub first: u128,
    pub second: u128,
    pub address: A,
}

pub type TcpV4ListenerKey = TcpListenerKey<TcpIpv4ListenerAddress>;

pub type TcpV6ListenerKey = TcpListenerKey<TcpIpv6ListenerAddress>;

/// The key of an IPv4 listener: 32 bits of scope, 32 of address, 16 of port.
pub open spec fn v4_key(scope_id: u32, local_addr: u32, local_port: u16) -> TcpV4ListenerKey {
    TcpListenerKey {
        first: (scope_id * 0x1_0000_0000_0000 + local_addr * 0x1_0000 + local_port) as u128,
        second: 0,
        address: TcpIpv4ListenerAddress,
    }
}

/// The key of an IPv6 listener: the address, then scope and port.
pub open spec fn v6_key(scope_id: u32, local_addr: u128, local_port: u16) -> TcpV6ListenerKey {
    TcpListenerKey {
        first: local_addr,
        second: (scope_id * 0x1_0000 + local_port) as u128,
        address: TcpIpv6ListenerAddress,
    }
}

/// Different scopes, addresses and ports have different keys.
pub proof fn v4_keys_are_distinct(
    scope_a: u32,
    addr_a: u32,
    port_a: u16,
    scope_b: u32,
    addr_b: u32,
    port_b: u16,
)
    ensures
        v4_key(scope_a, addr_a, port_a) == v4_key(scope_b, addr_b, port_b) <==> scope_a == scope_b
            && addr_a == addr_b && port_a == port_b,
{
}

/// Different scopes, addresses and ports have different keys.
pub proof fn v6_keys_are_distinct(
    scope_a: u32,
    addr_a: u128,
    port_a: u16,
    scope_b: u32,
    addr_b: u128,
    port_b: u16,
)
    ensures
        v6_key(scope_a, addr_a, port_a) == v6_key(scope_b, addr_b, port_b) <==> scope_a == scope_b
            && addr_a == addr_b && port_a == port_b,
{
}

impl TcpListenerAddress for TcpIpv4ListenerAddress {
    type Ip = u32;

    type Key = TcpV4ListenerKey;

    open spec fn spec_key(scope_id: u32, local_addr: u32, local_port: u16) -> TcpV4ListenerKey {
        v4_key(scope_id, local_addr, local_port)
    }

    fn key(scope_id: u32, local_addr: u32, local_port: u16) -> (r: TcpV4ListenerKey) {
        TcpListenerKey {
            first: scope_id as u128 * 0x1_0000_0000_0000 + local_addr as u128 * 0x1_0000
                + local_port as u128,
            second: 0,
            address: TcpIpv4ListenerAddress,
        }
    }
}

impl TcpListenerAddress for TcpIpv6ListenerAddress {
    type Ip = u128;

    type Key = TcpV6ListenerKey;

    open spec fn spec_key(scope_id: u32, local_addr: u128, local_port: u16) -> TcpV6ListenerKey {
        v6_key(scope_id, local_addr, local_port)
    }

    fn key(scope_id: u32, local_addr: u128, local_port: u16) -> (r: TcpV6ListenerKey) {
        TcpListenerKey {
            first: local_addr,
            second: scope_id as u128 * 0x1_0000 + local_port as u128,
            address: TcpIpv6ListenerAddress,
        }
    }
}

/// The hash of a listener key.
pub open spec fn listener_key_hash(first: u128, second: u128) -> u64 {
    hashing::words_hash(seq![hashing::folded(first), hashing::folded(second)])
}

fn hash_listener_key(first: u128, second: u128) -> (r: u64)
    ensures
        r == listener_key_hash(first, second),
{
    let words: [u64; 2] = [fold_u128(first), fold_u128(second)];
    proof {
        assert(words@ =~= seq![hashing::folded(first), hashing::folded(second)]);
    }
    hash_words(&words)
}

impl TableKey for TcpListenerKey<TcpIpv4ListenerAddress> {
    open spec fn spec_hash(self) -> u64 {
        listener_key_hash(self.first, self.second)
    }

    fn hash(self) -> (r: u64) {
        hash_listener_key(self.first, self.second)
    }

    fn same(self, other: Self) -> (r: bool) {
        self == other
    }
}

impl TableKey for TcpListenerKey<TcpIpv6ListenerAddress> {
    open spec fn spec_hash(self) -> u64 {
        listener_key_hash(self.first, self.second)
    }

    fn hash(self) -> (r: u64) {
        hash_listener_key(self.first, self.second)
    }

    fn same(self, other: Self) -> (r: bool) {
        self == other
    }
}

impl TcpListenerKey<TcpIpv4ListenerAddress> {
    pub fn new(scope_id: u32, local_addr: u32, local_port: u16) -> (r: Self)
        ensures
            r == v4_key(scope_id, local_addr, local_port),
    {
        TcpIpv4ListenerAddress::key(scope_id, local_addr, local_port)
    }
}

impl TcpListenerKey<TcpIpv6ListenerAddress> {
    pub fn new(scope_id: u32, local_addr: u128, local_port: u16) -> (r: Self)
        ensures
            r == v6_key(scope_id, local_addr, local_port),
    {
        TcpIpv6ListenerAddress::key(scope_id, local_addr, local_port)
    }
}

/// The listeners of one IP version.
#[derive(Debug)]
pub struct TcpListenerTable<A: TcpListenerAddress> {
    values: IndexedValues<A::Key, TcpLookupValue>,
}

impl<A: TcpListenerAddress> View for TcpListenerTable<A> {
    type V = Map<A::Key, TcpLookupValue>;

    closed spec fn view(&self) -> Map<A::Key, TcpLookupValue> {
        self.values@
    }
}

impl<A: TcpListenerAddress> TcpListenerTable<A> {
    #[verifier::type_invariant]
    pub closed spec fn well_formed(self) -> bool {
        self.values.well_formed()
    }

    pub fn empty() -> (r: Self)
        ensures
            r.well_formed(),
            r@ == Map::<A::Key, TcpLookupValue>::empty(),
    {
        TcpListenerTable { values: IndexedValues::new(64) }
    }

    pub fn lookup(&self, key: A::Key) -> (r: Option<TcpLookupValue>)
        ensures
            r == (if self@.contains_key(key) {
                Some(self@[key])
            } else {
                None
            }),
    {
        proof {
            use_type_invariant(&*self);
        }
        self.values.lookup(key)
    }

    /// Puts a listener at a key, or in place of the one that is there.
    pub fn insert(&mut self, key: A::Key, value: TcpLookupValue)
        ensures
            final(self).well_formed(),
            final(self)@ == old(self)@.insert(key, value),
    {
        proof {
            use_type_invariant(&*self);
        }
        let mut values = IndexedValues::new(1);
        std::mem::swap(&mut values, &mut self.values);
        values.insert(key, value);
        self.values = values;
    }
}

impl<A: TcpListenerAddress> Clone for TcpListenerTable<A> {
    fn clone(&self) -> (r: Self)
        ensures
            r.well_formed(),
            r@ == self@,
    {
        proof {
            use_type_invariant(self);
        }
        TcpListenerTable { values: self.values.clone() }
    }
}

impl<A: TcpListenerAddress> Default for TcpListenerTable<A> {
    fn default() -> (r: Self)
        ensures
            r.well_formed(),
            r@ == Map::<A::Key, TcpLookupValue>::empty(),
    {
        TcpListenerTable::empty()
    }
}

/// The listeners of both IP versions.
#[derive(Debug)]
pub struct TcpListenerLookup {
    v4: TcpListenerTable<TcpIpv4ListenerAddress>,
    v6: TcpListenerTable<TcpIpv6ListenerAddress>,
}

impl TcpListenerLookup {
    pub closed spec fn spec_v4(self) -> TcpListenerTable<TcpIpv4ListenerAddress> {
        self.v4
    }

    pub closed spec fn spec_v6(self) -> TcpListenerTable<TcpIpv6ListenerAddress> {
        self.v6
    }

    pub open spec fn well_formed(self) -> bool {
        self.spec_v4().well_formed() && self.spec_v6().well_formed()
    }

    pub fn empty() -> (r: Self)
        ensures
            r.well_formed(),
            r.spec_v4()@ == Map::<TcpV4ListenerKey, TcpLookupValue>::empty(),
            r.spec_v6()@ == Map::<TcpV6ListenerKey, TcpLookupValue>::empty(),
    {
        TcpListenerLookup { v4: TcpListenerTable::empty(), v6: TcpListenerTable::empty() }
    }

    pub fn v4(&self) -> (r: &TcpListenerTable<TcpIpv4ListenerAddress>)
        ensures
            *r == self.spec_v4(),
    {
        &self.v4
    }

    pub fn v6(&self) -> (r: &TcpListenerTable<TcpIpv6ListenerAddress>)
        ensures
            *r == self.spec_v6(),
    {
        &self.v6
    }

    pub fn v4_mut(&mut self) -> (r: &mut TcpListenerTable<TcpIpv4ListenerAddress>)
        ensures
            *r == old(self).spec_v4(),
            final(self).spec_v4() == *final(r),
            final(self).spec_v6() == old(self).spec_v6(),
    {
        &mut self.v4
    }

    pub fn v6_mut(&mut self) -> (r: &mut TcpListenerTable<TcpIpv6ListenerAddress>)
        ensures
            *r == old(self).spec_v6(),
            final(self).spec_v6() == *final(r),
            final(self).spec_v4() == old(self).spec_v4(),
    {
        &mut self.v6
    }
}

impl Clone for TcpListenerLookup {
    fn clone(&self) -> (r: Self)
        ensures
            r.well_formed(),
            r.spec_v4()@ == self.spec_v4()@,
            r.spec_v6()@ == self.spec_v6()@,
    {
        TcpListenerLookup { v4: self.v4.clone(), v6: self.v6.clone() }
    }
}

impl Default for TcpListenerLookup {
    fn default() -> (r: Self)
        ensures
            r.well_formed(),
            r.spec_v4()@ == Map::<TcpV4ListenerKey, TcpLookupValue>::empty(),
            r.spec_v6()@ == Map::<TcpV6ListenerKey, TcpLookupValue>::empty(),
    {
        TcpListenerLookup::empty()
    }
}

/// The listeners as they were published last.
#[derive(Debug)]
pub struct TcpLookupSnapshot {
    listeners: TcpListenerLookup,
}

/// The table for one IP version in something that has tables for both.
pub trait TcpListenerLookupAccess<A: TcpListenerAddress> {
    spec fn spec_table(&self) -> TcpListenerTable<A>;

    /// The two are the same but for this table.
    spec fn same_elsewhere(&self, other: &Self) -> bool;

    fn listener_table(&self) -> (r: &TcpListenerTable<A>)
        ensures
            *r == self.spec_table(),
    ;

    fn listener_table_mut(&mut self) -> (r: &mut TcpListenerTable<A>)
        ensures
            *r == old(self).spec_table(),
            final(self).spec_table() == *final(r),
            old(self).same_elsewhere(final(self)),
    ;
}

impl TcpLookupSnapshot {
    pub closed spec fn spec_listeners(self) -> TcpListenerLookup {
        self.listeners
    }

    pub open spec fn well_formed(self) -> bool {
        self.spec_listeners().well_formed()
    }

    pub fn empty() -> (r: Self)
        ensures
            r.well_formed(),
            r.spec_listeners().spec_v4()@ == Map::<TcpV4ListenerKey, TcpLookupValue>::empty(),
            r.spec_listeners().spec_v6()@ == Map::<TcpV6ListenerKey, TcpLookupValue>::empty(),
    {
        TcpLookupSnapshot { listeners: TcpListenerLookup::empty() }
    }

    /// Every snapshot is well formed, wherever it comes from.
    pub(crate) fn checked(&self)
        ensures
            self.well_formed(),
    {
        proof {
            use_type_invariant(&self.listeners.v4);
            use_type_invariant(&self.listeners.v6);
        }
    }

    /// The listener at a key of either IP version.
    pub fn lookup_listener<A: TcpListenerAddress>(&self, key: A::Key) -> (r: Option<
        TcpLookupValue,
    >) where Self: TcpListenerLookupAccess<A>
        ensures
            ({
                let table = TcpListenerLookupAccess::<A>::spec_table(self)@;
                r == (if table.contains_key(key) {
                    Some(table[key])
                } else {
                    None
                })
            }),
    {
        TcpListenerLookupAccess::<A>::listener_table(self).lookup(key)
    }

    /// Puts a listener at a key of either IP version.
    pub fn insert_listener<A: TcpListenerAddress>(
        &mut self,
        key: A::Key,
        value: TcpLookupValue,
    ) where Self: TcpListenerLookupAccess<A>
        ensures
            TcpListenerLookupAccess::<A>::spec_table(final(self)).well_formed(),
            TcpListenerLookupAccess::<A>::spec_table(final(self))@
                == TcpListenerLookupAccess::<A>::spec_table(old(self))@.insert(key, value),
            TcpListenerLookupAccess::<A>::same_elsewhere(old(self), final(self)),
    {
        TcpListenerLookupAccess::<A>::listener_table_mut(self).insert(key, value);
    }
}

impl TcpListenerLookupAccess<TcpIpv4ListenerAddress> for TcpLookupSnapshot {
    open spec fn spec_table(&self) -> TcpListenerTable<TcpIpv4ListenerAddress> {
        self.spec_listeners().spec_v4()
    }

    open spec fn same_elsewhere(&self, other: &Self) -> bool {
        self.spec_listeners().spec_v6() == other.spec_listeners().spec_v6()
    }

    fn listener_table(&self) -> (r: &TcpListenerTable<TcpIpv4ListenerAddress>) {
        self.listeners.v4()
    }

    fn listener_table_mut(&mut self) -> (r: &mut TcpListenerTable<TcpIpv4ListenerAddress>) {
        self.listeners.v4_mut()
    }
}

impl TcpListenerLookupAccess<TcpIpv6ListenerAddress> for TcpLookupSnapshot {
    open spec fn spec_table(&self) -> TcpListenerTable<TcpIpv6ListenerAddress> {
        self.spec_listeners().spec_v6()
    }

    open spec fn same_elsewhere(&self, other: &Self) -> bool {
        self.spec_listeners().spec_v4() == other.spec_listeners().spec_v4()
    }

    fn listener_table(&self) -> (r: &TcpListenerTable<TcpIpv6ListenerAddress>) {
        self.listeners.v6()
    }

    fn listener_table_mut(&mut self) -> (r: &mut TcpListenerTable<TcpIpv6ListenerAddress>) {
        self.listeners.v6_mut()
    }
}

impl Clone for TcpLookupSnapshot {
    fn clone(&self) -> (r: Self)
        ensures
            r.well_formed(),
            r.spec_listeners().spec_v4()@ == self.spec_listeners().spec_v4()@,
            r.spec_listeners().spec_v6()@ == self.spec_listeners().spec_v6()@,
    {
        TcpLookupSnapshot { listeners: self.listeners.clone() }
    }
}

impl Default for TcpLookupSnapshot {
    fn default() -> (r: Self)
        ensures
            r.well_formed(),
            r.spec_listeners().spec_v4()@ == Map::<TcpV4ListenerKey, TcpLookupValue>::empty(),
            r.spec_listeners().spec_v6()@ == Map::<TcpV6ListenerKey, TcpLookupValue>::empty(),
    {
        TcpLookupSnapshot::empty()
    }
}

} // verus!
