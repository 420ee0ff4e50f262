//! The pair of addresses that a connection is found by.
use vstd::prelude::*;

use crate::collections::hashing;
use crate::collections::hashing::{fold_u128, hash_words};
use crate::collections::table::TableKey;
use crate::tcp::types::{IpAddress, SocketAddress, TcpEndpoint};

verus! {

/// Two ends of the same IP version.
#[derive(Clone, Copy, Debug, PartialEq, Eq, Structural, Hash)]
pub struct TcpTuple {
    pub local: TcpEndpoint,
    pub remote: TcpEndpoint,
}

/// The ends of two addresses.
pub open spec fn key_of(local: SocketAddress, remote: SocketAddress) -> TcpTuple {
    TcpTuple { local: local.spec_endpoint(), remote: remote.spec_endpoint() }
}

pub open spec fn same_version(a: IpAddress, b: IpAddress) -> bool {
    (a is V4) == (b is V4)
}

/// The tuple of two addresses, where they are of the same version.
pub open spec fn tuple_of(local: SocketAddress, remote: SocketAddress) -> Option<TcpTuple> {
    if same_version(local.ip, remote.ip) {
        Some(key_of(local, remote))
    } else {
        None
    }
}

pub fn tcp_tuple(local: SocketAddress, remote: SocketAddress) -> (r: Option<TcpTuple>)
    ensures
        r == tuple_of(local, remote),
{
    let key = TcpTuple { local: local.endpoint(), remote: remote.endpoint() };
    match (local.ip, remote.ip) {
        (IpAddress::V4(_), IpAddress::V4(_)) => Some(key),
        (IpAddress::V6(_), IpAddress::V6(_)) => Some(key),
        _ => None,
    }
}

/// The address as one number.
pub open spec fn ip_number(ip: IpAddress) -> u128 {
    match ip {
        IpAddress::V4(value) => value as u128,
        IpAddress::V6(value) => value,
    }
}

fn ip_to_number(ip: IpAddress) -> (r: u128)
    ensures
        r == ip_number(ip),
{
    match ip {
        IpAddress::V4(value) => value as u128,
        IpAddress::V6(value) => value,
    }
}

impl TableKey for TcpTuple {
    open spec fn spec_hash(self) -> u64 {
        hashing::words_hash(
            seq![
                hashing::folded(ip_number(self.local.ip)),
                hashing::folded(ip_number(self.remote.ip)),
                (self.local.port * 0x1_0000 + self.remote.port) as u64,
            ],
        )
    }

    fn hash(self) -> (r: u64) {
        let words: [u64; 3] = [
            fold_u128(ip_to_number(self.local.ip)),
            fold_u128(ip_to_number(self.remote.ip)),
            self.local.port as u64 * 0x1_0000 + self.remote.port as u64,
        ];
        proof {
            assert(words@ =~= seq![
                hashing::folded(ip_number(self.local.ip)),
                hashing::folded(ip_number(self.remote.ip)),
                (self.local.port * 0x1_0000 + self.remote.port) as u64,
            ]);
        }
        hash_words(&words)
    }

    fn same(self, other: Self) -> (r: bool) {
        self == other
    }
}

} // verus!
