//! The cookies that listeners hand out: SYN cookies and fast open cookies.
//!
//! A cookie is a keyed hash over what it vouches for. The keys are drawn at
//! random, one for each listener and epoch, and kept for the current epoch and
//! the one before it.
use std::collections::hash_map::RandomState;
use std::hash::BuildHasher;

use vstd::prelude::*;

use crate::bytes;
use crate::bytes::{be_u32, push_be128, push_be16, push_be32, push_be64};
use crate::tcp::listener_pending::TcpLookupId;
use crate::tcp::types::{IpAddress, SocketAddress, TcpFastOpenCookie};

verus! {

pub const TCP_FAST_OPEN_COOKIE_LEN: usize = 16;

pub const TCP_FAST_OPEN_COOKIE_VERSION: u8 = 1;

pub const TCP_FAST_OPEN_COOKIE_ROTATION_SECS: u64 = 3_600;

pub const TCP_FAST_OPEN_COOKIE_TAG_LEN: usize = 11;

pub const TCP_FAST_OPEN_COOKIE_PREVIOUS_EPOCH_WINDOW: u32 = 1;

pub const TCP_LISTENER_COOKIE_ROTATION_SECS: u64 = 3_600;

pub const TCP_LISTENER_COOKIE_PREVIOUS_EPOCH_WINDOW: u32 = 1;

/// What `RandomState::hash_one` makes of a byte slice. The state, which holds the
/// keys that were drawn for it, is part of the argument: two states may hash the
/// same bytes to different words.
pub uninterp spec fn keyed_hash(secret: RandomState, content: Seq<u8>) -> u64;

/// Calls `BuildHasher::hash_one` on a `RandomState`. A particular `RandomState`
/// builds the same hasher every time, so the word depends on that state and on
/// the bytes alone. Nothing is said of which word it is.
#[verifier::external_body]
fn hash_with(secret: &RandomState, content: &[u8]) -> (r: u64)
    ensures
        r == keyed_hash(*secret, content@),
{
    secret.hash_one(content)
}

/// Calls `RandomState::new`. Its keys are drawn at random, so nothing is said of them.
#[verifier::external_body]
fn fresh_secret() -> RandomState {
    RandomState::new()
}

/// The number of the epoch that `now_secs` falls into, in 32 bits.
pub fn cookie_epoch(now_secs: u64, rotation_secs: u64) -> (r: u32)
    requires
        rotation_secs > 0,
    ensures
        r == (now_secs as int / rotation_secs as int) % 0x1_0000_0000,
{
    ((now_secs / rotation_secs) % 0x1_0000_0000) as u32
}

/// The bytes of an address, its port and, for IPv6, its flow information and scope.
pub open spec fn address_bytes(address: SocketAddress) -> Seq<u8> {
    match address.ip {
        IpAddress::V4(ip) => seq![4u8] + bytes::be32(ip) + bytes::be16(address.port),
        IpAddress::V6(ip) => seq![6u8] + bytes::be128(ip) + bytes::be16(address.port)
            + bytes::be32(address.flow_info) + bytes::be32(address.scope_id),
    }
}

fn push_address(out: &mut Vec<u8>, address: SocketAddress)
    ensures
        final(out)@ == old(out)@ + address_bytes(address),
{
    match address.ip {
        IpAddress::V4(ip) => {
            out.push(4);
            push_be32(out, ip);
            push_be16(out, address.port);
        },
        IpAddress::V6(ip) => {
            out.push(6);
            push_be128(out, ip);
            push_be16(out, address.port);
            push_be32(out, address.flow_info);
            push_be32(out, address.scope_id);
        },
    }
    proof {
        assert(out@ =~= old(out)@ + address_bytes(address));
    }
}

/// What one word of a fast open cookie's tag vouches for.
pub open spec fn fast_open_content(
    discriminator: u64,
    listener_id: TcpLookupId,
    local: SocketAddress,
    remote: SocketAddress,
    epoch: u32,
) -> Seq<u8> {
    bytes::be64(discriminator) + bytes::be32(listener_id) + bytes::be32(epoch) + address_bytes(
        local,
    ) + address_bytes(remote)
}

/// What a SYN cookie vouches for.
pub open spec fn listener_content(
    listener_id: TcpLookupId,
    local: SocketAddress,
    remote: SocketAddress,
    client_sequence: u32,
    epoch: u32,
) -> Seq<u8> {
    bytes::be32(listener_id) + bytes::be32(epoch) + bytes::be32(client_sequence) + address_bytes(
        local,
    ) + address_bytes(remote)
}

/// The bytes of a fast open cookie: version, epoch, and eleven bytes of tag.
pub open spec fn fast_open_bytes(
    secret: RandomState,
    listener_id: TcpLookupId,
    local: SocketAddress,
    remote: SocketAddress,
    epoch: u32,
) -> Seq<u8> {
    let first = keyed_hash(secret, fast_open_content(0, listener_id, local, remote, epoch));
    let second = keyed_hash(secret, fast_open_content(1, listener_id, local, remote, epoch));
    seq![TCP_FAST_OPEN_COOKIE_VERSION] + bytes::be32(epoch) + (bytes::be64(first) + bytes::be64(
        second,
    )).take(TCP_FAST_OPEN_COOKIE_TAG_LEN as int)
}

/// The SYN cookie: the low half of the keyed hash, never zero.
pub open spec fn listener_word(
    secret: RandomState,
    listener_id: TcpLookupId,
    local: SocketAddress,
    remote: SocketAddress,
    client_sequence: u32,
    epoch: u32,
) -> u32 {
    let word = keyed_hash(
        secret,
        listener_content(listener_id, local, remote, client_sequence, epoch),
    ) as int % 0x1_0000_0000;
    if word == 0 {
        1
    } else {
        word as u32
    }
}

/// The epoch that a fast open cookie names, if it has the form of one.
pub open spec fn named_epoch(cookie: Seq<u8>) -> Option<u32> {
    if cookie.len() == TCP_FAST_OPEN_COOKIE_LEN && cookie[0] == TCP_FAST_OPEN_COOKIE_VERSION {
        Some(bytes::read32(cookie[1], cookie[2], cookie[3], cookie[4]))
    } else {
        None
    }
}

fn fast_open_cookie_tag_word(
    secret: &RandomState,
    listener_id: TcpLookupId,
    local: SocketAddress,
    remote: SocketAddress,
    epoch: u32,
    discriminator: u64,
) -> (r: u64)
    ensures
        r == keyed_hash(
            *secret,
            fast_open_content(discriminator, listener_id, local, remote, epoch),
        ),
{
    let mut content: Vec<u8> = Vec::new();
    push_be64(&mut content, discriminator);
    push_be32(&mut content, listener_id);
    push_be32(&mut content, epoch);
    push_address(&mut content, local);
    push_address(&mut content, remote);
    proof {
        assert(content@ =~= fast_open_content(discriminator, listener_id, local, remote, epoch));
    }
    hash_with(secret, content.as_slice())
}

/// The fast open cookie of a tuple at a listener in an epoch.
pub fn build_fast_open_cookie(
    secret: &RandomState,
    listener_id: TcpLookupId,
    local: SocketAddress,
    remote: SocketAddress,
    epoch: u32,
) -> (r: TcpFastOpenCookie)
    ensures
        r.len == TCP_FAST_OPEN_COOKIE_LEN,
        r@ == fast_open_bytes(*secret, listener_id, local, remote, epoch),
{
    let first: u64 = fast_open_cookie_tag_word(secret, listener_id, local, remote, epoch, 0);
    let second: u64 = fast_open_cookie_tag_word(secret, listener_id, local, remote, epoch, 1);
    let mut content: Vec<u8> = Vec::new();
    content.push(TCP_FAST_OPEN_COOKIE_VERSION);
    push_be32(&mut content, epoch);
    push_be64(&mut content, first);
    push_be64(&mut content, second);
    let ghost expected = fast_open_bytes(*secret, listener_id, local, remote, epoch);
    assert(content@.take(16) =~= expected);
    let mut out: [u8; 16] = [0u8;16];
    let mut i: usize = 0;
    while i < TCP_FAST_OPEN_COOKIE_LEN
        invariant
            i <= 16,
            content@.len() == 21,
            forall|k: int| 0 <= k < i ==> out@[k] == content@[k],
        decreases 16 - i,
    {
        out[i] = content[i];
        i = i + 1;
    }
    let cookie = TcpFastOpenCookie { bytes: out, len: 16 };
    proof {
        assert(cookie@ =~= content@.take(16));
    }
    cookie
}

/// The SYN cookie of a tuple and its client's sequence number.
pub fn listener_cookie_word(
    secret: &RandomState,
    listener_id: TcpLookupId,
    local: SocketAddress,
    remote: SocketAddress,
    client_sequence: u32,
    epoch: u32,
) -> (r: u32)
    ensures
        r == listener_word(*secret, listener_id, local, remote, client_sequence, epoch),
{
    let mut content: Vec<u8> = Vec::new();
    push_be32(&mut content, listener_id);
    push_be32(&mut content, epoch);
    push_be32(&mut content, client_sequence);
    push_address(&mut content, local);
    push_address(&mut content, remote);
    proof {
        assert(content@ =~= listener_content(listener_id, local, remote, client_sequence, epoch));
    }
    let word: u32 = (hash_with(secret, content.as_slice()) % 0x1_0000_0000) as u32;
    if word == 0 {
        1
    } else {
        word
    }
}

/// One key and what it is for.
#[derive(Debug)]
struct TcpCookieSecret {
    listener_id: TcpLookupId,
    epoch: u32,
    secret: RandomState,
}

/// The keys of one kind of cookie.
#[derive(Debug)]
pub struct TcpCookieSecrets {
    secrets: Vec<TcpCookieSecret>,
}

/// A key of `listener_id` for `epoch` is out of the window of `current_epoch`.
pub open spec fn expired(epoch: u32, current_epoch: u32, window: u32) -> bool {
    current_epoch < epoch || current_epoch - epoch > window
}

/// The keys that are left once a listener's expired ones are gone.
pub open spec fn unexpired(
    secrets: Map<(TcpLookupId, u32), RandomState>,
    listener_id: TcpLookupId,
    current_epoch: u32,
    window: u32,
) -> Map<(TcpLookupId, u32), RandomState> {
    Map::new(
        |key: (TcpLookupId, u32)|
            secrets.contains_key(key) && !(key.0 == listener_id && expired(
                key.1,
                current_epoch,
                window,
            )),
        |key: (TcpLookupId, u32)| secrets[key],
    )
}

/// `after` is `before` once a key was asked for: expired keys gone, and a fresh
/// one there if there was none.
pub open spec fn key_ready(
    before: Map<(TcpLookupId, u32), RandomState>,
    after: Map<(TcpLookupId, u32), RandomState>,
    listener_id: TcpLookupId,
    epoch: u32,
    window: u32,
) -> bool {
    let left = unexpired(before, listener_id, epoch, window);
    let key = (listener_id, epoch);
    &&& after.contains_key(key)
    &&& after == (if left.contains_key(key) {
        left
    } else {
        left.insert(key, after[key])
    })
}

/// Some listener has a key for `epoch`.
pub open spec fn epoch_kept(secrets: Map<(TcpLookupId, u32), RandomState>, epoch: u32) -> bool {
    exists|listener_id: TcpLookupId| #[trigger] secrets.contains_key((listener_id, epoch))
}

impl View for TcpCookieSecrets {
    type V = Map<(TcpLookupId, u32), RandomState>;

    closed spec fn view(&self) -> Map<(TcpLookupId, u32), RandomState> {
        secrets_by_key(self.secrets@)
    }
}

/// Where the key for a listener and epoch stands.
spec fn stands_at(secrets: Seq<TcpCookieSecret>, key: (TcpLookupId, u32), i: int) -> bool {
    0 <= i < secrets.len() && secrets[i].listener_id == key.0 && secrets[i].epoch == key.1
}

spec fn secrets_by_key(secrets: Seq<TcpCookieSecret>) -> Map<(TcpLookupId, u32), RandomState> {
    Map::new(
        |key: (TcpLookupId, u32)| exists|i: int| stands_at(secrets, key, i),
        |key: (TcpLookupId, u32)| secrets[choose|i: int| stands_at(secrets, key, i)].secret,
    )
}

spec fn keys_unique(secrets: Seq<TcpCookieSecret>) -> bool {
    forall|key: (TcpLookupId, u32), i: int, j: int|
        #[trigger] stands_at(secrets, key, i) && #[trigger] stands_at(secrets, key, j) ==> i == j
}

proof fn lemma_found(secrets: Seq<TcpCookieSecret>, i: int)
    requires
        keys_unique(secrets),
        0 <= i < secrets.len(),
    ensures
        ({
            let key = (secrets[i].listener_id, secrets[i].epoch);
            &&& secrets_by_key(secrets).contains_key(key)
            &&& secrets_by_key(secrets)[key] == secrets[i].secret
        }),
{
    let key = (secrets[i].listener_id, secrets[i].epoch);
    assert(stands_at(secrets, key, i));
}

/// There are as many keys as entries.
proof fn lemma_count(secrets: Seq<TcpCookieSecret>)
    requires
        keys_unique(secrets),
    ensures
        secrets_by_key(secrets).dom().len() == secrets.len(),
{
    let keys = secrets.map_values(|entry: TcpCookieSecret| (entry.listener_id, entry.epoch));
    assert forall|i: int, j: int| 0 <= i < keys.len() && 0 <= j < keys.len() && i != j implies keys[i]
        != keys[j] by {
        assert(stands_at(secrets, keys[i], i));
        assert(stands_at(secrets, keys[j], j));
    }
    keys.unique_seq_to_set();
    assert forall|key: (TcpLookupId, u32)| secrets_by_key(secrets).dom().contains(
        key,
    ) == keys.to_set().contains(key) by {
        if secrets_by_key(secrets).dom().contains(key) {
            let i = choose|i: int| stands_at(secrets, key, i);
            assert(keys[i] == key);
        }
        if keys.contains(key) {
            let i = choose|i: int| 0 <= i < keys.len() && keys[i] == key;
            assert(stands_at(secrets, key, i));
        }
    }
    assert(secrets_by_key(secrets).dom() =~= keys.to_set());
}

impl TcpCookieSecrets {
    pub closed spec fn well_formed(self) -> bool {
        keys_unique(self.secrets@)
    }

    pub fn new() -> (r: Self)
        ensures
            r.well_formed(),
            r@ == Map::<(TcpLookupId, u32), RandomState>::empty(),
            r.spec_len() == 0,
    {
        let r = TcpCookieSecrets { secrets: Vec::new() };
        proof {
            assert(r@ =~= Map::<(TcpLookupId, u32), RandomState>::empty());
        }
        r
    }

    /// How many keys are kept.
    pub fn len(&self) -> (r: usize)
        ensures
            r == self.spec_len(),
            self.well_formed() ==> r == self@.dom().len(),
    {
        proof {
            if self.well_formed() {
                lemma_count(self.secrets@);
            }
        }
        self.secrets.len()
    }

    pub closed spec fn spec_len(self) -> nat {
        self.secrets@.len()
    }

    /// The epochs of the keys that are kept.
    pub fn epochs(&self) -> (r: Vec<u32>)
        ensures
            forall|k: int| 0 <= k < r@.len() ==> epoch_kept(self@, #[trigger] r@[k]),
            forall|epoch: u32| #[trigger] epoch_kept(self@, epoch) ==> r@.contains(epoch),
            r@.len() == self.spec_len(),
    {
        let mut out: Vec<u32> = Vec::new();
        let mut i: usize = 0;
        while i < self.secrets.len()
            invariant
                i <= self.secrets@.len(),
                out@.len() == i,
                forall|k: int| 0 <= k < i ==> epoch_kept(self@, #[trigger] out@[k]),
                forall|k: int| 0 <= k < i ==> #[trigger] out@[k] == self.secrets@[k].epoch,
            decreases self.secrets@.len() - i,
        {
            out.push(self.secrets[i].epoch);
            proof {
                let key = (self.secrets@[i as int].listener_id, self.secrets@[i as int].epoch);
                assert(stands_at(self.secrets@, key, i as int));
                assert(self@.contains_key(key));
                assert(epoch_kept(self@, key.1));
            }
            i = i + 1;
        }
        proof {
            assert forall|epoch: u32| #[trigger] epoch_kept(self@, epoch) implies out@.contains(
                epoch,
            ) by {
                let listener_id = choose|listener_id: TcpLookupId| #[trigger]
                    self@.contains_key((listener_id, epoch));
                let k = choose|k: int| stands_at(self.secrets@, (listener_id, epoch), k);
                assert(out@[k] == epoch);
            }
        }
        out
    }

    /// Drops a listener's keys that are out of the window.
    fn prune(&mut self, listener_id: TcpLookupId, current_epoch: u32, window: u32)
        requires
            old(self).well_formed(),
        ensures
            final(self).well_formed(),
            final(self)@ == unexpired(old(self)@, listener_id, current_epoch, window),
    {
        let ghost before = self.secrets@;
        let mut index: usize = 0;
        while index < self.secrets.len()
            invariant
                index <= self.secrets@.len(),
                keys_unique(before),
                keys_unique(self.secrets@),
                forall|i: int|
                    0 <= i < self.secrets@.len() ==> before.contains(#[trigger] self.secrets@[i]),
                forall|j: int|
                    0 <= j < before.len() && !to_drop(
                        #[trigger] before[j],
                        listener_id,
                        current_epoch,
                        window,
                    ) ==> self.secrets@.contains(before[j]),
                forall|i: int|
                    0 <= i < index ==> !to_drop(
                        #[trigger] self.secrets@[i],
                        listener_id,
                        current_epoch,
                        window,
                    ),
            decreases self.secrets@.len() - index,
        {
            let is_listener = self.secrets[index].listener_id == listener_id;
            let epoch: u32 = self.secrets[index].epoch;
            let drop_it = is_listener && (current_epoch < epoch || current_epoch - epoch > window);
            if drop_it {
                let ghost earlier = self.secrets@;
                let _ = self.secrets.swap_remove(index);
                proof {
                    let last = earlier.len() - 1;
                    assert forall|i: int| 0 <= i < self.secrets@.len() implies before.contains(
                        #[trigger] self.secrets@[i],
                    ) by {
                        let source = if i == index {
                            last
                        } else {
                            i
                        };
                        assert(self.secrets@[i] == earlier[source]);
                    }
                    assert forall|j: int|
                        0 <= j < before.len() && !to_drop(
                            #[trigger] before[j],
                            listener_id,
                            current_epoch,
                            window,
                        ) implies self.secrets@.contains(before[j]) by {
                        assert(earlier.contains(before[j]));
                        let i = choose|i: int| 0 <= i < earlier.len() && earlier[i] == before[j];
                        assert(i != index);
                        let target = if i == last {
                            index as int
                        } else {
                            i
                        };
                        assert(self.secrets@[target] == before[j]);
                    }
                    assert forall|key: (TcpLookupId, u32), a: int, b: int|
                        #[trigger] stands_at(self.secrets@, key, a) && #[trigger] stands_at(
                            self.secrets@,
                            key,
                            b,
                        ) implies a == b by {
                        let a0 = if a == index {
                            last
                        } else {
                            a
                        };
                        let b0 = if b == index {
                            last
                        } else {
                            b
                        };
                        assert(stands_at(earlier, key, a0));
                        assert(stands_at(earlier, key, b0));
                    }
                }
            } else {
                index = index + 1;
            }
        }
        proof {
            let after = self.secrets@;
            let expected = unexpired(old(self)@, listener_id, current_epoch, window);
            assert forall|key: (TcpLookupId, u32)| #[trigger]
                self@.dom().contains(key) == expected.dom().contains(key) && (self@.dom().contains(
                    key,
                ) ==> self@[key] == expected[key]) by {
                if self@.contains_key(key) {
                    let i = choose|i: int| stands_at(after, key, i);
                    assert(before.contains(after[i]));
                    let j = choose|j: int| 0 <= j < before.len() && before[j] == after[i];
                    lemma_found(after, i);
                    lemma_found(before, j);
                    assert(!to_drop(after[i], listener_id, current_epoch, window));
                }
                if expected.contains_key(key) {
                    let j = choose|j: int| stands_at(before, key, j);
                    assert(!to_drop(before[j], listener_id, current_epoch, window));
                    assert(after.contains(before[j]));
                    let i = choose|i: int| 0 <= i < after.len() && after[i] == before[j];
                    lemma_found(after, i);
                    lemma_found(before, j);
                }
            }
            assert(self@.dom() =~= expected.dom());
            assert(self@ =~= expected);
        }
    }

    /// Makes sure that there is a key for a listener and epoch, and returns where
    /// it stands.
    fn ready(&mut self, listener_id: TcpLookupId, epoch: u32, window: u32) -> (r: usize)
        requires
            old(self).well_formed(),
        ensures
            final(self).well_formed(),
            key_ready(old(self)@, final(self)@, listener_id, epoch, window),
            r < final(self).secrets@.len(),
            final(self).secrets@[r as int].secret == final(self)@[(listener_id, epoch)],
    {
        self.prune(listener_id, epoch, window);
        let ghost left = self.secrets@;
        let ghost key = (listener_id, epoch);
        let mut i: usize = 0;
        while i < self.secrets.len()
            invariant
                i <= self.secrets@.len(),
                self.secrets@ == left,
                keys_unique(left),
                key == (listener_id, epoch),
                self@ == unexpired(old(self)@, listener_id, epoch, window),
                forall|k: int| 0 <= k < i ==> !stands_at(left, key, k),
            decreases self.secrets@.len() - i,
        {
            if self.secrets[i].listener_id == listener_id && self.secrets[i].epoch == epoch {
                proof {
                    lemma_found(left, i as int);
                }
                return i;
            }
            i = i + 1;
        }
        let secret = fresh_secret();
        self.secrets.push(TcpCookieSecret { listener_id, epoch, secret });
        proof {
            let after = self.secrets@;
            let before = unexpired(old(self)@, listener_id, epoch, window);
            assert forall|k: (TcpLookupId, u32), a: int, b: int|
                #[trigger] stands_at(after, k, a) && #[trigger] stands_at(after, k, b) implies a
                == b by {
                if a < left.len() && b < left.len() {
                    assert(stands_at(left, k, a));
                    assert(stands_at(left, k, b));
                } else if a < left.len() {
                    assert(stands_at(left, k, a));
                    assert(!stands_at(left, key, a));
                } else if b < left.len() {
                    assert(stands_at(left, k, b));
                    assert(!stands_at(left, key, b));
                }
            }
            lemma_found(after, i as int);
            assert(!before.contains_key(key));
            let expected = before.insert(key, self@[key]);
            assert forall|k: (TcpLookupId, u32)| #[trigger]
                self@.dom().contains(k) == expected.dom().contains(k) && (self@.dom().contains(k)
                    ==> self@[k] == expected[k]) by {
                if k != key {
                    if self@.contains_key(k) {
                        let a = choose|a: int| stands_at(after, k, a);
                        assert(stands_at(left, k, a));
                        lemma_found(left, a);
                        lemma_found(after, a);
                    }
                    if before.contains_key(k) {
                        let a = choose|a: int| stands_at(left, k, a);
                        assert(stands_at(after, k, a));
                        lemma_found(left, a);
                        lemma_found(after, a);
                    }
                }
            }
            assert(self@.dom() =~= expected.dom());
            assert(self@ =~= expected);
        }
        i
    }

    /// A fast open cookie for a tuple at a listener.
    pub fn fast_open_cookie_for_listener_in_epoch(
        &mut self,
        listener_id: TcpLookupId,
        local: SocketAddress,
        remote: SocketAddress,
        epoch: u32,
    ) -> (r: TcpFastOpenCookie)
        requires
            old(self).well_formed(),
        ensures
            final(self).well_formed(),
            key_ready(
                old(self)@,
                final(self)@,
                listener_id,
                epoch,
                TCP_FAST_OPEN_COOKIE_PREVIOUS_EPOCH_WINDOW,
            ),
            r.len == TCP_FAST_OPEN_COOKIE_LEN,
            r@ == fast_open_bytes(
                final(self)@[(listener_id, epoch)],
                listener_id,
                local,
                remote,
                epoch,
            ),
    {
        let index: usize = self.ready(
            listener_id,
            epoch,
            TCP_FAST_OPEN_COOKIE_PREVIOUS_EPOCH_WINDOW,
        );
        build_fast_open_cookie(&self.secrets[index].secret, listener_id, local, remote, epoch)
    }

    /// Whether a fast open cookie is the one for a tuple at a listener, of this
    /// epoch or the one before.
    pub fn validate_fast_open_cookie_in_epoch(
        &mut self,
        listener_id: TcpLookupId,
        local: SocketAddress,
        remote: SocketAddress,
        cookie: &[u8],
        epoch: u32,
    ) -> (r: bool)
        requires
            old(self).well_formed(),
        ensures
            final(self).well_formed(),
            fast_open_validation(
                old(self)@,
                final(self)@,
                listener_id,
                local,
                remote,
                cookie@,
                epoch,
                r,
            ),
    {
        if cookie.len() != TCP_FAST_OPEN_COOKIE_LEN {
            return false;
        }
        if cookie[0] != TCP_FAST_OPEN_COOKIE_VERSION {
            return false;
        }
        let cookie_epoch: u32 = be_u32(cookie, 1);
        if epoch < cookie_epoch || epoch - cookie_epoch
            > TCP_FAST_OPEN_COOKIE_PREVIOUS_EPOCH_WINDOW {
            return false;
        }
        let expected = self.fast_open_cookie_for_listener_in_epoch(
            listener_id,
            local,
            remote,
            cookie_epoch,
        );
        let mut different: u8 = 0;
        let mut i: usize = 0;
        while i < TCP_FAST_OPEN_COOKIE_LEN
            invariant
                i <= 16,
                cookie@.len() == 16,
                expected.len == 16,
                (different == 0) == (forall|k: int|
                    0 <= k < i ==> cookie@[k] == expected.bytes@[k]),
            decreases 16 - i,
        {
            let a: u8 = cookie[i];
            let b: u8 = expected.bytes[i];
            let ghost so_far = different;
            different = different | (a ^ b);
            proof {
                assert((so_far | (a ^ b) == 0) == (so_far == 0 && a == b)) by (bit_vector);
            }
            i = i + 1;
        }
        proof {
            assert((cookie@ == expected@) == (forall|k: int|
                0 <= k < 16 ==> cookie@[k] == expected.bytes@[k])) by {
                if forall|k: int| 0 <= k < 16 ==> cookie@[k] == expected.bytes@[k] {
                    assert(cookie@ =~= expected@);
                } else {
                    let k = choose|k: int| 0 <= k < 16 && cookie@[k] != expected.bytes@[k];
                    assert(expected@[k] == expected.bytes@[k]);
                }
            }
        }
        different == 0
    }

    /// The SYN cookie for a tuple and its client's sequence number.
    pub fn listener_cookie_for_syn_in_epoch(
        &mut self,
        listener_id: TcpLookupId,
        local: SocketAddress,
        remote: SocketAddress,
        client_sequence: u32,
        epoch: u32,
    ) -> (r: u32)
        requires
            old(self).well_formed(),
        ensures
            final(self).well_formed(),
            key_ready(
                old(self)@,
                final(self)@,
                listener_id,
                epoch,
                TCP_LISTENER_COOKIE_PREVIOUS_EPOCH_WINDOW,
            ),
            r == listener_word(
                final(self)@[(listener_id, epoch)],
                listener_id,
                local,
                remote,
                client_sequence,
                epoch,
            ),
    {
        let index: usize = self.ready(
            listener_id,
            epoch,
            TCP_LISTENER_COOKIE_PREVIOUS_EPOCH_WINDOW,
        );
        listener_cookie_word(
            &self.secrets[index].secret,
            listener_id,
            local,
            remote,
            client_sequence,
            epoch,
        )
    }

    /// Whether a SYN cookie is the one for a tuple and sequence number, of this
    /// epoch or the one before.
    pub fn validate_listener_cookie_in_epoch(
        &mut self,
        listener_id: TcpLookupId,
        local: SocketAddress,
        remote: SocketAddress,
        client_sequence: u32,
        cookie: u32,
        epoch: u32,
    ) -> (r: bool)
        requires
            old(self).well_formed(),
        ensures
            final(self).well_formed(),
            listener_validation(
                old(self)@,
                final(self)@,
                listener_id,
                local,
                remote,
                client_sequence,
                cookie,
                epoch,
                r,
            ),
    {
        let current: u32 = self.listener_cookie_for_syn_in_epoch(
            listener_id,
            local,
            remote,
            client_sequence,
            epoch,
        );
        let ghost middle = self@;
        if current == cookie {
            proof {
                assert(cookie_checked(
                    old(self)@,
                    middle,
                    listener_id,
                    local,
                    remote,
                    client_sequence,
                    cookie,
                    epoch,
                    true,
                ));
            }
            return true;
        }
        proof {
            assert(cookie_checked(
                old(self)@,
                middle,
                listener_id,
                local,
                remote,
                client_sequence,
                cookie,
                epoch,
                false,
            ));
        }
        if epoch == 0 {
            return false;
        }
        self.listener_cookie_for_syn_in_epoch(
            listener_id,
            local,
            remote,
            client_sequence,
            epoch - 1,
        ) == cookie
    }
}

/// A key has to go.
spec fn to_drop(
    secret: TcpCookieSecret,
    listener_id: TcpLookupId,
    current_epoch: u32,
    window: u32,
) -> bool {
    secret.listener_id == listener_id && expired(secret.epoch, current_epoch, window)
}

/// Validating a fast open cookie: it must have the form of one and name this
/// epoch or the one before, and is then compared with the one for that epoch.
pub open spec fn fast_open_validation(
    before: Map<(TcpLookupId, u32), RandomState>,
    after: Map<(TcpLookupId, u32), RandomState>,
    listener_id: TcpLookupId,
    local: SocketAddress,
    remote: SocketAddress,
    cookie: Seq<u8>,
    epoch: u32,
    result: bool,
) -> bool {
    match named_epoch(cookie) {
        Some(named) if !expired(named, epoch, TCP_FAST_OPEN_COOKIE_PREVIOUS_EPOCH_WINDOW) => {
            &&& key_ready(
                before,
                after,
                listener_id,
                named,
                TCP_FAST_OPEN_COOKIE_PREVIOUS_EPOCH_WINDOW,
            )
            &&& result == (cookie == fast_open_bytes(
                after[(listener_id, named)],
                listener_id,
                local,
                remote,
                named,
            ))
        },
        _ => !result && after == before,
    }
}

/// Comparing a SYN cookie with that of one epoch takes the keys from `before` to
/// `after` and comes out as `result`.
pub open spec fn cookie_checked(
    before: Map<(TcpLookupId, u32), RandomState>,
    after: Map<(TcpLookupId, u32), RandomState>,
    listener_id: TcpLookupId,
    local: SocketAddress,
    remote: SocketAddress,
    client_sequence: u32,
    cookie: u32,
    epoch: u32,
    result: bool,
) -> bool {
    &&& key_ready(before, after, listener_id, epoch, TCP_LISTENER_COOKIE_PREVIOUS_EPOCH_WINDOW)
    &&& result == (cookie == listener_word(
        after[(listener_id, epoch)],
        listener_id,
        local,
        remote,
        client_sequence,
        epoch,
    ))
}

/// Validating a SYN cookie: it is compared with that of the current epoch, and
/// failing that, with that of the epoch before.
pub open spec fn listener_validation(
    before: Map<(TcpLookupId, u32), RandomState>,
    after: Map<(TcpLookupId, u32), RandomState>,
    listener_id: TcpLookupId,
    local: SocketAddress,
    remote: SocketAddress,
    client_sequence: u32,
    cookie: u32,
    epoch: u32,
    result: bool,
) -> bool {
    ||| {
        &&& cookie_checked(
            before,
            after,
            listener_id,
            local,
            remote,
            client_sequence,
            cookie,
            epoch,
            result,
        )
        &&& result || epoch == 0
    }
    ||| {
        &&& epoch > 0
        &&& exists|middle: Map<(TcpLookupId, u32), RandomState>|
            {
                &&& #[trigger] cookie_checked(
                    before,
                    middle,
                    listener_id,
                    local,
                    remote,
                    client_sequence,
                    cookie,
                    epoch,
                    false,
                )
                &&& cookie_checked(
                    middle,
                    after,
                    listener_id,
                    local,
                    remote,
                    client_sequence,
                    cookie,
                    (epoch - 1) as u32,
                    result,
                )
            }
    }
}

/// A fast open cookie is accepted in the epoch it was issued in and in the next,
/// and in no other, as long as its key is kept.
pub proof fn issued_fast_open_cookie_is_accepted(
    issued_secrets: Map<(TcpLookupId, u32), RandomState>,
    after: Map<(TcpLookupId, u32), RandomState>,
    listener_id: TcpLookupId,
    local: SocketAddress,
    remote: SocketAddress,
    issued: u32,
    checked: u32,
    result: bool,
)
    requires
        issued_secrets.contains_key((listener_id, issued)),
        fast_open_validation(
            issued_secrets,
            after,
            listener_id,
            local,
            remote,
            fast_open_bytes(
                issued_secrets[(listener_id, issued)],
                listener_id,
                local,
                remote,
                issued,
            ),
            checked,
            result,
        ),
    ensures
        result == (checked == issued || checked == issued + 1),
{
    let cookie = fast_open_bytes(
        issued_secrets[(listener_id, issued)],
        listener_id,
        local,
        remote,
        issued,
    );
    bytes::be32_round_trip(issued);
    assert(cookie.len() == 16);
    assert(cookie[1] == bytes::be32(issued)[0]);
    assert(cookie[2] == bytes::be32(issued)[1]);
    assert(cookie[3] == bytes::be32(issued)[2]);
    assert(cookie[4] == bytes::be32(issued)[3]);
    assert(named_epoch(cookie) == Some(issued));
}

/// A SYN cookie is accepted in the epoch it was issued in and in the next one, as
/// long as its key is kept.
pub proof fn issued_syn_cookie_is_accepted(
    issued_secrets: Map<(TcpLookupId, u32), RandomState>,
    after: Map<(TcpLookupId, u32), RandomState>,
    listener_id: TcpLookupId,
    local: SocketAddress,
    remote: SocketAddress,
    client_sequence: u32,
    issued: u32,
    checked: u32,
    result: bool,
)
    requires
        issued_secrets.contains_key((listener_id, issued)),
        checked == issued || checked == issued + 1,
        listener_validation(
            issued_secrets,
            after,
            listener_id,
            local,
            remote,
            client_sequence,
            listener_word(
                issued_secrets[(listener_id, issued)],
                listener_id,
                local,
                remote,
                client_sequence,
                issued,
            ),
            checked,
            result,
        ),
    ensures
        result,
{
}

} // verus!
