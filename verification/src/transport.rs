//! What all transports have in common.
use vstd::prelude::*;

verus! {

/// How a transport gets at the bytes that a session sends.
#[derive(Clone, Copy, Debug, PartialEq, Eq, Structural)]
pub enum TransportTxMode {
    Peek,
    Dequeue,
    Internal,
    Datagram,
}

/// Whether a transport keeps connections.
#[derive(Clone, Copy, Debug, PartialEq, Eq, Structural)]
pub enum TransportServiceType {
    VirtualCircuit,
    Connectionless,
}

#[derive(Clone, Copy, Debug, PartialEq, Eq, Structural)]
pub struct TransportOptions {
    pub tx_mode: TransportTxMode,
    pub service_type: TransportServiceType,
}

impl TransportOptions {
    pub fn new(tx_mode: TransportTxMode, service_type: TransportServiceType) -> (r: Self)
        ensures
            r == (TransportOptions { tx_mode, service_type }),
    {
        TransportOptions { tx_mode, service_type }
    }

    pub fn tx_mode(self) -> (r: TransportTxMode)
        ensures
            r == self.tx_mode,
    {
        self.tx_mode
    }

    pub fn service_type(self) -> (r: TransportServiceType)
        ensures
            r == self.service_type,
    {
        self.service_type
    }
}

#[derive(Clone, Copy, Debug, PartialEq, Eq, Structural)]
pub struct TransportConnectionFlags {
    pub tx_paced: bool,
    pub no_lookup: bool,
    pub descheduled: bool,
    pub connectionless: bool,
    pub error: bool,
}

impl Default for TransportConnectionFlags {
    fn default() -> (r: Self)
        ensures
            r == (TransportConnectionFlags {
                tx_paced: false,
                no_lookup: false,
                descheduled: false,
                connectionless: false,
                error: false,
            }),
    {
        TransportConnectionFlags {
            tx_paced: false,
            no_lookup: false,
            descheduled: false,
            connectionless: false,
            error: false,
        }
    }
}

#[derive(Clone, Copy, Debug, PartialEq, Eq, Structural)]
pub struct TransportSendFlags {
    pub deschedule: bool,
    pub postpone: bool,
}

impl Default for TransportSendFlags {
    fn default() -> (r: Self)
        ensures
            r == (TransportSendFlags { deschedule: false, postpone: false }),
    {
        TransportSendFlags { deschedule: false, postpone: false }
    }
}

#[derive(Clone, Copy, Debug, PartialEq, Eq, Structural)]
pub struct TransportSendParams {
    pub send_space: u32,
    pub tx_offset: u32,
    pub send_mss: u16,
    pub max_burst_size: u32,
    pub bytes_dequeued: u32,
    pub flags: TransportSendFlags,
}

impl Default for TransportSendParams {
    fn default() -> (r: Self)
        ensures
            r == (TransportSendParams {
                send_space: 0,
                tx_offset: 0,
                send_mss: 0,
                max_burst_size: 0,
                bytes_dequeued: 0,
                flags: TransportSendFlags { deschedule: false, postpone: false },
            }),
    {
        TransportSendParams {
            send_space: 0,
            tx_offset: 0,
            send_mss: 0,
            max_burst_size: 0,
            bytes_dequeued: 0,
            flags: TransportSendFlags::default(),
        }
    }
}

/// The segment that a burst is measured in.
pub const PACER_MIN_MSS: u32 = 1_460;

pub const PACER_MIN_BURST: u32 = 1_460;

pub const PACER_MAX_BURST_PACKETS: u32 = 43;

pub const PACER_MAX_BURST: u32 = 62_780;

/// A token bucket that spreads bursts out. The tokens that a span of time earns
/// are worked out by whoever keeps the clock.
#[derive(Clone, Copy, Debug, PartialEq, Eq, Structural)]
pub struct Pacer {
    pub bytes_per_second: u64,
    pub bucket: i64,
    pub last_update: u64,
    pub min_burst: u32,
    pub max_burst: u32,
}

/// A bucket that lets everything through.
pub open spec fn idle_pacer() -> Pacer {
    Pacer {
        bytes_per_second: 0,
        bucket: 0,
        last_update: 0,
        min_burst: PACER_MIN_BURST,
        max_burst: PACER_MAX_BURST,
    }
}

impl Pacer {
    pub fn new() -> (r: Self)
        ensures
            r == idle_pacer(),
    {
        Pacer {
            bytes_per_second: 0,
            bucket: 0,
            last_update: 0,
            min_burst: PACER_MIN_BURST,
            max_burst: PACER_MAX_BURST,
        }
    }

    pub fn is_enabled(&self) -> (r: bool)
        ensures
            r == (self.bytes_per_second != 0),
    {
        self.bytes_per_second != 0
    }

    /// The periods since the bucket was last filled.
    pub fn elapsed(&self, now: u64) -> (r: u64)
        ensures
            r == vstd::math::max(now - self.last_update, 0),
    {
        if now < self.last_update {
            0
        } else {
            now - self.last_update
        }
    }

    /// The bucket after `tokens` were put into it.
    pub open spec fn filled(self, now: u64, tokens: i64) -> Pacer {
        Pacer {
            bucket: vstd::math::min(self.bucket + tokens, self.max_burst as int) as i64,
            last_update: now,
            ..self
        }
    }

    /// `after` and `burst` are what an update makes of the bucket.
    pub open spec fn updated(self, after: Pacer, burst: u32, now: u64, earned: Option<i64>) -> bool {
        &&& after == (match earned {
            Some(tokens) => self.filled(now, tokens),
            None => self,
        })
        &&& burst == (if after.bucket >= 0 {
            self.max_burst
        } else {
            0
        })
    }

    /// Puts in the tokens that the time since the last filling earned, if they
    /// are worth it, and returns how much may go out in one burst.
    pub fn update(&mut self, now: u64, earned: Option<i64>) -> (r: u32)
        requires
            earned is Some ==> 0 <= earned->0 && old(self).bucket + earned->0 <= i64::MAX,
        ensures
            old(self).updated(*final(self), r, now, earned),
    {
        if let Some(tokens) = earned {
            self.last_update = now;
            let filled: i64 = self.bucket + tokens;
            let limit: i64 = self.max_burst as i64;
            self.bucket = if filled < limit {
                filled
            } else {
                limit
            };
        }
        if self.bucket >= 0 {
            self.max_burst
        } else {
            0
        }
    }

    /// The bucket after `bytes` went out.
    pub open spec fn drained(self, bytes: u32) -> Pacer {
        Pacer { bucket: vstd::math::max(self.bucket - bytes, i64::MIN as int) as i64, ..self }
    }

    /// Takes out what was sent.
    pub fn update_bytes(&mut self, bytes: u32)
        ensures
            *final(self) == old(self).drained(bytes),
    {
        if self.bucket < i64::MIN + bytes as i64 {
            self.bucket = i64::MIN;
        } else {
            self.bucket = self.bucket - bytes as i64;
        }
    }
}

impl Default for Pacer {
    fn default() -> (r: Self)
        ensures
            r == idle_pacer(),
    {
        Pacer::new()
    }
}

/// Where a session lives.
#[derive(Clone, Copy, Debug, PartialEq, Eq, Structural)]
pub struct SessionHandle {
    pub session_index: u32,
    pub worker_index: u32,
}

/// What every transport keeps of a connection.
#[derive(Clone, Copy, Debug)]
pub struct TransportConnection<E, O> {
    pub session: SessionHandle,
    pub connection_index: u32,
    pub worker_index: u32,
    pub flags: TransportConnectionFlags,
    pub endpoint: E,
    pub pacer: Pacer,
    pub opaque: O,
}

impl<E, O> TransportConnection<E, O> {
    pub fn is_descheduled(&self) -> (r: bool)
        ensures
            r == self.flags.descheduled,
    {
        self.flags.descheduled
    }

    pub fn is_connectionless(&self) -> (r: bool)
        ensures
            r == self.flags.connectionless,
    {
        self.flags.connectionless
    }

    pub fn is_tx_paced(&self) -> (r: bool)
        ensures
            r == self.flags.tx_paced,
    {
        self.flags.tx_paced
    }

    /// The connection once it is scheduled again.
    pub open spec fn rescheduled(self, now: u64) -> Self {
        TransportConnection {
            flags: TransportConnectionFlags { descheduled: false, ..self.flags },
            pacer: if self.flags.tx_paced {
                Pacer { last_update: now, bucket: 0, ..self.pacer }
            } else {
                self.pacer
            },
            ..self
        }
    }

    /// Schedules the connection again. A paced one starts with an empty bucket.
    pub fn clear_descheduled(&mut self, now: u64)
        ensures
            *final(self) == old(self).rescheduled(now),
    {
        self.flags.descheduled = false;
        if self.flags.tx_paced {
            self.pacer.last_update = now;
            self.pacer.bucket = 0;
        }
    }
}

/// The process-wide part of a transport: its settings and its local endpoints.
pub trait TransportMain: Sized {
    type Config;

    type Endpoint;

    type LocalEndpoint;

    fn init(config: Self::Config) -> Result<Self, i32>;

    fn global() -> Result<&'static Self, i32>;

    fn mark_used(&self, endpoint: &Self::Endpoint) -> i32;

    fn share(&self, endpoint: &Self::Endpoint);

    fn release(&self, endpoint: &Self::Endpoint) -> i32;

    fn allocate_local(&self, endpoint: Self::Endpoint) -> Result<Self::Endpoint, i32>;
}

/// Why a transport could not be registered.
#[derive(Clone, Copy, Debug, PartialEq, Eq, Structural)]
pub enum TransportError {
    RegistryUnavailable,
    ProtocolSlotsExhausted,
}

impl TransportError {
    pub fn message(self) -> (r: &'static str)
        ensures
            r@ == match self {
                TransportError::RegistryUnavailable => "global TRANSPORT_VFTS is not initialized"@,
                TransportError::ProtocolSlotsExhausted => "transport protocol slots are exhausted"@,
            },
    {
        match self {
            TransportError::RegistryUnavailable => "global TRANSPORT_VFTS is not initialized",
            TransportError::ProtocolSlotsExhausted => "transport protocol slots are exhausted",
        }
    }
}

/// How many transports can be registered. Slot zero stands for none.
pub const TRANSPORT_SLOTS: usize = 255;

/// The operation tables of the transports, by protocol slot.
#[derive(Clone, Debug)]
pub struct TransportVftTable<V> {
    entries: Vec<V>,
}

impl<V> View for TransportVftTable<V> {
    type V = Seq<V>;

    /// The tables in the order of their slots, from slot one on.
    closed spec fn view(&self) -> Seq<V> {
        self.entries@
    }
}

/// The table in a slot.
pub open spec fn table_in_slot<V>(entries: Seq<V>, protocol: u8) -> Option<V> {
    if 1 <= protocol <= entries.len() {
        Some(entries[protocol - 1])
    } else {
        None
    }
}

impl<V: Copy> TransportVftTable<V> {
    pub fn new() -> (r: Self)
        ensures
            r@ == Seq::<V>::empty(),
    {
        TransportVftTable { entries: Vec::new() }
    }

    /// Publishes a transport in the next free slot.
    pub fn register(&mut self, vft: V) -> (r: Result<u8, TransportError>)
        ensures
            (r is Ok) == (old(self)@.len() < TRANSPORT_SLOTS),
            match r {
                Ok(protocol) => {
                    &&& final(self)@ == old(self)@.push(vft)
                    &&& protocol == final(self)@.len()
                },
                Err(error) => {
                    &&& error == TransportError::ProtocolSlotsExhausted
                    &&& *final(self) == *old(self)
                },
            },
    {
        if self.entries.len() >= TRANSPORT_SLOTS {
            return Err(TransportError::ProtocolSlotsExhausted);
        }
        self.entries.push(vft);
        Ok(self.entries.len() as u8)
    }

    /// The transport in a slot.
    pub fn get(&self, protocol: u8) -> (r: Option<V>)
        ensures
            r == table_in_slot(self@, protocol),
    {
        if protocol == 0 || protocol as usize > self.entries.len() {
            return None;
        }
        Some(self.entries[protocol as usize - 1])
    }
}

/// A registered transport is found in the slot that it was given, and stays
/// there whatever is registered after it.
pub proof fn registered_transport_stays<V>(before: Seq<V>, vft: V, later: Seq<V>)
    requires
        before.len() + 1 + later.len() <= TRANSPORT_SLOTS,
    ensures
        table_in_slot(before.push(vft) + later, (before.len() + 1) as u8) == Some(vft),
        forall|protocol: u8|
            protocol <= before.len() ==> #[trigger] table_in_slot(
                before.push(vft) + later,
                protocol,
            ) == table_in_slot(before, protocol),
{
}

/// Taking out what went out and filling the bucket again never grants more than
/// one full burst.
pub proof fn bucket_stays_within_a_burst(pacer: Pacer, bytes: u32, now: u64, tokens: i64)
    requires
        pacer.bucket <= pacer.max_burst,
        0 <= tokens,
    ensures
        pacer.drained(bytes).bucket <= pacer.max_burst,
        pacer.drained(bytes).filled(now, tokens).bucket <= pacer.max_burst,
{
}

/// An update that earned tokens adds them, up to a burst, and notes the time; one
/// that did not changes nothing. A burst may go out unless the bucket is overdrawn.
pub proof fn bucket_counts_tokens_and_bytes(
    pacer: Pacer,
    after: Pacer,
    burst: u32,
    now: u64,
    earned: Option<i64>,
    bytes: u32,
)
    requires
        pacer.updated(after, burst, now, earned),
        earned is Some ==> 0 <= earned->0 && pacer.bucket + earned->0 <= i64::MAX,
    ensures
        earned is None ==> after == pacer,
        earned matches Some(tokens) ==> {
            &&& after.last_update == now
            &&& pacer.bucket + tokens <= pacer.max_burst ==> after.bucket == pacer.bucket + tokens
            &&& pacer.bucket + tokens > pacer.max_burst ==> after.bucket == pacer.max_burst
        },
        after.bytes_per_second == pacer.bytes_per_second,
        after.max_burst == pacer.max_burst,
        after.min_burst == pacer.min_burst,
        after.bucket < 0 ==> burst == 0,
        after.bucket >= 0 ==> burst == pacer.max_burst,
        pacer.bucket - bytes >= i64::MIN ==> pacer.drained(bytes) == (Pacer {
            bucket: (pacer.bucket - bytes) as i64,
            ..pacer
        }),
{
}

/// What is scheduled again is not descheduled; it has an empty bucket from now on, if
/// it is paced, and is otherwise as it was.
pub proof fn rescheduling_empties_the_bucket<E, O>(connection: TransportConnection<E, O>, now: u64)
    ensures
        ({
            let after = connection.rescheduled(now);
            &&& !after.flags.descheduled
            &&& after.flags.tx_paced == connection.flags.tx_paced
            &&& after.flags.connectionless == connection.flags.connectionless
            &&& after.flags.no_lookup == connection.flags.no_lookup
            &&& after.flags.error == connection.flags.error
            &&& connection.flags.tx_paced ==> after.pacer.bucket == 0 && after.pacer.last_update
                == now
            &&& !connection.flags.tx_paced ==> after.pacer == connection.pacer
            &&& after.pacer.bytes_per_second == connection.pacer.bytes_per_second
            &&& after.pacer.max_burst == connection.pacer.max_burst
            &&& after.session == connection.session
            &&& after.connection_index == connection.connection_index
            &&& after.worker_index == connection.worker_index
            &&& after.endpoint == connection.endpoint
            &&& after.opaque == connection.opaque
        }),
{
}

/// A new bucket is empty and holds bursts of 43 segments of 1460 bytes.
pub proof fn new_bucket_is_empty()
    ensures
        idle_pacer().bucket == 0,
        idle_pacer().bytes_per_second == 0,
        idle_pacer().last_update == 0,
        idle_pacer().min_burst == 1460,
        idle_pacer().max_burst == 43 * 1460,
        PACER_MAX_BURST == PACER_MAX_BURST_PACKETS * PACER_MIN_MSS,
{
}

/// Slot zero is never taken, nor one behind those that were given out.
pub proof fn empty_slots_have_no_transport<V>(entries: Seq<V>, protocol: u8)
    ensures
        (table_in_slot(entries, protocol) is Some) == (0 < protocol <= entries.len()),
        table_in_slot(entries, protocol) matches Some(vft) ==> vft == entries[protocol - 1],
{
}

} // verus!
