//! What an established connection makes of a segment and its payload.
//!
//! The payload lies in a buffer that the session takes over, so the work has
//! two halves: [`tcp_established_receive`] says what to hand to the session, and
//! [`tcp_established_deliver`] takes in what the session made of it.
use vstd::prelude::*;

use crate::congestion::CongestionController;
use crate::tcp::connection_model;
use crate::tcp::connection_model::{TcpConnection, TcpConnectionError};
use crate::tcp::timers;
use crate::tcp::timers::TCP_TIMER_DELAYED_ACK;
use crate::tcp::types;
use crate::tcp::types::{TcpPacket, TcpSegment, TcpSegmentFlags, TcpState};
use crate::time::Instant;

verus! {

/// Where the stage for established connections sends a buffer.
#[derive(Clone, Copy, Debug, PartialEq, Eq, Structural)]
pub enum TcpEstablishedNext {
    Output,
    Drop,
}

/// What a session made of a payload.
#[derive(Clone, Copy, Debug, PartialEq, Eq, Structural)]
pub enum RxDelivery {
    /// There was no room for any of it.
    NotAccepted { rx_available: u32 },
    /// `accepted` bytes went to the reader, and `promoted` bytes that had come
    /// early after them.
    InOrder { accepted: u32, promoted: u32, rx_available: u32 },
    /// `accepted` bytes are kept until the gap before them closes. The range that
    /// they are part of starts `start` bytes ahead of the reader and is `len`
    /// bytes long.
    OutOfOrder { accepted: u32, start: u32, len: u32, rx_available: u32 },
}

impl RxDelivery {
    /// The lengths fit the sequence space.
    pub open spec fn well_formed(self) -> bool {
        match self {
            RxDelivery::InOrder { accepted, promoted, .. } => accepted + promoted <= u32::MAX,
            _ => true,
        }
    }

    /// How many bytes the reader got.
    pub open spec fn delivered(self) -> u32 {
        match self {
            RxDelivery::InOrder { accepted, promoted, .. } => (accepted + promoted) as u32,
            _ => 0,
        }
    }

    /// Where the range starts that the payload was kept in.
    pub open spec fn kept_start(self) -> Option<u32> {
        match self {
            RxDelivery::OutOfOrder { start, .. } => Some(start),
            _ => None,
        }
    }

    /// How long the range is that the payload was kept in.
    pub open spec fn kept_len(self) -> u32 {
        match self {
            RxDelivery::OutOfOrder { len, .. } => len,
            _ => 0,
        }
    }

    /// The room that is left.
    pub open spec fn room(self) -> u32 {
        match self {
            RxDelivery::NotAccepted { rx_available } => rx_available,
            RxDelivery::InOrder { rx_available, .. } => rx_available,
            RxDelivery::OutOfOrder { rx_available, .. } => rx_available,
        }
    }

    /// Just the payload went to the reader, all of it.
    pub open spec fn whole_and_alone(self, payload_len: u32) -> bool {
        match self {
            RxDelivery::InOrder { accepted, promoted, .. } => accepted == payload_len && promoted
                == 0,
            _ => false,
        }
    }
}

/// What a segment asks for, besides what it changed in its connection.
#[derive(Clone, Copy, Debug)]
pub struct TcpEstablishedArrival {
    /// The answer to a FIN.
    pub control: Option<TcpSegment>,
    /// The recovery timers that are to run, as a mask.
    pub recovery_timers: u16,
    /// How much of what we sent the session can let go of.
    pub acked_tx_len: u32,
    /// The left edge moved: there may be room to send.
    pub ack_advanced: bool,
    /// The payload to hand to the session: how much to cut, and how far ahead of
    /// the reader the rest starts.
    pub payload: Option<(u32, u32)>,
    /// The payload was received before.
    pub duplicate: bool,
}

/// `middle` after the payload that was acknowledged was let go of.
pub open spec fn released<C: CongestionController>(
    middle: TcpConnection<C>,
    acked_tx_len: u32,
) -> TcpConnection<C> {
    TcpConnection {
        fast_open_syn_payload_len: (middle.fast_open_syn_payload_len - vstd::math::min(
            middle.fast_open_syn_payload_len as int,
            acked_tx_len as int,
        )) as u32,
        ..middle
    }
}

/// The connection as it was before acknowledged payload was let go of.
pub open spec fn before_release<C: CongestionController>(
    before: TcpConnection<C>,
    after: TcpConnection<C>,
) -> TcpConnection<C> {
    TcpConnection { fast_open_syn_payload_len: before.fast_open_syn_payload_len, ..after }
}

/// `after` and `result` are what a segment makes of a connection, all but its
/// payload.
pub open spec fn arrived<C: CongestionController>(
    before: TcpConnection<C>,
    after: TcpConnection<C>,
    result: Result<TcpEstablishedArrival, TcpConnectionError>,
    packet: TcpPacket,
    now: Instant,
) -> bool {
    &&& (result is Err) == (before.state != TcpState::Established)
    &&& match result {
        Err(error) => {
            &&& error == TcpConnectionError::ReceiveOutsideEstablished
            &&& after == before
        },
        Ok(arrival) => {
            let middle = before_release(before, after);
            &&& before.established_received(
                middle,
                Ok((arrival.control, arrival.recovery_timers)),
                packet,
                now,
            )
            &&& after == released(middle, arrival.acked_tx_len)
            &&& arrival.acked_tx_len == middle.payload_acked(before.snd_una)
            &&& arrival.ack_advanced == (middle.snd_una != before.snd_una)
            &&& arrival.payload == middle.payload_window(packet)
            &&& arrival.duplicate == (arrival.payload is None && packet.payload_len != 0)
        },
    }
}

/// Takes in a segment of an established connection, all but its payload.
pub fn tcp_established_receive<C: CongestionController>(
    connection: &mut TcpConnection<C>,
    packet: &TcpPacket,
    now: Instant,
) -> (r: Result<TcpEstablishedArrival, TcpConnectionError>)
    requires
        old(connection).well_formed(),
        connection_model::readable(now),
    ensures
        final(connection).well_formed(),
        arrived(*old(connection), *final(connection), r, *packet, now),
{
    let previous_snd_una: u32 = connection.snd_una();
    let (control, recovery_timers) = match connection.receive_established(packet, now) {
        Ok(answer) => answer,
        Err(error) => {
            return Err(error);
        },
    };
    let ghost middle = *connection;
    let payload = connection.accept_payload(packet);
    let duplicate: bool = payload.is_none() && packet.payload_len != 0;
    let acked_tx_len: u32 = connection.take_acked_tx_len(previous_snd_una);
    let ack_advanced: bool = connection.snd_una() != previous_snd_una;
    proof {
        assert(before_release(*old(connection), *connection) == middle);
    }
    Ok(
        TcpEstablishedArrival {
            control,
            recovery_timers,
            acked_tx_len,
            ack_advanced,
            payload,
            duplicate,
        },
    )
}

/// What follows from a payload that a session took over.
#[derive(Clone, Copy, Debug, PartialEq, Eq, Structural)]
pub struct TcpDeliveryOutcome {
    /// The peer is to be told at once.
    pub immediate_ack: bool,
    /// The session has something for its reader.
    pub ready: bool,
}

/// The payload was expected next, and arrived whole and alone.
pub open spec fn clean_in_order(
    packet: TcpPacket,
    trim: u32,
    offset: u32,
    delivery: RxDelivery,
) -> bool {
    trim == 0 && offset == 0 && delivery.whole_and_alone(packet.payload_len)
}

/// The connection after a payload was delivered, but for its receive window and
/// its delayed acknowledgment.
pub open spec fn taken_over<C: CongestionController>(
    connection: TcpConnection<C>,
    packet: TcpPacket,
    trim: u32,
    delivery: RxDelivery,
) -> TcpConnection<C> {
    connection.payload_received(
        packet.sequence,
        trim,
        delivery.delivered(),
        delivery.kept_start(),
        delivery.kept_len(),
    )
}

/// The connection after a payload was delivered.
pub open spec fn delivered<C: CongestionController>(
    connection: TcpConnection<C>,
    packet: TcpPacket,
    trim: u32,
    offset: u32,
    delivery: RxDelivery,
) -> TcpConnection<C> {
    let taken = taken_over(connection, packet, trim, delivery);
    TcpConnection {
        rcv_wnd: delivery.room(),
        timers: if clean_in_order(packet, trim, offset, delivery) {
            taken.timers.switched(
                TCP_TIMER_DELAYED_ACK,
                !timers::holds(connection.timers.active, TCP_TIMER_DELAYED_ACK),
            )
        } else {
            taken.timers
        },
        ..taken
    }
}

/// The peer is to be told of a payload at once: unless it arrives just as
/// expected and no acknowledgment is owed yet.
pub open spec fn acknowledged_at_once<C: CongestionController>(
    connection: TcpConnection<C>,
    packet: TcpPacket,
    trim: u32,
    offset: u32,
    delivery: RxDelivery,
) -> bool {
    clean_in_order(packet, trim, offset, delivery) ==> timers::holds(
        connection.timers.active,
        TCP_TIMER_DELAYED_ACK,
    )
}

/// Takes in what a session made of the payload that it was handed.
pub fn tcp_established_deliver<C: CongestionController>(
    connection: &mut TcpConnection<C>,
    packet: &TcpPacket,
    trim: u32,
    offset: u32,
    delivery: RxDelivery,
) -> (r: TcpDeliveryOutcome)
    requires
        delivery.well_formed(),
    ensures
        *final(connection) == delivered(*old(connection), *packet, trim, offset, delivery),
        r == (TcpDeliveryOutcome {
            immediate_ack: acknowledged_at_once(
                *old(connection),
                *packet,
                trim,
                offset,
                delivery,
            ),
            ready: delivery is InOrder,
        }),
{
    let (delivered_len, kept_start, kept_len, rx_available): (u32, Option<u32>, u32, u32) =
        match delivery {
        RxDelivery::NotAccepted { rx_available } => (0, None, 0, rx_available),
        RxDelivery::InOrder { accepted, promoted, rx_available } => (
            accepted + promoted,
            None,
            0,
            rx_available,
        ),
        RxDelivery::OutOfOrder { accepted: _, start, len, rx_available } => (
            0,
            Some(start),
            len,
            rx_available,
        ),
    };
    connection.receive_payload(packet.sequence, trim, delivered_len, kept_start, kept_len);
    let clean: bool = trim == 0 && offset == 0 && match delivery {
        RxDelivery::InOrder { accepted, promoted, .. } => accepted == packet.payload_len && promoted
            == 0,
        _ => false,
    };
    let immediate_ack: bool = if clean {
        connection.on_clean_in_order_payload()
    } else {
        true
    };
    connection.set_rcv_wnd(rx_available as usize);
    let ready: bool = match delivery {
        RxDelivery::InOrder { .. } => true,
        _ => false,
    };
    TcpDeliveryOutcome { immediate_ack, ready }
}

/// The connection after a payload that it had received before.
pub open spec fn duplicate_noted<C: CongestionController>(
    connection: TcpConnection<C>,
    packet: TcpPacket,
) -> TcpConnection<C> {
    TcpConnection {
        sack: connection.sack.with_duplicate(
            connection.options.negotiated.sack,
            packet.sequence,
            packet.sequence.spec_advance(packet.payload_len),
        ),
        ..connection
    }
}

/// Notes a payload that was received before. The peer is to be told at once.
pub fn tcp_established_duplicate<C: CongestionController>(
    connection: &mut TcpConnection<C>,
    packet: &TcpPacket,
)
    ensures
        *final(connection) == duplicate_noted(*old(connection), *packet),
{
    let end_sequence = packet.sequence.advance(packet.payload_len);
    connection.observe_duplicate_payload(packet.sequence, end_sequence);
}

/// The segment that answers `packet`: an acknowledgment where one is due at once,
/// or else the answer to its FIN.
pub fn tcp_established_answer<C: CongestionController>(
    connection: &mut TcpConnection<C>,
    packet: &TcpPacket,
    control: Option<TcpSegment>,
    immediate_ack: bool,
    now: Instant,
) -> (r: Option<TcpSegment>)
    ensures
        immediate_ack ==> *final(connection) == old(connection).after_control(
            types::ack_only(),
            now,
        ) && r == Some(old(connection).control(*packet, types::ack_only(), None, now)),
        !immediate_ack ==> *final(connection) == *old(connection) && r == control,
{
    if immediate_ack {
        Some(connection.control_segment(packet, TcpSegmentFlags::ack(), None, now))
    } else {
        control
    }
}

/// What follows from a segment once its payload was seen to.
#[derive(Clone, Copy, Debug)]
pub struct TcpEstablishedOutcome {
    /// The segment to send.
    pub reply: Option<TcpSegment>,
    /// The session has something for its reader.
    pub ready: bool,
}

/// The connection after its segment's payload was seen to, the answer aside.
pub open spec fn payload_settled<C: CongestionController>(
    connection: TcpConnection<C>,
    packet: TcpPacket,
    arrival: TcpEstablishedArrival,
    delivery: RxDelivery,
) -> TcpConnection<C> {
    match arrival.payload {
        Some((trim, offset)) => delivered(connection, packet, trim, offset, delivery),
        None => if arrival.duplicate {
            duplicate_noted(connection, packet)
        } else {
            connection
        },
    }
}

/// The peer is to be told of the segment at once.
pub open spec fn answered_at_once<C: CongestionController>(
    connection: TcpConnection<C>,
    packet: TcpPacket,
    arrival: TcpEstablishedArrival,
    delivery: RxDelivery,
) -> bool {
    match arrival.payload {
        Some((trim, offset)) => acknowledged_at_once(connection, packet, trim, offset, delivery),
        None => arrival.duplicate,
    }
}

/// `after` and `outcome` are what seeing to a segment's payload makes of a
/// connection, with the answer.
pub open spec fn finished<C: CongestionController>(
    before: TcpConnection<C>,
    after: TcpConnection<C>,
    outcome: TcpEstablishedOutcome,
    packet: TcpPacket,
    arrival: TcpEstablishedArrival,
    delivery: RxDelivery,
    now: Instant,
) -> bool {
    let settled = payload_settled(before, packet, arrival, delivery);
    &&& if answered_at_once(before, packet, arrival, delivery) {
        &&& after == settled.after_control(types::ack_only(), now)
        &&& outcome.reply == Some(settled.control(packet, types::ack_only(), None, now))
    } else {
        &&& after == settled
        &&& outcome.reply == arrival.control
    }
    &&& outcome.ready == (arrival.payload is Some && delivery is InOrder)
}

/// Sees to the payload of a segment and answers the segment. `delivery` is what
/// the session made of the payload, where it was handed any.
pub fn tcp_established_finish<C: CongestionController>(
    connection: &mut TcpConnection<C>,
    packet: &TcpPacket,
    arrival: TcpEstablishedArrival,
    delivery: RxDelivery,
    now: Instant,
) -> (r: TcpEstablishedOutcome)
    requires
        delivery.well_formed(),
    ensures
        finished(*old(connection), *final(connection), r, *packet, arrival, delivery, now),
{
    let (immediate_ack, ready): (bool, bool) = match arrival.payload {
        Some((trim, offset)) => {
            let outcome = tcp_established_deliver(connection, packet, trim, offset, delivery);
            (outcome.immediate_ack, outcome.ready)
        },
        None => {
            if arrival.duplicate {
                tcp_established_duplicate(connection, packet);
            }
            (arrival.duplicate, false)
        },
    };
    let reply = tcp_established_answer(connection, packet, arrival.control, immediate_ack, now);
    TcpEstablishedOutcome { reply, ready }
}

/// Of two payloads that are delivered just as expected, with no acknowledgment
/// taken in between them, the peer is told of the first only once a timer fires,
/// and of the second at once.
pub proof fn second_delivery_is_acknowledged<C: CongestionController>(
    connection: TcpConnection<C>,
    first: TcpPacket,
    first_delivery: RxDelivery,
    second: TcpPacket,
    second_delivery: RxDelivery,
)
    requires
        !timers::holds(connection.timers.active, TCP_TIMER_DELAYED_ACK),
        clean_in_order(first, 0, 0, first_delivery),
        clean_in_order(second, 0, 0, second_delivery),
    ensures
        ({
            let once = delivered(connection, first, 0, 0, first_delivery);
            let twice = delivered(once, second, 0, 0, second_delivery);
            &&& !acknowledged_at_once(connection, first, 0, 0, first_delivery)
            &&& timers::holds(once.timers.active, TCP_TIMER_DELAYED_ACK)
            &&& acknowledged_at_once(once, second, 0, 0, second_delivery)
            &&& !timers::holds(twice.timers.active, TCP_TIMER_DELAYED_ACK)
        }),
{
    let once = delivered(connection, first, 0, 0, first_delivery);
    timers::starting_touches_one_timer(
        connection.timers,
        TCP_TIMER_DELAYED_ACK,
        TCP_TIMER_DELAYED_ACK,
    );
    timers::stopping_touches_one_timer(once.timers, TCP_TIMER_DELAYED_ACK, TCP_TIMER_DELAYED_ACK);
}

/// The reader's position follows what the session handed to the reader, and
/// nothing else moves it.
pub proof fn delivery_moves_the_reader<C: CongestionController>(
    connection: TcpConnection<C>,
    packet: TcpPacket,
    trim: u32,
    offset: u32,
    delivery: RxDelivery,
)
    ensures
        delivered(connection, packet, trim, offset, delivery).rcv_nxt
            == connection.rcv_nxt.spec_advance(delivery.delivered()),
        delivered(connection, packet, trim, offset, delivery).snd_una == connection.snd_una,
        delivered(connection, packet, trim, offset, delivery).snd_nxt == connection.snd_nxt,
        delivered(connection, packet, trim, offset, delivery).state == connection.state,
{
}

} // verus!
