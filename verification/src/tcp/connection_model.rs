//! A connection and what each event makes of it.
//!
//! The state is plain data. Each function here names the state, segment or
//! decision that an event leads to; [`super::connection`] computes them. Loss
//! recovery and the congestion controller have models of their own, so the
//! functions that involve them take the two states that those models allow.
use vstd::prelude::*;

use crate::arith;
use crate::congestion::CongestionController;
use crate::tcp::connection_options::TcpConnectionOptionState;
use crate::tcp::ecn::TcpEcnState;
use crate::tcp::output;
use crate::tcp::recovery::TcpRecoveryState;
use crate::tcp::recovery_model;
use crate::tcp::recovery_model::{
    RecoveryEpisode, RecoveryModel, TcpRecoveryAck, TcpSackBlock, TcpSentSample,
};
use crate::tcp::retransmit_timeout::{TcpRetransmitTimeoutState, MAX_ROUND_TRIP_NANOS};
use crate::tcp::sack;
use crate::tcp::sack::TcpSackState;
use crate::tcp::sequence::TcpSeq;
use crate::tcp::timers;
use crate::tcp::timers::{
    TcpTimerState, TCP_DELAYED_ACK_TICKS, TCP_TIMER_DELAYED_ACK, TCP_TIMER_PERSIST, TCP_TIMER_RACK,
    TCP_TIMER_RETRANSMIT, TCP_TIMER_TIME_WAIT, TCP_TIMER_TLP, TCP_TIME_WAIT_TICKS,
};
use crate::tcp::timestamps::TcpTimestampState;
use crate::tcp::types;
use crate::tcp::types::{
    DataWorkerId, IpEcnCodepoint, SocketAddress, TcpCapabilities, TcpCloseReason, TcpConnectionId,
    TcpFastOpenCookie, TcpPacket, TcpSegment, TcpSegmentFlags, TcpState, TcpTimestampOption,
};
use crate::tcp::TcpInputNext;
use crate::time::{Duration, Instant};

verus! {

/// The window of both directions before the handshake tells.
pub const DEFAULT_TCP_WINDOW: u32 = 65_535;

pub const DEFAULT_TCP_MAX_SEGMENT_SIZE: u32 = 1_440;

/// The length of a timer tick: 10 ms, in nanoseconds.
pub const TCP_TICK_NANOS: u128 = 10_000_000;

/// The shortest reordering window: 1 ms, in nanoseconds.
pub const TCP_MIN_REORDERING_WINDOW: u128 = 1_000_000;

/// A range that is to be sent next, out of turn.
#[derive(Clone, Copy, Debug, PartialEq, Eq, Structural)]
pub struct TcpTxIntent {
    pub sequence: TcpSeq,
    pub payload_len: u32,
    pub retransmit: bool,
}

/// Why an event does not apply to a connection.
#[derive(Clone, Copy, Debug, PartialEq, Eq, Structural)]
pub enum TcpConnectionError {
    OpenReplyOutsideSynSent,
    FinalAckOutsideSynRcvd,
    SynSentWithoutLocalAddress,
    TransmitOutsideEstablished,
    EstablishedWithoutLocalAddress,
    CommitOutsideEstablished,
    PayloadTooLong,
    ReceiveOutsideEstablished,
}

/// One end of a TCP connection.
#[derive(Clone, Debug)]
pub struct TcpConnection<C> where C: CongestionController {
    pub state: TcpState,
    pub connection_id: Option<TcpConnectionId>,
    pub owner_worker: DataWorkerId,
    pub local_port: u16,
    pub local: Option<SocketAddress>,
    pub remote: SocketAddress,
    pub close_reason: Option<TcpCloseReason>,
    pub iss: TcpSeq,
    pub irs: TcpSeq,
    pub snd_una: TcpSeq,
    pub snd_nxt: TcpSeq,
    pub snd_wnd: u32,
    pub rcv_nxt: TcpSeq,
    pub rcv_wnd: u32,
    /// Where our FIN stands in the sequence space, once it was sent.
    pub fin_sequence: Option<TcpSeq>,
    pub options: TcpConnectionOptionState,
    pub fast_open_cookie: Option<TcpFastOpenCookie>,
    pub fast_open_syn_payload_len: u32,
    pub retransmit_timeout: TcpRetransmitTimeoutState,
    pub congestion: C,
    pub recovery: TcpRecoveryState,
    pub sack: TcpSackState,
    pub ecn: TcpEcnState,
    pub timers: TcpTimerState,
    pub timestamps: TcpTimestampState,
    pub tx_intent: Option<TcpTxIntent>,
}

/// The clock reading leaves room for the sums that round trips are put into.
pub open spec fn readable(now: Instant) -> bool {
    now.nanos <= MAX_ROUND_TRIP_NANOS
}

/// The stage that handles the segments of a connection in `state`.
pub open spec fn stage_of(state: TcpState) -> TcpInputNext {
    match state {
        TcpState::Closed => TcpInputNext::Drop,
        TcpState::Listen => TcpInputNext::Listen,
        TcpState::SynSent => TcpInputNext::SynSent,
        TcpState::Established => TcpInputNext::Established,
        _ => TcpInputNext::RcvProcess,
    }
}

/// The timers that have a meaning in `state`.
pub open spec fn timer_applies(state: TcpState, timer_id: u32) -> bool {
    match state {
        TcpState::SynSent => timer_id == TCP_TIMER_RETRANSMIT,
        TcpState::Established => timer_id == TCP_TIMER_RACK || timer_id == TCP_TIMER_TLP || timer_id
            == TCP_TIMER_DELAYED_ACK || timer_id == TCP_TIMER_PERSIST,
        TcpState::TimeWait => timer_id == TCP_TIMER_TIME_WAIT,
        _ => false,
    }
}

/// A span in timer ticks, at least one.
pub open spec fn ticks_of(span: Duration) -> u64 {
    arith::saturate_u64(vstd::math::max(span.nanos as int / TCP_TICK_NANOS as int, 1))
}

/// SYN and ACK, with ECE where ECN was agreed on.
pub open spec fn syn_ack(ecn: bool) -> TcpSegmentFlags {
    TcpSegmentFlags { syn: true, ack: true, ece: ecn, ..types::no_flags() }
}

/// SYN, with ECE and CWR where ECN is offered.
pub open spec fn opening_flags(ecn: bool) -> TcpSegmentFlags {
    TcpSegmentFlags { syn: true, ece: ecn, cwr: ecn, ..types::no_flags() }
}

/// ACK and FIN.
pub open spec fn fin_ack() -> TcpSegmentFlags {
    TcpSegmentFlags { ack: true, fin: true, ..types::no_flags() }
}

/// ACK and PSH.
pub open spec fn psh_ack() -> TcpSegmentFlags {
    TcpSegmentFlags { ack: true, psh: true, ..types::no_flags() }
}

/// The recovery state with its next packet number used up.
pub open spec fn numbered(recovery: RecoveryModel) -> RecoveryModel {
    RecoveryModel {
        next_packet_number: if recovery.next_packet_number == u64::MAX {
            u64::MAX
        } else {
            (recovery.next_packet_number + 1) as u64
        },
        ..recovery
    }
}

/// The recovery state after a range was sent for the first time.
pub open spec fn range_sent(
    recovery: RecoveryModel,
    sequence: TcpSeq,
    end_sequence: TcpSeq,
    payload_len: u32,
    now: Instant,
) -> RecoveryModel {
    numbered(recovery).recorded(
        recovery_model::new_sample(
            recovery.next_packet_number,
            sequence,
            end_sequence,
            payload_len,
            payload_len,
            now,
        ),
    )
}

/// The recovery state with new data counted against a running episode.
pub open spec fn new_data_counted(recovery: RecoveryModel, bytes: u32) -> RecoveryModel {
    if recovery.episode.active {
        RecoveryModel {
            episode: RecoveryEpisode {
                new_data: arith::saturate_u32(recovery.episode.new_data + bytes),
                ..recovery.episode
            },
            ..recovery
        }
    } else {
        recovery
    }
}

/// The recovery state with a retransmission counted against a running episode.
pub open spec fn retransmission_counted(recovery: RecoveryModel, bytes: u32) -> RecoveryModel {
    if recovery.episode.active {
        RecoveryModel {
            episode: RecoveryEpisode {
                retransmitted: arith::saturate_u32(recovery.episode.retransmitted + bytes),
                ..recovery.episode
            },
            ..recovery
        }
    } else {
        recovery
    }
}

impl<C: CongestionController> TcpConnection<C> {
    /// What holds of a connection between any two events.
    pub open spec fn well_formed(self) -> bool {
        &&& self.congestion.well_formed()
        &&& self.recovery.well_formed()
        &&& self.retransmit_timeout.well_formed()
        &&& self.options.well_formed()
    }

    /// A connection that has done nothing yet.
    pub open spec fn fresh(
        connection_id: Option<TcpConnectionId>,
        owner_worker: DataWorkerId,
        local_port: u16,
        local: Option<SocketAddress>,
        remote: SocketAddress,
        recovery: TcpRecoveryState,
    ) -> Self {
        TcpConnection {
            state: TcpState::Closed,
            connection_id,
            owner_worker,
            local_port,
            local,
            remote,
            close_reason: None,
            iss: TcpSeq { value: 0 },
            irs: TcpSeq { value: 0 },
            snd_una: TcpSeq { value: 0 },
            snd_nxt: TcpSeq { value: 0 },
            snd_wnd: DEFAULT_TCP_WINDOW,
            rcv_nxt: TcpSeq { value: 0 },
            rcv_wnd: DEFAULT_TCP_WINDOW,
            fin_sequence: None,
            options: TcpConnectionOptionState::initial(types::no_capabilities()),
            fast_open_cookie: None,
            fast_open_syn_payload_len: 0,
            retransmit_timeout: TcpRetransmitTimeoutState::initial(),
            congestion: C::initial(DEFAULT_TCP_MAX_SEGMENT_SIZE),
            recovery,
            sack: TcpSackState::initial(),
            ecn: TcpEcnState::initial(),
            timers: TcpTimerState::idle(),
            timestamps: TcpTimestampState::initial(),
            tx_intent: None,
        }
    }

    // Timers

    pub open spec fn timer_started(self, timer_id: u32) -> Self {
        TcpConnection { timers: self.timers.started(timer_id), ..self }
    }

    pub open spec fn timer_stopped(self, timer_id: u32) -> Self {
        TcpConnection { timers: self.timers.stopped(timer_id), ..self }
    }

    /// A range waits for its RACK deadline.
    pub open spec fn rack_waits(self) -> bool {
        recovery_model::earliest_deadline(self.recovery@.samples) is Some
    }

    /// A tail loss probe is due once the probe timeout passes.
    pub open spec fn probe_waits(self) -> bool {
        self.recovery@.tlp_timer_armed && self.recovery@.bytes_in_flight != 0
    }

    /// The peer closed its window on data that is in flight.
    pub open spec fn window_probe_due(self) -> bool {
        self.snd_wnd == 0 && self.recovery@.bytes_in_flight != 0
    }

    /// The mask of the recovery timers that are to run.
    pub open spec fn recovery_timer_mask(self) -> u16 {
        (if self.rack_waits() {
            timers::bit_of(TCP_TIMER_RACK)
        } else {
            0
        }) | (if self.probe_waits() {
            timers::bit_of(TCP_TIMER_TLP)
        } else {
            0
        })
    }

    /// The two recovery timers started or stopped as the recovery state asks.
    pub open spec fn recovery_timers_refreshed(self) -> Self {
        TcpConnection {
            timers: self.timers.switched(TCP_TIMER_RACK, self.rack_waits()).switched(
                TCP_TIMER_TLP,
                self.probe_waits(),
            ),
            ..self
        }
    }

    /// The ticks until a timer is to fire, where it applies.
    pub open spec fn ticks_until(self, timer_id: u32, now: Instant) -> Option<u64> {
        if !timer_applies(self.state, timer_id) {
            None
        } else if timer_id == TCP_TIMER_RACK {
            match recovery_model::earliest_deadline(self.recovery@.samples) {
                Some(deadline) => Some(ticks_of(deadline.spec_since(now))),
                None => None,
            }
        } else if timer_id == TCP_TIMER_TLP {
            match self.recovery@.probe_timeout(
                self.retransmit_timeout.srtt,
                self.retransmit_timeout.rto,
            ) {
                Some(span) => Some(ticks_of(span)),
                None => None,
            }
        } else if timer_id == TCP_TIMER_DELAYED_ACK {
            Some(TCP_DELAYED_ACK_TICKS)
        } else if timer_id == TCP_TIMER_TIME_WAIT {
            Some(TCP_TIME_WAIT_TICKS)
        } else {
            Some(ticks_of(self.retransmit_timeout.rto))
        }
    }

    // Options

    /// The controller told of the peer's segment size, where it set one.
    pub open spec fn controller_for(self, options: TcpConnectionOptionState) -> C {
        match options.negotiated.send_max_segment_size {
            Some(size) if size != 0 => self.congestion.after_mtu_update(size as u32),
            _ => self.congestion,
        }
    }

    pub open spec fn with_local_capabilities(self, capabilities: TcpCapabilities) -> Self {
        let options = self.options.with_local(capabilities);
        TcpConnection { options, congestion: self.controller_for(options), ..self }
    }

    pub open spec fn with_peer_capabilities(self, capabilities: TcpCapabilities) -> Self {
        let options = self.options.with_remote(capabilities);
        TcpConnection { options, congestion: self.controller_for(options), ..self }
    }

    // Timestamps

    pub open spec fn sends_timestamps(self) -> bool {
        self.options.negotiated.timestamps || self.options.local_capabilities.timestamps
    }

    /// The timestamp option of a segment that is sent now.
    pub open spec fn stamp(self, now: Instant) -> Option<TcpTimestampOption> {
        if self.sends_timestamps() {
            Some(self.timestamps.stamp(now))
        } else {
            None
        }
    }

    pub open spec fn stamped(self, now: Instant) -> Self {
        if self.sends_timestamps() {
            TcpConnection { timestamps: self.timestamps.stamped(now), ..self }
        } else {
            self
        }
    }

    /// The segment covers the next expected byte, or opens the connection.
    pub open spec fn covers_next(self, packet: TcpPacket) -> bool {
        packet.flags.syn || (self.rcv_nxt.at_or_after(packet.sequence)
            && packet.spec_end().at_or_after(self.rcv_nxt))
    }

    /// The segment's timestamp lets it through.
    pub open spec fn timestamp_passes(self, packet: TcpPacket, now: Instant) -> bool {
        if packet.flags.rst || !self.options.negotiated.timestamps {
            true
        } else {
            match packet.timestamp {
                Some(timestamp) => self.timestamps.passes(timestamp.tsval, now),
                None => false,
            }
        }
    }

    pub open spec fn timestamp_taken(self, packet: TcpPacket, now: Instant) -> Self {
        if packet.flags.rst || !self.options.negotiated.timestamps {
            self
        } else {
            match packet.timestamp {
                Some(timestamp) => TcpConnection {
                    timestamps: self.timestamps.inbound(
                        timestamp.tsval,
                        self.covers_next(packet),
                        now,
                    ),
                    ..self
                },
                None => self,
            }
        }
    }

    /// The round trip that the segment's timestamp echo tells of.
    pub open spec fn echoed_round_trip(self, packet: TcpPacket, now: Instant) -> Option<Duration> {
        if !self.options.negotiated.timestamps {
            None
        } else {
            match packet.timestamp {
                Some(timestamp) => self.timestamps.echo_sample(timestamp.tsecr, now),
                None => None,
            }
        }
    }

    pub open spec fn echo_taken(self, packet: TcpPacket, now: Instant) -> TcpTimestampState {
        if !self.options.negotiated.timestamps {
            self.timestamps
        } else {
            match packet.timestamp {
                Some(timestamp) => self.timestamps.echo_observed(timestamp.tsecr, now),
                None => self.timestamps,
            }
        }
    }

    // Segments

    pub open spec fn ecn_observed(self, packet: TcpPacket) -> Self {
        TcpConnection {
            ecn: self.ecn.observed(self.options.negotiated, packet.flags, packet.ip_ecn),
            ..self
        }
    }

    pub open spec fn flags_out(self, flags: TcpSegmentFlags) -> TcpSegmentFlags {
        self.ecn.flags_out(self.options.negotiated, flags)
    }

    /// Data that is sent for the first time is marked as ECN capable.
    pub open spec fn ip_ecn_out(self, payload_len: usize, retransmit: bool) -> Option<
        IpEcnCodepoint,
    > {
        if self.options.negotiated.ecn && payload_len != 0 && !retransmit {
            Some(IpEcnCodepoint::Ect0)
        } else {
            None
        }
    }

    /// The sequence number of a control segment: the first number at hand that
    /// was set.
    pub open spec fn control_sequence(self, flags: TcpSegmentFlags) -> u32 {
        if flags.syn && self.iss.value != 0 {
            self.iss.value
        } else if self.snd_nxt.value != 0 {
            self.snd_nxt.value
        } else if self.snd_una.value != 0 {
            self.snd_una.value
        } else if self.iss.value != 0 {
            self.iss.spec_advance(1).value
        } else {
            1
        }
    }

    /// The acknowledgment number of a control segment.
    pub open spec fn control_acknowledgment(self, flags: TcpSegmentFlags) -> u32 {
        if !flags.ack {
            0
        } else if self.rcv_nxt.value != 0 {
            self.rcv_nxt.value
        } else if self.irs.value != 0 {
            self.irs.spec_advance(1).value
        } else {
            1
        }
    }

    /// The control segment that answers `packet`.
    pub open spec fn control(
        self,
        packet: TcpPacket,
        flags: TcpSegmentFlags,
        reset_sequence: Option<u32>,
        now: Instant,
    ) -> TcpSegment {
        let out = self.flags_out(flags);
        TcpSegment {
            local: packet.local,
            remote: packet.remote,
            sequence: match reset_sequence {
                Some(sequence) => sequence,
                None => self.control_sequence(out),
            },
            acknowledgment: self.control_acknowledgment(out),
            advertised_window: self.options.window_to_advertise(self.rcv_wnd),
            flags: out,
            capabilities: self.options.local_capabilities,
            sack_blocks: self.sack.report(self.options.negotiated.sack, out),
            timestamp: self.stamp(now),
            fast_open_cookie: if out.syn {
                self.fast_open_cookie
            } else {
                None
            },
            ip_ecn: None,
            payload_len: 0,
        }
    }

    /// The connection once a control segment with `flags` was made.
    pub open spec fn after_control(self, flags: TcpSegmentFlags, now: Instant) -> Self {
        TcpConnection {
            sack: self.sack.reported(self.options.negotiated.sack, self.flags_out(flags)),
            ..self.stamped(now)
        }
    }

    // Opening

    /// The connection after an active open.
    pub open spec fn connecting(self, initial_sequence: u32) -> Self {
        let iss = TcpSeq { value: initial_sequence };
        TcpConnection {
            close_reason: None,
            iss,
            snd_una: iss,
            snd_nxt: iss.spec_advance(1),
            fast_open_syn_payload_len: 0,
            state: TcpState::SynSent,
            ..self
        }
    }

    /// The connection after a SYN was accepted, with the SYN-ACK still to make.
    pub open spec fn syn_accepted(self, packet: TcpPacket, accepted_len: u32, now: Instant) -> Self {
        let offered = self.with_peer_capabilities(packet.capabilities).timestamp_taken(packet, now);
        let iss = if self.iss.value == 0 {
            TcpSeq { value: 1 }
        } else {
            self.iss
        };
        TcpConnection {
            iss,
            state: TcpState::SynRcvd,
            irs: packet.sequence,
            snd_una: iss,
            snd_nxt: iss.spec_advance(1),
            snd_wnd: offered.options.send_window(packet.advertised_window as u32),
            rcv_nxt: packet.sequence.spec_advance(1).spec_advance(accepted_len),
            ..offered
        }
    }

    /// `after` and `result` are what a SYN makes of the connection. What is no plain
    /// SYN is passed over.
    pub open spec fn syn_received(
        self,
        after: Self,
        result: Result<Option<TcpSegment>, TcpConnectionError>,
        packet: TcpPacket,
        accepted_len: u32,
        now: Instant,
    ) -> bool {
        let accepted = self.syn_accepted(packet, accepted_len, now);
        let flags = syn_ack(accepted.options.negotiated.ecn);
        if packet.flags.syn && !packet.flags.ack && !packet.flags.rst {
            &&& after == accepted.after_control(flags, now)
            &&& result == Ok::<Option<TcpSegment>, TcpConnectionError>(
                Some(accepted.control(packet, flags, None, now)),
            )
        } else {
            &&& after == self
            &&& result == Ok::<Option<TcpSegment>, TcpConnectionError>(None)
        }
    }

    /// The acknowledgment covers no more than what was sent.
    pub open spec fn accepts(self, acknowledgment: TcpSeq) -> bool {
        acknowledgment.at_or_after(self.snd_una) && acknowledgment.at_or_before(self.snd_nxt)
    }

    /// The connection after a reset.
    pub open spec fn reset_by_peer(self) -> Self {
        TcpConnection {
            close_reason: Some(TcpCloseReason::RemoteReset),
            state: TcpState::Closed,
            ..self
        }
    }

    /// The handshake data of the peer's SYN taken in.
    pub open spec fn open_reply_taken(self, packet: TcpPacket, now: Instant) -> Self {
        let offered = self.with_peer_capabilities(packet.capabilities).timestamp_taken(packet, now);
        TcpConnection {
            irs: packet.sequence,
            snd_wnd: offered.options.send_window(packet.advertised_window as u32),
            rcv_nxt: packet.sequence.spec_advance(1),
            fast_open_cookie: match packet.fast_open_cookie {
                Some(cookie) if cookie.len != 0 => Some(cookie),
                _ => self.fast_open_cookie,
            },
            ..offered
        }
    }

    /// What the reply to our SYN makes of the connection, and the answer to it.
    pub open spec fn open_reply(self, packet: TcpPacket, now: Instant) -> (
        Self,
        Option<TcpSegment>,
    ) {
        let refused = packet.acknowledges() matches Some(ack) && (ack.at_or_before(self.iss)
            || ack.after(self.snd_nxt));
        if refused {
            if packet.flags.rst {
                (self, None)
            } else {
                (
                    self.after_control(types::rst_only(), now),
                    Some(
                        self.control(
                            packet,
                            types::rst_only(),
                            Some(packet.acknowledgment->0.value),
                            now,
                        ),
                    ),
                )
            }
        } else if packet.flags.rst {
            if packet.acknowledgment matches Some(ack) && self.accepts(ack) {
                (self.reset_by_peer().timer_stopped(TCP_TIMER_RETRANSMIT), None)
            } else {
                (self, None)
            }
        } else if !packet.flags.syn {
            (self, None)
        } else {
            let offered = self.with_peer_capabilities(packet.capabilities);
            if !offered.timestamp_passes(packet, now) {
                (offered.timestamp_taken(packet, now), None)
            } else {
                let taken = self.open_reply_taken(packet, now);
                match packet.acknowledges() {
                    Some(ack) => if !taken.accepts(ack) {
                        (taken, None)
                    } else {
                        let opened = TcpConnection {
                            snd_una: ack,
                            state: TcpState::Established,
                            timers: taken.timers.stopped(TCP_TIMER_RETRANSMIT),
                            rcv_nxt: taken.rcv_nxt.spec_advance(packet.payload_len),
                            ..taken
                        };
                        (
                            opened.after_control(types::ack_only(), now),
                            Some(opened.control(packet, types::ack_only(), None, now)),
                        )
                    },
                    None => {
                        let crossed = TcpConnection { state: TcpState::SynRcvd, ..taken };
                        let flags = syn_ack(crossed.options.negotiated.ecn);
                        (
                            crossed.after_control(flags, now),
                            Some(crossed.control(packet, flags, None, now)),
                        )
                    },
                }
            }
        }
    }

    /// `after` and `result` are what a reply makes of a connection, which must have
    /// sent its SYN.
    pub open spec fn open_reply_received(
        self,
        after: Self,
        result: Result<Option<TcpSegment>, TcpConnectionError>,
        packet: TcpPacket,
        now: Instant,
    ) -> bool {
        if self.state == TcpState::SynSent {
            &&& after == self.open_reply(packet, now).0
            &&& result == Ok::<Option<TcpSegment>, TcpConnectionError>(
                self.open_reply(packet, now).1,
            )
        } else {
            &&& after == self
            &&& result == Err::<Option<TcpSegment>, TcpConnectionError>(
                TcpConnectionError::OpenReplyOutsideSynSent,
            )
        }
    }

    /// `after` and `result` are what the last segment of a handshake makes of a
    /// connection, which must wait for it.
    pub open spec fn final_ack_received(
        self,
        after: Self,
        result: Result<Option<TcpSegment>, TcpConnectionError>,
        packet: TcpPacket,
        now: Instant,
    ) -> bool {
        if self.state == TcpState::SynRcvd {
            &&& after == self.final_ack(packet, now).0
            &&& result == Ok::<Option<TcpSegment>, TcpConnectionError>(self.final_ack(packet, now).1)
        } else {
            &&& after == self
            &&& result == Err::<Option<TcpSegment>, TcpConnectionError>(
                TcpConnectionError::FinalAckOutsideSynRcvd,
            )
        }
    }

    /// What the last segment of the handshake makes of the connection, and the
    /// answer to it: only a bad acknowledgment gets one.
    pub open spec fn final_ack(self, packet: TcpPacket, now: Instant) -> (
        Self,
        Option<TcpSegment>,
    ) {
        let taken = self.timestamp_taken(packet, now);
        if !self.timestamp_passes(packet, now) {
            (taken, None)
        } else if packet.flags.rst {
            (taken.reset_by_peer(), None)
        } else {
            match packet.acknowledgment {
                None => (taken, None),
                Some(ack) => if !packet.flags.ack || !taken.accepts(ack) {
                    (
                        taken.after_control(types::rst_only(), now),
                        Some(taken.control(packet, types::rst_only(), Some(ack.value), now)),
                    )
                } else {
                    (
                        TcpConnection {
                            snd_una: ack,
                            snd_wnd: taken.options.send_window(packet.advertised_window as u32),
                            state: TcpState::Established,
                            timers: taken.timers.stopped(TCP_TIMER_RETRANSMIT),
                            ..taken
                        },
                        None,
                    )
                },
            }
        }
    }

    // Acknowledgments

    /// The window in which reordering is not taken for loss: a quarter of the
    /// smoothed round trip.
    pub open spec fn reordering_window(self) -> Duration {
        let quarter = match self.retransmit_timeout.srtt {
            Some(srtt) => srtt.nanos as int / 4,
            None => 0,
        };
        Duration { nanos: vstd::math::max(quarter, TCP_MIN_REORDERING_WINDOW as int) as u128 }
    }

    pub open spec fn recovery_ack(self, acknowledgment: TcpSeq, now: Instant) -> TcpRecoveryAck {
        TcpRecoveryAck {
            acknowledgment,
            now,
            app_limited: false,
            ecn_ce_count: self.ecn.pending_ce_feedback,
            reordering_window: self.reordering_window(),
        }
    }

    /// The outstanding ranges that an acknowledgment takes.
    pub open spec fn ranges_taken(self, acknowledgment: TcpSeq, blocks: Seq<TcpSackBlock>) -> Seq<
        TcpSentSample,
    > {
        if blocks.len() == 0 {
            recovery_model::acked_part(self.recovery@.samples, acknowledgment)
        } else {
            self.recovery@.sack_taken(acknowledgment, blocks)
        }
    }

    /// The acknowledgment concerns loss recovery.
    pub open spec fn concerns_recovery(
        self,
        acknowledgment: TcpSeq,
        blocks: Seq<TcpSackBlock>,
    ) -> bool {
        self.accepts(acknowledgment) && (acknowledgment.after(self.snd_una) || blocks.len() > 0)
    }

    /// `recovery` and `congestion` are what an acknowledgment makes of ours.
    pub open spec fn recovery_moved(
        self,
        recovery: RecoveryModel,
        congestion: C,
        acknowledgment: TcpSeq,
        blocks: Seq<TcpSackBlock>,
        now: Instant,
    ) -> bool {
        let ack = self.recovery_ack(acknowledgment, now);
        let taken = self.ranges_taken(acknowledgment, blocks);
        if !self.concerns_recovery(acknowledgment, blocks) {
            recovery == self.recovery@ && congestion == self.congestion
        } else if blocks.len() == 0 {
            &&& congestion == recovery_model::controller_after_ack(
                self.congestion,
                taken,
                self.recovery@.bytes_in_flight as int,
                recovery.bytes_in_flight,
                ack,
            )
            &&& recovery == self.recovery@.acked(acknowledgment, congestion.spec_max_datagram_size())
        } else {
            let left = arith::saturate_u32(
                self.recovery@.bytes_in_flight - recovery_model::total_bytes(taken),
            );
            &&& congestion == recovery_model::controller_after_ack(
                self.congestion,
                taken,
                arith::saturate_u32(left + recovery_model::total_bytes(taken)) as int,
                left,
                ack,
            )
            &&& recovery == self.recovery@.sacked(ack, blocks, congestion.spec_max_datagram_size())
        }
    }

    /// The round trip that the ranges taken tell of.
    pub open spec fn recovered_round_trip(
        self,
        acknowledgment: TcpSeq,
        blocks: Seq<TcpSackBlock>,
        now: Instant,
    ) -> Option<Duration> {
        if self.concerns_recovery(acknowledgment, blocks) {
            recovery_model::latest_round_trip(self.ranges_taken(acknowledgment, blocks), now)
        } else {
            None
        }
    }

    /// The acknowledgment moves the left edge of what is outstanding.
    pub open spec fn moves_forward(self, acknowledgment: TcpSeq) -> bool {
        self.accepts(acknowledgment) && acknowledgment.after(self.snd_una)
    }

    /// The timestamp echo stands in for a round trip that the ranges do not tell.
    pub open spec fn needs_echo(
        self,
        acknowledgment: TcpSeq,
        blocks: Seq<TcpSackBlock>,
        now: Instant,
    ) -> bool {
        self.moves_forward(acknowledgment) && self.recovered_round_trip(acknowledgment, blocks, now)
            is None
    }

    /// The round trip that an acknowledgment tells of.
    pub open spec fn round_trip_told(
        self,
        packet: TcpPacket,
        acknowledgment: TcpSeq,
        blocks: Seq<TcpSackBlock>,
        now: Instant,
    ) -> Option<Duration> {
        if self.needs_echo(acknowledgment, blocks, now) {
            self.echoed_round_trip(packet, now)
        } else {
            self.recovered_round_trip(acknowledgment, blocks, now)
        }
    }

    /// The connection once an acknowledgment was measured, given what it made of
    /// recovery and controller.
    pub open spec fn progressed(
        self,
        recovery: TcpRecoveryState,
        congestion: C,
        packet: TcpPacket,
        acknowledgment: TcpSeq,
        blocks: Seq<TcpSackBlock>,
        now: Instant,
    ) -> Self {
        let told = self.round_trip_told(packet, acknowledgment, blocks, now);
        let measured = self.moves_forward(acknowledgment) && told is Some;
        TcpConnection {
            recovery,
            congestion,
            timestamps: if self.needs_echo(acknowledgment, blocks, now) {
                self.echo_taken(packet, now)
            } else {
                self.timestamps
            },
            retransmit_timeout: if measured {
                self.retransmit_timeout.sampled(told->0)
            } else {
                self.retransmit_timeout
            },
            ecn: if measured {
                self.ecn.feedback_passed_on()
            } else {
                self.ecn
            },
            ..self
        }
    }

    /// The send window after an acknowledgment.
    pub open spec fn ack_applied(self, acknowledgment: TcpSeq, advertised_window: u16) -> Self {
        TcpConnection {
            snd_una: if self.accepts(acknowledgment) {
                acknowledgment
            } else {
                self.snd_una
            },
            snd_wnd: self.options.send_window(advertised_window as u32),
            ..self
        }
    }

    /// The timers after an acknowledgment: no delayed acknowledgment is owed,
    /// and persist and recovery timers run as needed.
    pub open spec fn ack_timers(self) -> Self {
        (TcpConnection {
            timers: self.timers.stopped(TCP_TIMER_DELAYED_ACK).switched(
                TCP_TIMER_PERSIST,
                self.window_probe_due(),
            ),
            ..self
        }).recovery_timers_refreshed()
    }

    /// The connection after an acknowledgment.
    pub open spec fn acknowledged(
        self,
        recovery: TcpRecoveryState,
        congestion: C,
        packet: TcpPacket,
        acknowledgment: TcpSeq,
        advertised_window: u16,
        blocks: Seq<TcpSackBlock>,
        now: Instant,
    ) -> Self {
        self.progressed(
            recovery,
            congestion,
            packet,
            acknowledgment,
            blocks,
            now,
        ).ack_applied(acknowledgment, advertised_window).ack_timers()
    }

    /// The connection once the acknowledgment of a segment, if it has one, was
    /// taken in.
    pub open spec fn packet_acknowledged(
        self,
        recovery: TcpRecoveryState,
        congestion: C,
        packet: TcpPacket,
        now: Instant,
    ) -> Self {
        match packet.acknowledges() {
            Some(ack) => self.acknowledged(
                recovery,
                congestion,
                packet,
                ack,
                packet.advertised_window,
                packet.sack_blocks@,
                now,
            ),
            None => self,
        }
    }

    /// `recovery` and `congestion` are what a segment makes of ours.
    pub open spec fn packet_moves_recovery(
        self,
        recovery: TcpRecoveryState,
        congestion: C,
        packet: TcpPacket,
        now: Instant,
    ) -> bool {
        match packet.acknowledges() {
            Some(ack) => self.recovery_moved(
                recovery@,
                congestion,
                ack,
                packet.sack_blocks@,
                now,
            ),
            None => recovery == self.recovery && congestion == self.congestion,
        }
    }

    // Receiving

    /// A FIN that stands alone at the next expected position.
    pub open spec fn fin_in_order(self, packet: TcpPacket) -> bool {
        packet.flags.fin && packet.sequence == self.rcv_nxt
    }

    /// The peer's FIN taken in, with the acknowledgment for it made.
    pub open spec fn fin_taken(self, packet: TcpPacket, next: TcpState, now: Instant) -> (
        Self,
        Option<TcpSegment>,
    ) {
        let moved = TcpConnection {
            rcv_nxt: self.rcv_nxt.spec_advance(1),
            state: next,
            timers: if next == TcpState::TimeWait {
                self.timers.started(TCP_TIMER_TIME_WAIT)
            } else {
                self.timers
            },
            ..self
        };
        (
            moved.after_control(types::ack_only(), now),
            Some(moved.control(packet, types::ack_only(), None, now)),
        )
    }

    /// What the peer's FIN makes of an established connection. One that comes
    /// with data waits until it is sent again after the data was taken.
    pub open spec fn established_fin(self, packet: TcpPacket, now: Instant) -> (
        Self,
        Option<TcpSegment>,
    ) {
        if self.fin_in_order(packet) && packet.payload_len == 0 {
            self.fin_taken(packet, TcpState::CloseWait, now)
        } else {
            (self, None)
        }
    }

    /// The segment acknowledges everything that was sent, our FIN included.
    pub open spec fn all_acknowledged(self, packet: TcpPacket) -> bool {
        packet.acknowledges() matches Some(ack) && self.accepts(ack) && ack == self.snd_nxt
    }

    /// What a segment makes of a connection outside the established state, once
    /// its acknowledgment was taken in. Data that comes with the last segment of the
    /// handshake is acknowledged at once.
    pub open spec fn close_step(self, packet: TcpPacket, now: Instant) -> (
        Self,
        Option<TcpSegment>,
    ) {
        match self.state {
            TcpState::SynRcvd => {
                let (opened, reply) = self.final_ack(packet, now);
                if opened.state == TcpState::Established && packet.payload_len != 0 {
                    let moved = TcpConnection {
                        rcv_nxt: packet.sequence.spec_advance(packet.payload_len),
                        ..opened
                    };
                    (
                        moved.after_control(types::ack_only(), now),
                        Some(moved.control(packet, types::ack_only(), None, now)),
                    )
                } else {
                    (opened, reply)
                }
            },
            TcpState::FinWait1 => if self.fin_in_order(packet) {
                self.fin_taken(
                    packet,
                    if self.all_acknowledged(packet) {
                        TcpState::TimeWait
                    } else {
                        TcpState::Closing
                    },
                    now,
                )
            } else if self.all_acknowledged(packet) {
                (TcpConnection { state: TcpState::FinWait2, ..self }, None)
            } else {
                (self, None)
            },
            TcpState::FinWait2 => if self.fin_in_order(packet) {
                self.fin_taken(packet, TcpState::TimeWait, now)
            } else {
                (self, None)
            },
            TcpState::Closing => if self.all_acknowledged(packet) {
                (
                    TcpConnection {
                        state: TcpState::TimeWait,
                        timers: self.timers.started(TCP_TIMER_TIME_WAIT),
                        ..self
                    },
                    None,
                )
            } else {
                (self, None)
            },
            TcpState::LastAck => if self.all_acknowledged(packet) {
                (TcpConnection { state: TcpState::Closed, ..self }, None)
            } else {
                (self, None)
            },
            TcpState::TimeWait => if packet.flags.fin {
                let again = self.timer_started(TCP_TIMER_TIME_WAIT);
                (
                    again.after_control(types::ack_only(), now),
                    Some(again.control(packet, types::ack_only(), None, now)),
                )
            } else {
                (self, None)
            },
            _ => (self, None),
        }
    }

    /// `after` and `result` are what a segment makes of the connection where it is
    /// established, all but its payload.
    pub open spec fn established_received(
        self,
        after: Self,
        result: Result<(Option<TcpSegment>, u16), TcpConnectionError>,
        packet: TcpPacket,
        now: Instant,
    ) -> bool {
        let stamped = self.timestamp_taken(packet, now);
        let observed = stamped.ecn_observed(packet);
        let moved = observed.packet_acknowledged(after.recovery, after.congestion, packet, now);
        if self.state != TcpState::Established {
            &&& after == self
            &&& result == Err::<(Option<TcpSegment>, u16), TcpConnectionError>(
                TcpConnectionError::ReceiveOutsideEstablished,
            )
        } else if !self.timestamp_passes(packet, now) {
            &&& after == stamped
            &&& result == Ok::<(Option<TcpSegment>, u16), TcpConnectionError>((None, 0))
        } else {
            &&& observed.packet_moves_recovery(after.recovery, after.congestion, packet, now)
            &&& after == moved.established_fin(packet, now).0
            &&& result == Ok::<(Option<TcpSegment>, u16), TcpConnectionError>(
                (
                    moved.established_fin(packet, now).1,
                    if packet.acknowledges() is Some {
                        moved.recovery_timer_mask()
                    } else {
                        0
                    },
                ),
            )
        }
    }

    /// `after` and `reply` are what a segment makes of the connection where it is
    /// not established, or no longer.
    pub open spec fn close_side_received(
        self,
        after: Self,
        reply: Option<TcpSegment>,
        packet: TcpPacket,
        now: Instant,
    ) -> bool {
        let stamped = self.timestamp_taken(packet, now);
        let observed = stamped.ecn_observed(packet);
        let moved = observed.packet_acknowledged(after.recovery, after.congestion, packet, now);
        if !self.timestamp_passes(packet, now) {
            after == stamped && reply is None
        } else if packet.flags.rst {
            after == observed.reset_by_peer() && reply is None
        } else {
            &&& observed.packet_moves_recovery(after.recovery, after.congestion, packet, now)
            &&& after == moved.close_step(packet, now).0
            &&& reply == moved.close_step(packet, now).1
        }
    }

    /// How much of a segment's payload was received before, and how far ahead of
    /// the next expected byte the rest starts; nothing if it is all old.
    pub open spec fn payload_window(self, packet: TcpPacket) -> Option<(u32, u32)> {
        if packet.payload_len == 0 || packet.sequence.spec_advance(
            packet.payload_len,
        ).at_or_before(self.rcv_nxt) {
            None
        } else if packet.sequence.before(self.rcv_nxt) {
            Some((packet.sequence.spec_distance_to(self.rcv_nxt), 0))
        } else {
            Some((0, self.rcv_nxt.spec_distance_to(packet.sequence)))
        }
    }

    /// The connection after a payload was handed to its session.
    pub open spec fn payload_received(
        self,
        sequence: TcpSeq,
        trim: u32,
        delivered_len: u32,
        newest_ooo_start: Option<u32>,
        newest_ooo_len: u32,
    ) -> Self {
        let enabled = self.options.negotiated.sack;
        let noted = if trim != 0 {
            self.sack.with_duplicate(enabled, sequence, self.rcv_nxt)
        } else {
            self.sack
        };
        let rcv_nxt = self.rcv_nxt.spec_advance(delivered_len);
        let (left, right) = match newest_ooo_start {
            Some(start) => (
                rcv_nxt.spec_advance(start),
                rcv_nxt.spec_advance(start).spec_advance(newest_ooo_len),
            ),
            None => (rcv_nxt, rcv_nxt),
        };
        TcpConnection {
            rcv_nxt,
            sack: noted.range_updated(enabled, rcv_nxt, left, right),
            ..self
        }
    }

    /// The connection once its session has room for `rx_available` bytes.
    pub open spec fn with_room(self, rx_available: usize) -> Self {
        TcpConnection {
            rcv_wnd: vstd::math::min(rx_available as int, u32::MAX as int) as u32,
            ..self
        }
    }

    // Sending

    /// The position of the next payload byte to send.
    pub open spec fn next_payload_sequence(self) -> TcpSeq {
        match self.tx_intent {
            Some(intent) => intent.sequence,
            None => if self.state == TcpState::SynSent {
                self.iss
            } else {
                self.snd_nxt
            },
        }
    }

    /// What congestion control leaves of its window.
    pub open spec fn congestion_room(self) -> int {
        let in_flight = self.recovery@.bytes_in_flight;
        match self.recovery@.send_space(in_flight, self.congestion.spec_max_datagram_size()) {
            Some(space) => space as int,
            None => arith::saturate_u32(
                self.congestion.spec_metrics().congestion_window - in_flight,
            ) as int,
        }
    }

    /// What the peer's window leaves.
    pub open spec fn peer_room(self) -> int {
        arith::saturate_u32(self.snd_wnd - self.recovery@.bytes_in_flight) as int
    }

    /// The largest payload of one segment.
    pub open spec fn segment_room(self) -> int {
        output::output_payload_len(self.options.negotiated.send_max_segment_size) as int
    }

    /// What segment size, peer and congestion control allow an established
    /// connection to send.
    pub open spec fn allowance(self, pending_len: usize) -> int {
        vstd::math::min(
            vstd::math::min(
                vstd::math::min(pending_len as int, self.segment_room()),
                self.peer_room(),
            ),
            self.congestion_room(),
        )
    }

    /// How much of the pending payload may go into the next segment.
    pub open spec fn payload_budget(self, pending_len: usize) -> int {
        match self.tx_intent {
            Some(intent) => vstd::math::min(pending_len as int, intent.payload_len as int),
            None => if pending_len == 0 {
                0
            } else if self.state == TcpState::SynSent {
                if !self.options.local_capabilities.fast_open || self.fast_open_cookie is None {
                    0
                } else {
                    vstd::math::min(pending_len as int, self.segment_room())
                }
            } else if self.state != TcpState::Established {
                0
            } else if self.allowance(pending_len) == 0 || self.congestion.spec_next_send_delay(
                self.allowance(pending_len) as u32,
            ) is Some {
                0
            } else {
                self.allowance(pending_len)
            },
        }
    }

    /// The segment for the next payload, or why there is none.
    pub open spec fn transmission(self, payload_len: usize, now: Instant) -> Result<
        TcpSegment,
        TcpConnectionError,
    > {
        if self.state == TcpState::SynSent {
            match self.local {
                None => Err(TcpConnectionError::SynSentWithoutLocalAddress),
                Some(local) => Ok(
                    TcpSegment {
                        local,
                        remote: self.remote,
                        sequence: self.next_payload_sequence().value,
                        acknowledgment: self.rcv_nxt.value,
                        advertised_window: self.options.window_to_advertise(self.rcv_wnd),
                        flags: opening_flags(self.options.local_capabilities.ecn),
                        capabilities: self.options.local_capabilities,
                        sack_blocks: sack::no_blocks(),
                        timestamp: self.stamp(now),
                        fast_open_cookie: self.fast_open_cookie,
                        ip_ecn: self.ip_ecn_out(payload_len, self.tx_intent is Some),
                        payload_len,
                    },
                ),
            }
        } else if self.state != TcpState::Established {
            Err(TcpConnectionError::TransmitOutsideEstablished)
        } else {
            match self.local {
                None => Err(TcpConnectionError::EstablishedWithoutLocalAddress),
                Some(local) => {
                    let flags = self.flags_out(psh_ack());
                    let out = TcpSegmentFlags { cwr: flags.cwr || self.ecn.cwr, ..flags };
                    Ok(
                        TcpSegment {
                            local,
                            remote: self.remote,
                            sequence: self.next_payload_sequence().value,
                            acknowledgment: self.rcv_nxt.value,
                            advertised_window: self.options.window_to_advertise(self.rcv_wnd),
                            flags: out,
                            capabilities: self.options.local_capabilities,
                            sack_blocks: self.sack.report(self.options.negotiated.sack, out),
                            timestamp: self.stamp(now),
                            fast_open_cookie: None,
                            ip_ecn: self.ip_ecn_out(payload_len, self.tx_intent is Some),
                            payload_len,
                        },
                    )
                },
            }
        }
    }

    /// The connection once the segment for the next payload was made.
    pub open spec fn after_transmission(self, now: Instant) -> Self {
        if self.local is None {
            self
        } else if self.state == TcpState::SynSent {
            self.stamped(now)
        } else if self.state == TcpState::Established {
            TcpConnection {
                ecn: TcpEcnState { cwr: false, ..self.ecn },
                sack: self.sack.reported(self.options.negotiated.sack, self.flags_out(psh_ack())),
                ..self.stamped(now)
            }
        } else {
            self
        }
    }

    /// The timers after a range was sent again: which are to be scheduled.
    pub open spec fn resend_timer_mask(self) -> u16 {
        self.recovery_timer_mask() | (if self.window_probe_due() {
            timers::bit_of(TCP_TIMER_PERSIST)
        } else {
            0
        })
    }

    /// The bare segment of a connection that only acknowledges.
    pub open spec fn plain_ack(self, local: SocketAddress, now: Instant) -> TcpSegment {
        TcpSegment {
            local,
            remote: self.remote,
            sequence: self.snd_nxt.value,
            acknowledgment: self.rcv_nxt.value,
            advertised_window: self.options.window_to_advertise(self.rcv_wnd),
            flags: self.flags_out(types::ack_only()),
            capabilities: self.options.local_capabilities,
            sack_blocks: sack::no_blocks(),
            timestamp: self.stamp(now),
            fast_open_cookie: None,
            ip_ecn: None,
            payload_len: 0,
        }
    }

    /// Where our FIN stands, or will stand once it is sent.
    pub open spec fn fin_position(self) -> TcpSeq {
        match self.fin_sequence {
            Some(sequence) => sequence,
            None => self.snd_nxt,
        }
    }

    /// The segment that carries our FIN.
    pub open spec fn fin_segment(self, local: SocketAddress, now: Instant) -> TcpSegment {
        TcpSegment {
            local,
            remote: self.remote,
            sequence: self.fin_position().value,
            acknowledgment: self.rcv_nxt.value,
            advertised_window: self.options.window_to_advertise(self.rcv_wnd),
            flags: fin_ack(),
            capabilities: self.options.local_capabilities,
            sack_blocks: sack::no_blocks(),
            timestamp: self.stamp(now),
            fast_open_cookie: None,
            ip_ecn: None,
            payload_len: 0,
        }
    }

    /// The connection once its FIN was sent: the first time takes one position.
    pub open spec fn fin_sent(self, now: Instant) -> Self {
        TcpConnection {
            fin_sequence: Some(self.fin_position()),
            snd_nxt: if self.fin_sequence is None {
                self.snd_nxt.spec_advance(1)
            } else {
                self.snd_nxt
            },
            ..self.stamped(now)
        }
    }

    /// What a connection that got its turn does, and the segment it sends.
    pub open spec fn ready_step(self, has_pending_tx: bool, now: Instant) -> (
        Self,
        Option<TcpSegment>,
    ) {
        if self.state == TcpState::SynSent && !has_pending_tx && self.recovery@.bytes_in_flight
            == 0 {
            (
                self.after_transmission(now),
                match self.transmission(0, now) {
                    Ok(segment) => Some(segment),
                    Err(_) => None,
                },
            )
        } else if (self.state == TcpState::FinWait1 || self.state == TcpState::LastAck)
            && self.local is Some {
            (self.fin_sent(now), Some(self.fin_segment(self.local->0, now)))
        } else {
            (self, None)
        }
    }

    /// The connection after its session asked to close it.
    pub open spec fn closing(self) -> Self {
        if self.state == TcpState::Established {
            TcpConnection {
                close_reason: Some(TcpCloseReason::LocalRequest),
                state: TcpState::FinWait1,
                ..self
            }
        } else if self.state == TcpState::CloseWait {
            TcpConnection {
                close_reason: Some(TcpCloseReason::LocalRequest),
                state: TcpState::LastAck,
                ..self
            }
        } else {
            self
        }
    }

    /// How many positions between two left edges carried no payload: our SYN,
    /// where it carried data, and our FIN.
    pub open spec fn control_acked(self, previous_snd_una: TcpSeq) -> int {
        (if self.fast_open_syn_payload_len != 0 && previous_snd_una == self.iss {
            1int
        } else {
            0
        }) + (if self.fin_sequence matches Some(fin) && self.snd_una == fin.spec_advance(1) {
            1int
        } else {
            0
        })
    }

    /// How much was acknowledged since the left edge stood at `previous_snd_una`,
    /// but for [`Self::control_acked`]. A SYN without data counts as one byte.
    pub open spec fn payload_acked(self, previous_snd_una: TcpSeq) -> u32 {
        let acked = previous_snd_una.spec_distance_to(self.snd_una);
        if acked == 0 {
            0
        } else {
            arith::saturate_u32(acked - self.control_acked(previous_snd_una))
        }
    }

    // Timer handlers

    /// The range that is sent out of turn for `sample`.
    pub open spec fn intending(self, sequence: TcpSeq, payload_len: u32) -> Self {
        TcpConnection {
            tx_intent: Some(TcpTxIntent { sequence, payload_len, retransmit: true }),
            ..self
        }
    }

    /// The segment of [`Self::transmission`], if there is one.
    pub open spec fn attempt(self, payload_len: u32, now: Instant) -> Option<TcpSegment> {
        match self.transmission(payload_len as usize, now) {
            Ok(segment) => Some(segment),
            Err(_) => None,
        }
    }

    /// The SYN sent again, with its payload.
    pub open spec fn syn_resent(self, local: SocketAddress, now: Instant) -> TcpSegment {
        TcpSegment {
            local,
            remote: self.remote,
            sequence: self.iss.value,
            acknowledgment: self.rcv_nxt.value,
            advertised_window: self.options.window_to_advertise(self.rcv_wnd),
            flags: opening_flags(self.options.local_capabilities.ecn),
            capabilities: self.options.local_capabilities,
            sack_blocks: sack::no_blocks(),
            timestamp: self.stamp(now),
            fast_open_cookie: self.fast_open_cookie,
            ip_ecn: None,
            payload_len: self.fast_open_syn_payload_len as usize,
        }
    }

    /// The retransmission timer of an opening connection fired.
    pub open spec fn retransmit_step(self, now: Instant) -> (Self, Option<TcpSegment>) {
        let backed_off = (TcpConnection {
            retransmit_timeout: self.retransmit_timeout.timed_out(),
            ..self
        }).timer_started(TCP_TIMER_RETRANSMIT);
        match self.local {
            None => (backed_off, None),
            Some(local) => (backed_off.stamped(now), Some(self.syn_resent(local, now))),
        }
    }

    /// The delayed acknowledgment timer fired.
    pub open spec fn delayed_ack_step(self, now: Instant) -> (Self, Option<TcpSegment>) {
        match self.local {
            None => (self, None),
            Some(local) => (self.stamped(now), Some(self.plain_ack(local, now))),
        }
    }

    /// The persist timer fired: one byte of the oldest outstanding range probes
    /// the closed window, or a bare acknowledgment where it carries none.
    pub open spec fn persist_step(self, now: Instant) -> (Self, Option<TcpSegment>) {
        if self.recovery@.samples.len() == 0 {
            (self, None)
        } else {
            let sample = self.recovery@.samples[0];
            if sample.payload_len == 0 {
                self.delayed_ack_step(now)
            } else {
                let probing = self.timer_started(TCP_TIMER_PERSIST).intending(sample.sequence, 1);
                (probing.after_transmission(now), probing.attempt(1, now))
            }
        }
    }

    /// The tail loss probe timer fired, given the recovery state that taking the
    /// probe leads to.
    pub open spec fn probe_step(self, recovery: TcpRecoveryState, now: Instant) -> (
        Self,
        Option<TcpSegment>,
    ) {
        let moved = TcpConnection { recovery, ..self };
        if self.recovery@.samples.len() == 0 {
            (moved, None)
        } else {
            let sample = self.recovery@.samples.last();
            let probing = moved.intending(sample.sequence, sample.payload_len);
            (probing.after_transmission(now), probing.attempt(sample.payload_len, now))
        }
    }

    /// The recovery state after a tail loss probe was taken.
    pub open spec fn probe_recovery(self) -> RecoveryModel {
        if self.recovery@.samples.len() == 0 {
            self.recovery@
        } else {
            retransmission_counted(
                self.recovery@.probe_taken(),
                self.recovery@.samples.last().bytes,
            )
        }
    }

    /// The recovery state after the RACK timer declared its losses.
    pub open spec fn rack_losses(self, congestion: C, now: Instant) -> RecoveryModel {
        self.recovery@.rack_timed_out(
            now,
            self.snd_nxt,
            self.congestion.spec_metrics().congestion_window,
            congestion.spec_metrics().congestion_window,
        )
    }

    /// The recovery state after the RACK timer fired and the first lost range,
    /// if any, was taken for retransmission.
    pub open spec fn rack_recovery(self, congestion: C, now: Instant) -> RecoveryModel {
        let losses = self.rack_losses(congestion, now);
        let first = recovery_model::first_lost(losses.samples);
        if first < losses.samples.len() {
            retransmission_counted(losses.retransmit_taken(), losses.samples[first].bytes)
        } else {
            losses.retransmit_taken()
        }
    }

    /// The RACK timer fired, given what that made of recovery and controller.
    pub open spec fn rack_step(
        self,
        recovery: TcpRecoveryState,
        congestion: C,
        now: Instant,
    ) -> (Self, Option<TcpSegment>) {
        let moved = TcpConnection { recovery, congestion, ..self };
        let losses = self.rack_losses(congestion, now);
        let first = recovery_model::first_lost(losses.samples);
        if first < losses.samples.len() {
            let sample = losses.samples[first];
            let armed = if moved.rack_waits() {
                moved.timer_started(TCP_TIMER_RACK)
            } else {
                moved
            };
            let resending = armed.intending(sample.sequence, sample.payload_len);
            (resending.after_transmission(now), resending.attempt(sample.payload_len, now))
        } else {
            (moved, None)
        }
    }

    /// `after` and `result` are what recording a transmission makes of the
    /// connection.
    pub open spec fn committed(
        self,
        after: Self,
        result: Result<u16, TcpConnectionError>,
        payload_len: usize,
        now: Instant,
    ) -> bool {
        let cleared = TcpConnection { tx_intent: None, ..self };
        let opening = self.state == TcpState::SynSent;
        let sequence = if opening {
            self.iss
        } else {
            self.snd_nxt
        };
        let sent_len = if opening {
            arith::saturate_u32(payload_len + 1)
        } else {
            payload_len as u32
        };
        let end_sequence = sequence.spec_advance(sent_len);
        let recorded = range_sent(
            self.recovery@,
            sequence,
            end_sequence,
            payload_len as u32,
            now,
        );
        let sent = TcpConnection {
            recovery: after.recovery,
            congestion: self.congestion.after_packet_sent(
                self.recovery@.next_packet_number,
                sent_len,
                self.recovery@.bytes_in_flight,
                now,
            ),
            snd_nxt: end_sequence,
            ..self
        };
        if !opening && self.state != TcpState::Established {
            &&& after == self
            &&& result == Err::<u16, TcpConnectionError>(
                TcpConnectionError::CommitOutsideEstablished,
            )
        } else if self.tx_intent is Some && opening {
            &&& after == cleared
            &&& result == Ok::<u16, TcpConnectionError>(timers::bit_of(TCP_TIMER_RETRANSMIT))
        } else if self.tx_intent is Some {
            &&& after == (if self.window_probe_due() {
                cleared.timer_started(TCP_TIMER_PERSIST)
            } else {
                cleared
            })
            &&& result == Ok::<u16, TcpConnectionError>(self.resend_timer_mask())
        } else if payload_len > u32::MAX {
            &&& after == self
            &&& result == Err::<u16, TcpConnectionError>(TcpConnectionError::PayloadTooLong)
        } else if opening {
            &&& after.recovery@ == recorded
            &&& after == (TcpConnection {
                fast_open_syn_payload_len: payload_len as u32,
                ..sent
            }).timer_started(TCP_TIMER_RETRANSMIT)
            &&& result == Ok::<u16, TcpConnectionError>(0)
        } else {
            &&& after.recovery@ == new_data_counted(recorded, payload_len as u32)
            &&& after == sent.recovery_timers_refreshed()
            &&& result == Ok::<u16, TcpConnectionError>(sent.recovery_timer_mask())
        }
    }

    /// `after` and `reply` are what a fired timer makes of the connection.
    pub open spec fn timer_handled(
        self,
        after: Self,
        reply: Option<TcpSegment>,
        timer_id: u32,
        now: Instant,
    ) -> bool {
        let waiting = timer_applies(self.state, timer_id) && timers::holds(
            self.timers.pending,
            timer_id,
        );
        let dispatched = TcpConnection { timers: self.timers.dispatched(timer_id), ..self };
        if !waiting {
            after == self && reply is None
        } else if timers::holds(self.timers.active, timer_id) {
            after == dispatched && reply is None
        } else if timer_id == TCP_TIMER_RETRANSMIT {
            (after, reply) == dispatched.retransmit_step(now)
        } else if timer_id == TCP_TIMER_RACK {
            &&& after.congestion == recovery_model::losses_reported(
                self.congestion,
                self.recovery@.samples,
                now,
                self.recovery@.samples.len() as int,
            )
            &&& after.recovery@ == self.rack_recovery(after.congestion, now)
            &&& (after, reply) == dispatched.rack_step(after.recovery, after.congestion, now)
        } else if timer_id == TCP_TIMER_TLP {
            &&& after.recovery@ == self.probe_recovery()
            &&& (after, reply) == dispatched.probe_step(after.recovery, now)
        } else if timer_id == TCP_TIMER_DELAYED_ACK {
            (after, reply) == dispatched.delayed_ack_step(now)
        } else if timer_id == TCP_TIMER_PERSIST {
            (after, reply) == dispatched.persist_step(now)
        } else {
            &&& after == (TcpConnection {
                close_reason: Some(TcpCloseReason::LocalRequest),
                state: TcpState::Closed,
                ..dispatched
            })
            &&& reply is None
        }
    }
}

} // verus!
