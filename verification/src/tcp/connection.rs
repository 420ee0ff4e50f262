//! What a connection does on each event.
use vstd::prelude::*;

use crate::arith::min_usize;
use crate::congestion::CongestionController;
use crate::tcp::connection_model::{
    TcpConnection, TcpConnectionError, TcpTxIntent, DEFAULT_TCP_MAX_SEGMENT_SIZE, DEFAULT_TCP_WINDOW,
    TCP_MIN_REORDERING_WINDOW, TCP_TICK_NANOS,
};
use crate::tcp::connection_model;
use crate::tcp::connection_options::TcpConnectionOptionState;
use crate::tcp::connection_options;
use crate::tcp::ecn::TcpEcnState;
use crate::tcp::output::tcp_effective_output_payload_len;
use crate::tcp::recovery::TcpRecoveryState;
use crate::tcp::recovery_model;
use crate::tcp::recovery_model::{TcpRecoveryAck, TcpSackBlock, TcpSentSample};
use crate::tcp::retransmit_timeout;
use crate::tcp::retransmit_timeout::TcpRetransmitTimeoutState;
use crate::tcp::sack::TcpSackState;
use crate::tcp::sequence::TcpSeq;
use crate::tcp::timers;
use crate::tcp::timers::{
    timer_bit, TcpTimerState, TCP_DELAYED_ACK_TICKS, TCP_TIMER_DELAYED_ACK, TCP_TIMER_PERSIST,
    TCP_TIMER_RACK, TCP_TIMER_RETRANSMIT, TCP_TIMER_TIME_WAIT, TCP_TIMER_TLP, TCP_TIME_WAIT_TICKS,
    TIMER_MASK_BITS,
};
use crate::tcp::timestamps::TcpTimestampState;
use crate::tcp::types;
use crate::tcp::types::{
    DataWorkerId, IpEcnCodepoint, SocketAddress, TcpCapabilities, TcpCloseReason, TcpConnectionId,
    TcpFastOpenCookie, TcpNegotiatedOptions, TcpPacket, TcpSackList, TcpSegment, TcpSegmentFlags,
    TcpState, TcpTimestampOption,
};
use crate::tcp::TcpInputNext;
use crate::time::{Duration, Instant};

verus! {

impl TcpConnectionError {
    /// The error in words.
    pub fn message(self) -> (r: &'static str)
        ensures
            r@ == (match self {
                TcpConnectionError::OpenReplyOutsideSynSent => {
                    "tcp open reply requires syn-sent state"
                },
                TcpConnectionError::FinalAckOutsideSynRcvd => {
                    "tcp final ack requires syn-rcvd state"
                },
                TcpConnectionError::SynSentWithoutLocalAddress => {
                    "syn-sent tcp connection missing local address"
                },
                TcpConnectionError::TransmitOutsideEstablished => {
                    "tcp tx segment requires established state"
                },
                TcpConnectionError::EstablishedWithoutLocalAddress => {
                    "established tcp connection missing local address"
                },
                TcpConnectionError::CommitOutsideEstablished => {
                    "tcp tx commit requires established state"
                },
                TcpConnectionError::PayloadTooLong => { "tcp payload length exceeds u32" },
                TcpConnectionError::ReceiveOutsideEstablished => {
                    "tcp established receive requires established state"
                },
            })@,
    {
        match self {
            TcpConnectionError::OpenReplyOutsideSynSent => "tcp open reply requires syn-sent state",
            TcpConnectionError::FinalAckOutsideSynRcvd => "tcp final ack requires syn-rcvd state",
            TcpConnectionError::SynSentWithoutLocalAddress => {
                "syn-sent tcp connection missing local address"
            },
            TcpConnectionError::TransmitOutsideEstablished => {
                "tcp tx segment requires established state"
            },
            TcpConnectionError::EstablishedWithoutLocalAddress => {
                "established tcp connection missing local address"
            },
            TcpConnectionError::CommitOutsideEstablished => {
                "tcp tx commit requires established state"
            },
            TcpConnectionError::PayloadTooLong => "tcp payload length exceeds u32",
            TcpConnectionError::ReceiveOutsideEstablished => {
                "tcp established receive requires established state"
            },
        }
    }
}

fn timer_ticks_of(span: Duration) -> (r: u64)
    ensures
        r == connection_model::ticks_of(span),
{
    let ticks: u128 = span.nanos / TCP_TICK_NANOS;
    if ticks == 0 {
        1
    } else if ticks > u64::MAX as u128 {
        u64::MAX
    } else {
        ticks as u64
    }
}

fn opening_flags(ecn: bool) -> (r: TcpSegmentFlags)
    ensures
        r == connection_model::opening_flags(ecn),
{
    TcpSegmentFlags { syn: true, ece: ecn, cwr: ecn, ..TcpSegmentFlags::empty() }
}

fn syn_ack_flags(ecn: bool) -> (r: TcpSegmentFlags)
    ensures
        r == connection_model::syn_ack(ecn),
{
    TcpSegmentFlags { syn: true, ack: true, ece: ecn, ..TcpSegmentFlags::empty() }
}

impl<C: CongestionController> TcpConnection<C> {
    pub fn new(
        connection_id: Option<TcpConnectionId>,
        owner_worker: DataWorkerId,
        local_port: u16,
        local: Option<SocketAddress>,
        remote: SocketAddress,
    ) -> (r: Self)
        ensures
            r.well_formed(),
            r.recovery@ == recovery_model::initial_recovery(),
            r == TcpConnection::<C>::fresh(
                connection_id,
                owner_worker,
                local_port,
                local,
                remote,
                r.recovery,
            ),
    {
        TcpConnection {
            state: TcpState::Closed,
            connection_id,
            owner_worker,
            local_port,
            local,
            remote,
            close_reason: None,
            iss: TcpSeq::new(0),
            irs: TcpSeq::new(0),
            snd_una: TcpSeq::new(0),
            snd_nxt: TcpSeq::new(0),
            snd_wnd: DEFAULT_TCP_WINDOW,
            rcv_nxt: TcpSeq::new(0),
            rcv_wnd: DEFAULT_TCP_WINDOW,
            fin_sequence: None,
            options: TcpConnectionOptionState::default(),
            fast_open_cookie: None,
            fast_open_syn_payload_len: 0,
            retransmit_timeout: TcpRetransmitTimeoutState::new(),
            congestion: C::new(DEFAULT_TCP_MAX_SEGMENT_SIZE),
            recovery: TcpRecoveryState::new(),
            sack: TcpSackState::new(),
            ecn: TcpEcnState::new(),
            timers: TcpTimerState::new(),
            timestamps: TcpTimestampState::new(),
            tx_intent: None,
        }
    }

    // Timers

    pub fn timer_is_supported(&self, timer_id: u32) -> (r: bool)
        ensures
            r == connection_model::timer_applies(self.state, timer_id),
    {
        match self.state {
            TcpState::SynSent => timer_id == TCP_TIMER_RETRANSMIT,
            TcpState::Established => timer_id == TCP_TIMER_RACK || timer_id == TCP_TIMER_TLP
                || timer_id == TCP_TIMER_DELAYED_ACK || timer_id == TCP_TIMER_PERSIST,
            TcpState::TimeWait => timer_id == TCP_TIMER_TIME_WAIT,
            _ => false,
        }
    }

    pub fn timer_is_active(&self, timer_id: u32) -> (r: bool)
        requires
            timer_id < TIMER_MASK_BITS,
        ensures
            r == timers::holds(self.timers.active, timer_id),
    {
        self.timers.is_active(timer_id)
    }

    pub fn timer_is_pending(&self, timer_id: u32) -> (r: bool)
        requires
            timer_id < TIMER_MASK_BITS,
        ensures
            r == timers::holds(self.timers.pending, timer_id),
    {
        self.timers.is_pending(timer_id)
    }

    pub fn timer_set(&mut self, timer_id: u32)
        requires
            timer_id < TIMER_MASK_BITS,
        ensures
            *final(self) == old(self).timer_started(timer_id),
    {
        self.timers.set(timer_id);
    }

    pub fn timer_reset(&mut self, timer_id: u32)
        requires
            timer_id < TIMER_MASK_BITS,
        ensures
            *final(self) == old(self).timer_stopped(timer_id),
    {
        self.timers.reset(timer_id);
    }

    pub fn timer_expire(&mut self, timer_id: u32)
        requires
            timer_id < TIMER_MASK_BITS,
        ensures
            *final(self) == (TcpConnection {
                timers: old(self).timers.fired(timer_id),
                ..*old(self)
            }),
    {
        self.timers.expire(timer_id);
    }

    pub fn timer_dispatch_pending(&mut self, timer_id: u32) -> (r: bool)
        requires
            timer_id < TIMER_MASK_BITS,
        ensures
            *final(self) == (if timers::holds(old(self).timers.pending, timer_id) {
                TcpConnection { timers: old(self).timers.dispatched(timer_id), ..*old(self) }
            } else {
                *old(self)
            }),
            r == (timers::holds(old(self).timers.pending, timer_id) && !timers::holds(
                old(self).timers.active,
                timer_id,
            )),
    {
        self.timers.dispatch_pending(timer_id)
    }

    /// The ticks until a timer is to fire, where it applies.
    pub fn timer_ticks(&self, timer_id: u32, now: Instant) -> (r: Option<u64>)
        requires
            self.well_formed(),
        ensures
            r == self.ticks_until(timer_id, now),
    {
        if !self.timer_is_supported(timer_id) {
            return None;
        }
        if timer_id == TCP_TIMER_RACK {
            match self.recovery.rack_timeout(now) {
                Some(span) => Some(timer_ticks_of(span)),
                None => None,
            }
        } else if timer_id == TCP_TIMER_TLP {
            match self.recovery.tlp_timeout(
                self.retransmit_timeout.srtt,
                self.retransmit_timeout.rto,
            ) {
                Some(span) => Some(timer_ticks_of(span)),
                None => None,
            }
        } else if timer_id == TCP_TIMER_DELAYED_ACK {
            Some(TCP_DELAYED_ACK_TICKS)
        } else if timer_id == TCP_TIMER_TIME_WAIT {
            Some(TCP_TIME_WAIT_TICKS)
        } else {
            Some(timer_ticks_of(self.retransmit_timeout.rto))
        }
    }

    fn has_rack_deadline(&self, now: Instant) -> (r: bool)
        requires
            self.recovery.well_formed(),
        ensures
            r == self.rack_waits(),
    {
        self.recovery.rack_timeout(now).is_some()
    }

    fn has_probe_timeout(&self) -> (r: bool)
        ensures
            r == self.probe_waits(),
    {
        self.recovery.tlp_timeout(
            self.retransmit_timeout.srtt,
            self.retransmit_timeout.rto,
        ).is_some()
    }

    /// Starts or stops the recovery timers, and returns the mask of those that
    /// run.
    fn refresh_recovery_timers(&mut self, now: Instant) -> (r: u16)
        requires
            old(self).recovery.well_formed(),
        ensures
            *final(self) == old(self).recovery_timers_refreshed(),
            r == old(self).recovery_timer_mask(),
    {
        let mut timers: u16 = 0;
        proof {
            let rack = timers::bit_of(TCP_TIMER_RACK);
            let tlp = timers::bit_of(TCP_TIMER_TLP);
            assert(0u16 | rack == rack) by (bit_vector);
            assert(0u16 | tlp == tlp) by (bit_vector);
            assert(rack | 0u16 == rack) by (bit_vector);
            assert(0u16 | 0u16 == 0u16) by (bit_vector);
        }
        if self.has_rack_deadline(now) {
            self.timer_set(TCP_TIMER_RACK);
            timers = timers | timer_bit(TCP_TIMER_RACK);
        } else {
            self.timer_reset(TCP_TIMER_RACK);
        }
        if self.has_probe_timeout() {
            self.timer_set(TCP_TIMER_TLP);
            timers = timers | timer_bit(TCP_TIMER_TLP);
        } else {
            self.timer_reset(TCP_TIMER_TLP);
        }
        timers
    }

    // What a connection is

    pub fn state(&self) -> (r: TcpState)
        ensures
            r == self.state,
    {
        self.state
    }

    pub fn connection_id(&self) -> (r: Option<TcpConnectionId>)
        ensures
            r == self.connection_id,
    {
        self.connection_id
    }

    pub fn owner_worker(&self) -> (r: DataWorkerId)
        ensures
            r == self.owner_worker,
    {
        self.owner_worker
    }

    pub fn local_port(&self) -> (r: u16)
        ensures
            r == self.local_port,
    {
        self.local_port
    }

    pub fn local(&self) -> (r: Option<SocketAddress>)
        ensures
            r == self.local,
    {
        self.local
    }

    pub fn remote(&self) -> (r: SocketAddress)
        ensures
            r == self.remote,
    {
        self.remote
    }

    pub fn iss(&self) -> (r: u32)
        ensures
            r == self.iss.value,
    {
        self.iss.raw()
    }

    pub fn irs(&self) -> (r: u32)
        ensures
            r == self.irs.value,
    {
        self.irs.raw()
    }

    pub fn snd_una(&self) -> (r: u32)
        ensures
            r == self.snd_una.value,
    {
        self.snd_una.raw()
    }

    pub fn snd_nxt(&self) -> (r: u32)
        ensures
            r == self.snd_nxt.value,
    {
        self.snd_nxt.raw()
    }

    pub fn snd_wnd(&self) -> (r: u32)
        ensures
            r == self.snd_wnd,
    {
        self.snd_wnd
    }

    pub fn rcv_nxt(&self) -> (r: u32)
        ensures
            r == self.rcv_nxt.value,
    {
        self.rcv_nxt.raw()
    }

    pub fn rcv_wnd(&self) -> (r: u32)
        ensures
            r == self.rcv_wnd,
    {
        self.rcv_wnd
    }

    pub fn close_reason(&self) -> (r: Option<TcpCloseReason>)
        ensures
            r == self.close_reason,
    {
        self.close_reason
    }

    pub fn local_capabilities(&self) -> (r: TcpCapabilities)
        ensures
            r == self.options.local_capabilities,
    {
        self.options.local_capabilities()
    }

    pub fn remote_capabilities(&self) -> (r: Option<TcpCapabilities>)
        ensures
            r == self.options.remote_capabilities,
    {
        self.options.remote_capabilities()
    }

    pub fn negotiated_options(&self) -> (r: TcpNegotiatedOptions)
        ensures
            r == self.options.negotiated,
    {
        self.options.negotiated_options()
    }

    pub fn effective_send_window_scale(&self) -> (r: u8)
        ensures
            r == connection_options::applied_scale(self.options.negotiated.send_window_scale),
    {
        self.options.effective_send_window_scale()
    }

    pub fn effective_receive_window_scale(&self) -> (r: u8)
        ensures
            r == connection_options::applied_scale(self.options.negotiated.receive_window_scale),
    {
        self.options.effective_receive_window_scale()
    }

    pub fn effective_send_window(&self, advertised_window: u32) -> (r: u32)
        ensures
            r == self.options.send_window(advertised_window),
    {
        self.options.effective_send_window(advertised_window)
    }

    pub fn advertised_receive_window(&self, receive_window: u32) -> (r: u16)
        ensures
            r == self.options.window_to_advertise(receive_window),
    {
        self.options.advertised_receive_window(receive_window)
    }

    /// The largest payload of one segment.
    pub fn output_payload_len(&self) -> (r: usize)
        ensures
            r == self.segment_room(),
    {
        tcp_effective_output_payload_len(self.options.negotiated.send_max_segment_size)
    }

    /// The payload that a sender aims at.
    pub fn send_goal_size(&self) -> (r: usize)
        ensures
            r == self.segment_room(),
    {
        self.output_payload_len()
    }

    pub fn congestion(&self) -> (r: &C)
        ensures
            *r == self.congestion,
    {
        &self.congestion
    }

    pub fn retransmit_timeout(&self) -> (r: &TcpRetransmitTimeoutState)
        ensures
            *r == self.retransmit_timeout,
    {
        &self.retransmit_timeout
    }

    pub fn recovery(&self) -> (r: &TcpRecoveryState)
        ensures
            *r == self.recovery,
    {
        &self.recovery
    }

    /// The stage that handles this connection's segments.
    pub fn next_node(&self) -> (r: TcpInputNext)
        ensures
            r == connection_model::stage_of(self.state),
    {
        match self.state {
            TcpState::Closed => TcpInputNext::Drop,
            TcpState::Listen => TcpInputNext::Listen,
            TcpState::SynSent => TcpInputNext::SynSent,
            TcpState::Established => TcpInputNext::Established,
            TcpState::SynRcvd
            | TcpState::FinWait1
            | TcpState::FinWait2
            | TcpState::CloseWait
            | TcpState::Closing
            | TcpState::LastAck
            | TcpState::TimeWait => TcpInputNext::RcvProcess,
        }
    }

    // Options

    fn tell_controller(&mut self, negotiated: TcpNegotiatedOptions)
        requires
            old(self).congestion.well_formed(),
            old(self).options.negotiated == negotiated,
        ensures
            final(self).congestion.well_formed(),
            *final(self) == (TcpConnection {
                congestion: old(self).controller_for(old(self).options),
                ..*old(self)
            }),
    {
        if let Some(size) = negotiated.send_max_segment_size {
            if size != 0 {
                self.congestion.on_mtu_update(size as u32);
            }
        }
    }

    pub fn set_local_capabilities(&mut self, capabilities: TcpCapabilities) -> (r:
        TcpNegotiatedOptions)
        requires
            old(self).well_formed(),
        ensures
            final(self).well_formed(),
            *final(self) == old(self).with_local_capabilities(capabilities),
            r == final(self).options.negotiated,
    {
        let negotiated = self.options.set_local_capabilities(capabilities);
        self.tell_controller(negotiated);
        negotiated
    }

    pub fn apply_peer_handshake_capabilities(&mut self, capabilities: TcpCapabilities) -> (r:
        TcpNegotiatedOptions)
        requires
            old(self).well_formed(),
        ensures
            final(self).well_formed(),
            *final(self) == old(self).with_peer_capabilities(capabilities),
            r == final(self).options.negotiated,
    {
        let negotiated = self.options.apply_peer_handshake_capabilities(capabilities);
        self.tell_controller(negotiated);
        negotiated
    }

    /// Keeps a cookie for the next open, cut to its longest length; none where
    /// it is empty.
    pub fn set_fast_open_cookie(&mut self, cookie: Option<&[u8]>)
        ensures
            *final(self) == (TcpConnection {
                fast_open_cookie: final(self).fast_open_cookie,
                ..*old(self)
            }),
            match cookie {
                Some(content) if content@.len() > 0 => {
                    &&& final(self).fast_open_cookie is Some
                    &&& final(self).fast_open_cookie->0.len == vstd::math::min(
                        content@.len() as int,
                        types::TCP_FAST_OPEN_COOKIE_MAX as int,
                    )
                    &&& final(self).fast_open_cookie->0.bytes@ == types::padded_cookie(content@)
                },
                _ => final(self).fast_open_cookie is None,
            },
    {
        self.fast_open_cookie = match cookie {
            Some(content) => TcpFastOpenCookie::from_slice(content),
            None => None,
        };
    }
}

impl<C: CongestionController> TcpConnection<C> {
    // Timestamps and congestion marks

    /// The timestamp of the next segment, where timestamps are offered or agreed on.
    pub fn next_local_timestamp(&mut self, now: Instant) -> (r: Option<TcpTimestampOption>)
        ensures
            *final(self) == old(self).stamped(now),
            r == old(self).stamp(now),
    {
        if !self.options.negotiated.timestamps && !self.options.local_capabilities.timestamps {
            return None;
        }
        Some(self.timestamps.next_stamp(now))
    }

    fn timestamp_rtt_sample(&mut self, packet: &TcpPacket, now: Instant) -> (r: Option<Duration>)
        ensures
            *final(self) == (TcpConnection {
                timestamps: old(self).echo_taken(*packet, now),
                ..*old(self)
            }),
            r == old(self).echoed_round_trip(*packet, now),
    {
        if !self.options.negotiated.timestamps {
            return None;
        }
        match packet.timestamp {
            Some(timestamp) => self.timestamps.observe_echo(timestamp.tsecr, now),
            None => None,
        }
    }

    /// Checks a segment's timestamp and takes it in; `false` refuses the segment.
    pub fn observe_inbound_timestamp(&mut self, packet: &TcpPacket, now: Instant) -> (r: bool)
        ensures
            *final(self) == old(self).timestamp_taken(*packet, now),
            r == old(self).timestamp_passes(*packet, now),
    {
        if packet.flags.rst {
            return true;
        }
        if !self.options.negotiated.timestamps {
            return true;
        }
        let Some(timestamp) = packet.timestamp else {
            return false;
        };
        let current = packet.flags.syn || (self.rcv_nxt.is_at_or_after(packet.sequence)
            && packet.end().is_at_or_after(self.rcv_nxt));
        self.timestamps.observe_inbound(timestamp.tsval, current, now)
    }

    /// Whether acknowledgments echo a congestion mark.
    pub fn pending_ece_ack(&self) -> (r: bool)
        ensures
            r == self.ecn.ece_ack,
    {
        self.ecn.ece_ack
    }

    /// Whether the peer reported congestion that was not acted on yet.
    pub fn pending_ecn_ce(&self) -> (r: bool)
        ensures
            r == self.ecn.ecn_ce,
    {
        self.ecn.ecn_ce
    }

    pub fn observe_peer_ecn_feedback(&mut self, packet: &TcpPacket)
        ensures
            *final(self) == old(self).ecn_observed(*packet),
    {
        self.ecn.observe(self.options.negotiated, packet.flags, packet.ip_ecn);
    }

    pub fn output_flags(&self, flags: TcpSegmentFlags) -> (r: TcpSegmentFlags)
        ensures
            r == self.flags_out(flags),
    {
        self.ecn.output_flags(self.options.negotiated, flags)
    }

    fn output_ip_ecn(&self, payload_len: usize, retransmit: bool) -> (r: Option<IpEcnCodepoint>)
        ensures
            r == self.ip_ecn_out(payload_len, retransmit),
    {
        if !self.options.negotiated.ecn || payload_len == 0 || retransmit {
            return None;
        }
        Some(IpEcnCodepoint::Ect0)
    }

    // Control segments

    fn output_sequence(&self, flags: TcpSegmentFlags) -> (r: u32)
        ensures
            r == self.control_sequence(flags),
    {
        if flags.syn && self.iss.raw() != 0 {
            self.iss.raw()
        } else if self.snd_nxt.raw() != 0 {
            self.snd_nxt.raw()
        } else if self.snd_una.raw() != 0 {
            self.snd_una.raw()
        } else if self.iss.raw() != 0 {
            self.iss.advance(1).raw()
        } else {
            1
        }
    }

    fn output_acknowledgment(&self, flags: TcpSegmentFlags) -> (r: u32)
        ensures
            r == self.control_acknowledgment(flags),
    {
        if !flags.ack {
            return 0;
        }
        if self.rcv_nxt.raw() != 0 {
            self.rcv_nxt.raw()
        } else if self.irs.raw() != 0 {
            self.irs.advance(1).raw()
        } else {
            1
        }
    }

    /// The control segment with `flags` that answers `packet`.
    pub fn control_segment(
        &mut self,
        packet: &TcpPacket,
        flags: TcpSegmentFlags,
        reset_sequence: Option<u32>,
        now: Instant,
    ) -> (r: TcpSegment)
        ensures
            *final(self) == old(self).after_control(flags, now),
            r == old(self).control(*packet, flags, reset_sequence, now),
    {
        let flags = self.output_flags(flags);
        let sack_blocks = self.sack.take_output(self.options.negotiated.sack, flags);
        let sequence: u32 = match reset_sequence {
            Some(sequence) => sequence,
            None => self.output_sequence(flags),
        };
        let timestamp = self.next_local_timestamp(now);
        TcpSegment {
            local: packet.local,
            remote: packet.remote,
            sequence,
            acknowledgment: self.output_acknowledgment(flags),
            advertised_window: self.advertised_receive_window(self.rcv_wnd),
            flags,
            capabilities: self.options.local_capabilities,
            sack_blocks,
            timestamp,
            fast_open_cookie: if flags.syn {
                self.fast_open_cookie
            } else {
                None
            },
            ip_ecn: None,
            payload_len: 0,
        }
    }

    // Opening

    /// Starts an active open.
    pub fn connect_state(&mut self, initial_sequence: u32)
        ensures
            *final(self) == old(self).connecting(initial_sequence),
    {
        self.close_reason = None;
        self.iss = TcpSeq::new(initial_sequence);
        self.snd_una = self.iss;
        self.snd_nxt = self.iss.advance(1);
        self.fast_open_syn_payload_len = 0;
        self.state = TcpState::SynSent;
    }

    /// Accepts a SYN, of whose payload `accepted_payload_len` bytes were taken,
    /// and answers it. What is no plain SYN is ignored.
    pub fn receive_syn(&mut self, packet: &TcpPacket, accepted_payload_len: u32, now: Instant) -> (r:
        Result<Option<TcpSegment>, TcpConnectionError>)
        requires
            old(self).well_formed(),
        ensures
            final(self).well_formed(),
            old(self).syn_received(*final(self), r, *packet, accepted_payload_len, now),
    {
        if !packet.flags.syn || packet.flags.ack || packet.flags.rst {
            return Ok(None);
        }
        let _ = self.apply_peer_handshake_capabilities(packet.capabilities);
        let _ = self.observe_inbound_timestamp(packet, now);
        if self.iss.raw() == 0 {
            self.iss = TcpSeq::new(1);
        }
        self.state = TcpState::SynRcvd;
        self.irs = packet.sequence;
        self.snd_una = self.iss;
        self.snd_nxt = self.iss.advance(1);
        self.snd_wnd = self.effective_send_window(packet.advertised_window as u32);
        self.rcv_nxt = packet.sequence.advance(1).advance(accepted_payload_len);
        let flags = syn_ack_flags(self.options.negotiated.ecn);
        Ok(Some(self.control_segment(packet, flags, None, now)))
    }

    fn accepts_ack(&self, acknowledgment: TcpSeq) -> (r: bool)
        ensures
            r == self.accepts(acknowledgment),
    {
        acknowledgment.is_at_or_after(self.snd_una) && acknowledgment.is_at_or_before(self.snd_nxt)
    }

    /// Takes in the reply to our SYN, and answers it.
    pub fn receive_open_reply(&mut self, packet: &TcpPacket, now: Instant) -> (r: Result<
        Option<TcpSegment>,
        TcpConnectionError,
    >)
        requires
            old(self).well_formed(),
        ensures
            final(self).well_formed(),
            old(self).open_reply_received(*final(self), r, *packet, now),
    {
        if self.state != TcpState::SynSent {
            return Err(TcpConnectionError::OpenReplyOutsideSynSent);
        }
        if packet.flags.ack {
            if let Some(acknowledgment) = packet.acknowledgment {
                if acknowledgment.is_at_or_before(self.iss) || acknowledgment.is_after(
                    self.snd_nxt,
                ) {
                    if packet.flags.rst {
                        return Ok(None);
                    }
                    return Ok(
                        Some(
                            self.control_segment(
                                packet,
                                TcpSegmentFlags::rst(),
                                Some(acknowledgment.raw()),
                                now,
                            ),
                        ),
                    );
                }
            }
        }
        if packet.flags.rst {
            if let Some(acknowledgment) = packet.acknowledgment {
                if self.accepts_ack(acknowledgment) {
                    self.close_reason = Some(TcpCloseReason::RemoteReset);
                    self.state = TcpState::Closed;
                    self.timer_reset(TCP_TIMER_RETRANSMIT);
                }
            }
            return Ok(None);
        }
        if !packet.flags.syn {
            return Ok(None);
        }
        let _ = self.apply_peer_handshake_capabilities(packet.capabilities);
        if !self.observe_inbound_timestamp(packet, now) {
            return Ok(None);
        }
        self.irs = packet.sequence;
        self.snd_wnd = self.effective_send_window(packet.advertised_window as u32);
        self.rcv_nxt = packet.sequence.advance(1);
        if let Some(cookie) = packet.fast_open_cookie {
            if cookie.len != 0 {
                self.fast_open_cookie = Some(cookie);
            }
        }
        if packet.flags.ack {
            if let Some(acknowledgment) = packet.acknowledgment {
                if !self.accepts_ack(acknowledgment) {
                    return Ok(None);
                }
                self.snd_una = acknowledgment;
                self.state = TcpState::Established;
                self.timer_reset(TCP_TIMER_RETRANSMIT);
                self.rcv_nxt = self.rcv_nxt.advance(packet.payload_len);
                return Ok(Some(self.control_segment(packet, TcpSegmentFlags::ack(), None, now)));
            }
        }
        self.state = TcpState::SynRcvd;
        let flags = syn_ack_flags(self.options.negotiated.ecn);
        Ok(Some(self.control_segment(packet, flags, None, now)))
    }

    /// Takes in the last segment of a handshake that the peer opened. Its payload
    /// is left to whoever hands it to the session.
    pub fn receive_final_ack(&mut self, packet: &TcpPacket, now: Instant) -> (r: Result<
        Option<TcpSegment>,
        TcpConnectionError,
    >)
        requires
            old(self).well_formed(),
        ensures
            final(self).well_formed(),
            old(self).final_ack_received(*final(self), r, *packet, now),
    {
        if self.state != TcpState::SynRcvd {
            return Err(TcpConnectionError::FinalAckOutsideSynRcvd);
        }
        if !self.observe_inbound_timestamp(packet, now) {
            return Ok(None);
        }
        if packet.flags.rst {
            self.close_reason = Some(TcpCloseReason::RemoteReset);
            self.state = TcpState::Closed;
            return Ok(None);
        }
        let Some(acknowledgment) = packet.acknowledgment else {
            return Ok(None);
        };
        if !packet.flags.ack || !self.accepts_ack(acknowledgment) {
            return Ok(
                Some(
                    self.control_segment(
                        packet,
                        TcpSegmentFlags::rst(),
                        Some(acknowledgment.raw()),
                        now,
                    ),
                ),
            );
        }
        self.apply_ack(acknowledgment, packet.advertised_window);
        self.state = TcpState::Established;
        self.timer_reset(TCP_TIMER_RETRANSMIT);
        Ok(None)
    }

    // Acknowledgments

    /// Moves the left edge and the window as an acknowledgment says.
    pub fn apply_ack(&mut self, acknowledgment: TcpSeq, advertised_window: u16)
        ensures
            *final(self) == old(self).ack_applied(acknowledgment, advertised_window),
    {
        if self.accepts_ack(acknowledgment) {
            self.snd_una = acknowledgment;
        }
        self.snd_wnd = self.effective_send_window(advertised_window as u32);
    }

    fn recovery_ack_at(&self, acknowledgment: TcpSeq, now: Instant) -> (r: TcpRecoveryAck)
        requires
            self.well_formed(),
        ensures
            r == self.recovery_ack(acknowledgment, now),
            r.reordering_window.nanos <= retransmit_timeout::MAX_ROUND_TRIP_NANOS,
    {
        let quarter: u128 = match self.retransmit_timeout.srtt {
            Some(srtt) => srtt.nanos / 4,
            None => 0,
        };
        TcpRecoveryAck {
            acknowledgment,
            now,
            app_limited: false,
            ecn_ce_count: self.ecn.pending_ce_feedback,
            reordering_window: Duration {
                nanos: if quarter >= TCP_MIN_REORDERING_WINDOW {
                    quarter
                } else {
                    TCP_MIN_REORDERING_WINDOW
                },
            },
        }
    }

    /// Lets loss recovery and the controller see an acknowledgment, and returns
    /// the round trip that it tells of.
    pub fn observe_ack_progress(
        &mut self,
        packet: &TcpPacket,
        acknowledgment: TcpSeq,
        sack_blocks: &[TcpSackBlock],
        now: Instant,
    ) -> (r: Option<Duration>)
        requires
            old(self).well_formed(),
            connection_model::readable(now),
        ensures
            final(self).well_formed(),
            old(self).recovery_moved(
                final(self).recovery@,
                final(self).congestion,
                acknowledgment,
                sack_blocks@,
                now,
            ),
            *final(self) == old(self).progressed(
                final(self).recovery,
                final(self).congestion,
                *packet,
                acknowledgment,
                sack_blocks@,
                now,
            ),
            r == old(self).round_trip_told(*packet, acknowledgment, sack_blocks@, now),
    {
        if !self.accepts_ack(acknowledgment) {
            return None;
        }
        let advanced = acknowledgment.is_after(self.snd_una);
        let recovery_ack = self.recovery_ack_at(acknowledgment, now);
        let mut latest_rtt: Option<Duration> = None;
        if sack_blocks.len() != 0 {
            latest_rtt =
            self.recovery.on_sack_blocks(recovery_ack, sack_blocks, &mut self.congestion);
        } else if advanced {
            latest_rtt = self.recovery.on_ack(recovery_ack, &mut self.congestion);
        }
        proof {
            if self.concerns_recovery(acknowledgment, sack_blocks@) {
                lemma_round_trip_bound(
                    old(self).ranges_taken(acknowledgment, sack_blocks@),
                    now,
                );
            }
        }
        if advanced && latest_rtt.is_none() {
            latest_rtt = self.timestamp_rtt_sample(packet, now);
        }
        if advanced {
            if let Some(rtt) = latest_rtt {
                proof {
                    retransmit_timeout::timeout_state_stays_well_formed(
                        self.retransmit_timeout,
                        rtt,
                    );
                }
                let _ = self.retransmit_timeout.observe_ack_sample(rtt);
                self.ecn.ecn_ce = false;
                self.ecn.pending_ce_feedback = 0;
            }
        }
        latest_rtt
    }

    /// Takes in an acknowledgment, and returns the mask of the recovery timers
    /// that are to run.
    pub fn receive_ack(
        &mut self,
        packet: &TcpPacket,
        acknowledgment: TcpSeq,
        advertised_window: u16,
        sack_blocks: &[TcpSackBlock],
        now: Instant,
    ) -> (r: u16)
        requires
            old(self).well_formed(),
            connection_model::readable(now),
        ensures
            final(self).well_formed(),
            old(self).recovery_moved(
                final(self).recovery@,
                final(self).congestion,
                acknowledgment,
                sack_blocks@,
                now,
            ),
            *final(self) == old(self).acknowledged(
                final(self).recovery,
                final(self).congestion,
                *packet,
                acknowledgment,
                advertised_window,
                sack_blocks@,
                now,
            ),
            r == final(self).recovery_timer_mask(),
    {
        let _ = self.observe_ack_progress(packet, acknowledgment, sack_blocks, now);
        self.apply_ack(acknowledgment, advertised_window);
        self.timer_reset(TCP_TIMER_DELAYED_ACK);
        if self.snd_wnd == 0 && self.recovery.has_unacked_data() {
            self.timer_set(TCP_TIMER_PERSIST);
        } else {
            self.timer_reset(TCP_TIMER_PERSIST);
        }
        self.refresh_recovery_timers(now)
    }

    /// How much was acknowledged since the left edge stood at `previous_snd_una`.
    /// A FIN does not count, nor a SYN that carried data; one without data does.
    pub fn take_acked_tx_len(&mut self, previous_snd_una: u32) -> (r: u32)
        ensures
            r == old(self).payload_acked(TcpSeq { value: previous_snd_una }),
            *final(self) == (TcpConnection {
                fast_open_syn_payload_len: (old(self).fast_open_syn_payload_len - vstd::math::min(
                    old(self).fast_open_syn_payload_len as int,
                    r as int,
                )) as u32,
                ..*old(self)
            }),
    {
        let previous_snd_una = TcpSeq::new(previous_snd_una);
        let acked: u32 = previous_snd_una.distance_to(self.snd_una);
        if acked == 0 {
            return 0;
        }
        let mut control: u32 = 0;
        if self.fast_open_syn_payload_len != 0 && previous_snd_una == self.iss {
            control = control + 1;
        }
        if let Some(fin) = self.fin_sequence {
            if self.snd_una == fin.advance(1) {
                control = control + 1;
            }
        }
        let payload_acked: u32 = acked.saturating_sub(control);
        self.fast_open_syn_payload_len =
        self.fast_open_syn_payload_len.saturating_sub(payload_acked);
        payload_acked
    }
}

/// Closing steps leave loss recovery and the controller alone.
proof fn lemma_close_step_keeps_recovery<C: CongestionController>(
    connection: TcpConnection<C>,
    packet: TcpPacket,
    now: Instant,
)
    ensures
        connection.close_step(packet, now).0.recovery == connection.recovery,
        connection.close_step(packet, now).0.congestion == connection.congestion,
{
}

/// A round trip is no longer than the clock reading at its end.
proof fn lemma_round_trip_bound(taken: Seq<TcpSentSample>, now: Instant)
    ensures
        recovery_model::latest_round_trip(taken, now) matches Some(rtt) ==> rtt.nanos <= now.nanos,
    decreases taken.len(),
{
    if taken.len() > 0 {
        lemma_round_trip_bound(taken.drop_last(), now);
    }
}

impl<C: CongestionController> TcpConnection<C> {
    // Receiving

    fn take_fin(&mut self, packet: &TcpPacket, next: TcpState, now: Instant) -> (r: Option<
        TcpSegment,
    >)
        ensures
            *final(self) == old(self).fin_taken(*packet, next, now).0,
            r == old(self).fin_taken(*packet, next, now).1,
    {
        self.rcv_nxt = self.rcv_nxt.advance(1);
        self.state = next;
        if next == TcpState::TimeWait {
            self.timer_set(TCP_TIMER_TIME_WAIT);
        }
        Some(self.control_segment(packet, TcpSegmentFlags::ack(), None, now))
    }

    fn receive_packet_ack(&mut self, packet: &TcpPacket, now: Instant) -> (r: u16)
        requires
            old(self).well_formed(),
            connection_model::readable(now),
        ensures
            final(self).well_formed(),
            old(self).packet_moves_recovery(
                final(self).recovery,
                final(self).congestion,
                *packet,
                now,
            ),
            *final(self) == old(self).packet_acknowledged(
                final(self).recovery,
                final(self).congestion,
                *packet,
                now,
            ),
            r == (if packet.acknowledges() is Some {
                final(self).recovery_timer_mask()
            } else {
                0
            }),
    {
        if packet.flags.ack {
            if let Some(acknowledgment) = packet.acknowledgment {
                return self.receive_ack(
                    packet,
                    acknowledgment,
                    packet.advertised_window,
                    packet.sack_blocks.as_slice(),
                    now,
                );
            }
        }
        0
    }

    /// Takes in a segment of an established connection, all but its payload.
    /// Returns the answer to a FIN and the mask of the recovery timers that are
    /// to run.
    pub fn receive_established(&mut self, packet: &TcpPacket, now: Instant) -> (r: Result<
        (Option<TcpSegment>, u16),
        TcpConnectionError,
    >)
        requires
            old(self).well_formed(),
            connection_model::readable(now),
        ensures
            final(self).well_formed(),
            old(self).established_received(*final(self), r, *packet, now),
    {
        if self.state != TcpState::Established {
            return Err(TcpConnectionError::ReceiveOutsideEstablished);
        }
        if !self.observe_inbound_timestamp(packet, now) {
            return Ok((None, 0));
        }
        self.observe_peer_ecn_feedback(packet);
        let timers: u16 = self.receive_packet_ack(packet, now);
        if packet.flags.fin && packet.sequence == self.rcv_nxt && packet.payload_len == 0 {
            let reply = self.take_fin(packet, TcpState::CloseWait, now);
            return Ok((reply, timers));
        }
        Ok((None, timers))
    }

    fn acknowledges_all(&self, packet: &TcpPacket) -> (r: bool)
        ensures
            r == self.all_acknowledged(*packet),
    {
        match packet.acknowledgment {
            Some(acknowledgment) => packet.flags.ack && self.accepts_ack(acknowledgment)
                && acknowledgment == self.snd_nxt,
            None => false,
        }
    }

    fn step_close(&mut self, packet: &TcpPacket, now: Instant) -> (r: Option<TcpSegment>)
        requires
            old(self).well_formed(),
        ensures
            final(self).well_formed(),
            *final(self) == old(self).close_step(*packet, now).0,
            r == old(self).close_step(*packet, now).1,
    {
        match self.state {
            TcpState::SynRcvd => {
                let reply = match self.receive_final_ack(packet, now) {
                    Ok(reply) => reply,
                    Err(_) => None,
                };
                if self.state == TcpState::Established && packet.payload_len != 0 {
                    self.rcv_nxt = packet.sequence.advance(packet.payload_len);
                    return Some(
                        self.control_segment(packet, TcpSegmentFlags::ack(), None, now),
                    );
                }
                reply
            },
            TcpState::FinWait1 => {
                if packet.flags.fin && packet.sequence == self.rcv_nxt {
                    let next = if self.acknowledges_all(packet) {
                        TcpState::TimeWait
                    } else {
                        TcpState::Closing
                    };
                    return self.take_fin(packet, next, now);
                }
                if self.acknowledges_all(packet) {
                    self.state = TcpState::FinWait2;
                }
                None
            },
            TcpState::FinWait2 => {
                if packet.flags.fin && packet.sequence == self.rcv_nxt {
                    return self.take_fin(packet, TcpState::TimeWait, now);
                }
                None
            },
            TcpState::Closing => {
                if self.acknowledges_all(packet) {
                    self.state = TcpState::TimeWait;
                    self.timer_set(TCP_TIMER_TIME_WAIT);
                }
                None
            },
            TcpState::LastAck => {
                if self.acknowledges_all(packet) {
                    self.state = TcpState::Closed;
                }
                None
            },
            TcpState::TimeWait => {
                if packet.flags.fin {
                    self.timer_set(TCP_TIMER_TIME_WAIT);
                    return Some(
                        self.control_segment(packet, TcpSegmentFlags::ack(), None, now),
                    );
                }
                None
            },
            _ => None,
        }
    }

    /// Takes in a segment of a connection that is not established, or no longer.
    #[verifier::spinoff_prover]
    #[verifier::rlimit(40)]
    pub fn receive_close_side(&mut self, packet: &TcpPacket, now: Instant) -> (r: Option<
        TcpSegment,
    >)
        requires
            old(self).well_formed(),
            connection_model::readable(now),
        ensures
            final(self).well_formed(),
            old(self).close_side_received(*final(self), r, *packet, now),
    {
        if !self.observe_inbound_timestamp(packet, now) {
            return None;
        }
        self.observe_peer_ecn_feedback(packet);
        if packet.flags.rst {
            self.close_reason = Some(TcpCloseReason::RemoteReset);
            self.state = TcpState::Closed;
            return None;
        }
        let _ = self.receive_packet_ack(packet, now);
        proof {
            lemma_close_step_keeps_recovery(*self, *packet, now);
        }
        self.step_close(packet, now)
    }

    /// How much of a segment's payload to cut, and how far ahead of the next
    /// expected byte the rest starts; nothing if all of it is old.
    pub fn accept_payload(&self, packet: &TcpPacket) -> (r: Option<(u32, u32)>)
        ensures
            r == self.payload_window(*packet),
    {
        if packet.payload_len == 0 {
            return None;
        }
        let sequence = packet.sequence;
        let end_sequence = sequence.advance(packet.payload_len);
        if end_sequence.is_at_or_before(self.rcv_nxt) {
            return None;
        }
        if sequence.is_before(self.rcv_nxt) {
            return Some((sequence.distance_to(self.rcv_nxt), 0));
        }
        Some((0, self.rcv_nxt.distance_to(sequence)))
    }

    /// Notes what the session made of a payload.
    pub fn receive_payload(
        &mut self,
        sequence: TcpSeq,
        trim: u32,
        delivered_len: u32,
        newest_ooo_start: Option<u32>,
        newest_ooo_len: u32,
    )
        ensures
            *final(self) == old(self).payload_received(
                sequence,
                trim,
                delivered_len,
                newest_ooo_start,
                newest_ooo_len,
            ),
    {
        let enabled = self.options.negotiated.sack;
        if trim != 0 {
            self.sack.set_duplicate(enabled, sequence, self.rcv_nxt);
        }
        self.rcv_nxt = self.rcv_nxt.advance(delivered_len);
        if let Some(start) = newest_ooo_start {
            let left = self.rcv_nxt.advance(start);
            let right = left.advance(newest_ooo_len);
            self.sack.update_range(enabled, self.rcv_nxt, left, right);
            return;
        }
        self.sack.update_range(enabled, self.rcv_nxt, self.rcv_nxt, self.rcv_nxt);
    }

    /// Notes a payload that was received before.
    pub fn observe_duplicate_payload(&mut self, sequence: TcpSeq, end_sequence: TcpSeq)
        ensures
            *final(self) == (TcpConnection {
                sack: old(self).sack.with_duplicate(
                    old(self).options.negotiated.sack,
                    sequence,
                    end_sequence,
                ),
                ..*old(self)
            }),
    {
        self.sack.set_duplicate(self.options.negotiated.sack, sequence, end_sequence);
    }

    /// Whether SACK blocks wait to be reported.
    pub fn has_pending_sack_output(&self) -> (r: bool)
        ensures
            r == (self.sack.duplicate is Some || self.sack.ranges.first is Some),
    {
        self.sack.has_output()
    }

    /// Sets the receive window to what the session has room for.
    pub fn set_rcv_wnd(&mut self, rx_available: usize)
        ensures
            *final(self) == old(self).with_room(rx_available),
    {
        self.rcv_wnd = if rx_available > u32::MAX as usize {
            u32::MAX
        } else {
            rx_available as u32
        };
    }

    /// Notes a payload that arrived in order and whole. Where an acknowledgment
    /// is owed already, `true` asks to send it at once; else it is owed from now
    /// on.
    pub fn on_clean_in_order_payload(&mut self) -> (r: bool)
        ensures
            r == timers::holds(old(self).timers.active, TCP_TIMER_DELAYED_ACK),
            *final(self) == (TcpConnection {
                timers: old(self).timers.switched(TCP_TIMER_DELAYED_ACK, !r),
                ..*old(self)
            }),
    {
        if self.timer_is_active(TCP_TIMER_DELAYED_ACK) {
            self.timer_reset(TCP_TIMER_DELAYED_ACK);
            return true;
        }
        self.timer_set(TCP_TIMER_DELAYED_ACK);
        false
    }

    // Sending

    /// The position of the next payload byte to send.
    pub fn tx_payload_sequence(&self) -> (r: TcpSeq)
        ensures
            r == self.next_payload_sequence(),
    {
        match self.tx_intent {
            Some(intent) => intent.sequence,
            None => if self.state == TcpState::SynSent {
                self.iss
            } else {
                self.snd_nxt
            },
        }
    }

    /// The length of the range that is to be sent out of turn.
    pub fn tx_intent_payload_len(&self) -> (r: Option<usize>)
        ensures
            r == (match self.tx_intent {
                Some(intent) => Some(intent.payload_len as usize),
                None => None,
            }),
    {
        match self.tx_intent {
            Some(intent) => Some(intent.payload_len as usize),
            None => None,
        }
    }

    pub fn clear_tx_intent(&mut self)
        ensures
            *final(self) == (TcpConnection { tx_intent: None, ..*old(self) }),
    {
        self.tx_intent = None;
    }

    /// How much of the pending payload may go into the next segment.
    pub fn tx_payload_budget(&self, pending_len: usize) -> (r: usize)
        requires
            self.well_formed(),
        ensures
            r == self.payload_budget(pending_len),
    {
        if let Some(intent) = self.tx_intent {
            return min_usize(pending_len, intent.payload_len as usize);
        }
        if pending_len == 0 {
            return 0;
        }
        if self.state == TcpState::SynSent {
            if !self.options.local_capabilities.fast_open || self.fast_open_cookie.is_none() {
                return 0;
            }
            return min_usize(pending_len, self.output_payload_len());
        }
        if self.state != TcpState::Established {
            return 0;
        }
        let mss: usize = self.output_payload_len();
        let bytes_in_flight: u32 = self.recovery.bytes_in_flight();
        let peer_remaining: u32 = self.snd_wnd.saturating_sub(bytes_in_flight);
        let cc_remaining: u32 = match self.recovery.recovery_send_space(
            bytes_in_flight,
            self.congestion.max_datagram_size(),
        ) {
            Some(recovery_remaining) => recovery_remaining,
            None => self.congestion.congestion_window().saturating_sub(bytes_in_flight),
        };
        let allowed: usize = min_usize(
            min_usize(min_usize(pending_len, mss), peer_remaining as usize),
            cc_remaining as usize,
        );
        if allowed == 0 {
            return 0;
        }
        if self.congestion.next_send_delay(allowed as u32).is_some() {
            return 0;
        }
        allowed
    }

    /// The segment for the next payload.
    pub fn tx_segment(&mut self, payload_len: usize, now: Instant) -> (r: Result<
        TcpSegment,
        TcpConnectionError,
    >)
        ensures
            *final(self) == old(self).after_transmission(now),
            r == old(self).transmission(payload_len, now),
    {
        if self.state == TcpState::SynSent {
            let Some(local) = self.local else {
                return Err(TcpConnectionError::SynSentWithoutLocalAddress);
            };
            let timestamp = self.next_local_timestamp(now);
            return Ok(
                TcpSegment {
                    local,
                    remote: self.remote,
                    sequence: self.tx_payload_sequence().raw(),
                    acknowledgment: self.rcv_nxt.raw(),
                    advertised_window: self.advertised_receive_window(self.rcv_wnd),
                    flags: opening_flags(self.options.local_capabilities.ecn),
                    capabilities: self.options.local_capabilities,
                    sack_blocks: TcpSackList::empty(),
                    timestamp,
                    fast_open_cookie: self.fast_open_cookie,
                    ip_ecn: self.output_ip_ecn(payload_len, self.tx_intent.is_some()),
                    payload_len,
                },
            );
        }
        if self.state != TcpState::Established {
            return Err(TcpConnectionError::TransmitOutsideEstablished);
        }
        let Some(local) = self.local else {
            return Err(TcpConnectionError::EstablishedWithoutLocalAddress);
        };
        let mut flags = self.output_flags(
            TcpSegmentFlags { psh: true, ..TcpSegmentFlags::ack() },
        );
        if self.ecn.cwr {
            flags.cwr = true;
            self.ecn.cwr = false;
        }
        let sack_blocks = self.sack.take_output(self.options.negotiated.sack, flags);
        let timestamp = self.next_local_timestamp(now);
        Ok(
            TcpSegment {
                local,
                remote: self.remote,
                sequence: self.tx_payload_sequence().raw(),
                acknowledgment: self.rcv_nxt.raw(),
                advertised_window: self.advertised_receive_window(self.rcv_wnd),
                flags,
                capabilities: self.options.local_capabilities,
                sack_blocks,
                timestamp,
                fast_open_cookie: None,
                ip_ecn: self.output_ip_ecn(payload_len, self.tx_intent.is_some()),
                payload_len,
            },
        )
    }

    /// Records that the segment for the next payload went out. Returns the mask
    /// of the timers that are to be scheduled.
    pub fn commit_payload_tx(&mut self, payload_len: usize, now: Instant) -> (r: Result<
        u16,
        TcpConnectionError,
    >)
        requires
            old(self).well_formed(),
        ensures
            final(self).well_formed(),
            old(self).committed(*final(self), r, payload_len, now),
    {
        if self.state != TcpState::SynSent && self.state != TcpState::Established {
            return Err(TcpConnectionError::CommitOutsideEstablished);
        }
        if self.tx_intent.is_some() {
            self.clear_tx_intent();
            if self.state == TcpState::SynSent {
                return Ok(timer_bit(TCP_TIMER_RETRANSMIT));
            }
            return Ok(self.resend_timers(now));
        }
        if payload_len > u32::MAX as usize {
            return Err(TcpConnectionError::PayloadTooLong);
        }
        let payload_len: u32 = payload_len as u32;
        let opening = self.state == TcpState::SynSent;
        let sequence = if opening {
            self.iss
        } else {
            self.snd_nxt
        };
        let sent_len: u32 = if opening {
            payload_len.saturating_add(1)
        } else {
            payload_len
        };
        let end_sequence = sequence.advance(sent_len);
        let bytes_in_flight: u32 = self.recovery.bytes_in_flight();
        let packet_number: u64 = self.recovery.next_packet_number();
        self.recovery.record_sent(
            packet_number,
            sequence,
            end_sequence,
            payload_len,
            payload_len,
            now,
        );
        if !opening {
            self.recovery.on_new_data_sent(payload_len);
        }
        self.congestion.on_packet_sent(packet_number, sent_len, bytes_in_flight, now);
        self.snd_nxt = end_sequence;
        if opening {
            self.fast_open_syn_payload_len = payload_len;
            self.timer_set(TCP_TIMER_RETRANSMIT);
            return Ok(0);
        }
        Ok(self.refresh_recovery_timers(now))
    }

    fn resend_timers(&mut self, now: Instant) -> (r: u16)
        requires
            old(self).recovery.well_formed(),
        ensures
            r == old(self).resend_timer_mask(),
            *final(self) == (if old(self).window_probe_due() {
                old(self).timer_started(TCP_TIMER_PERSIST)
            } else {
                *old(self)
            }),
    {
        let mut timers: u16 = 0;
        proof {
            let rack = timers::bit_of(TCP_TIMER_RACK);
            let tlp = timers::bit_of(TCP_TIMER_TLP);
            assert(0u16 | rack == rack) by (bit_vector);
            assert(0u16 | tlp == tlp) by (bit_vector);
            assert(rack | 0u16 == rack) by (bit_vector);
            let mask = self.recovery_timer_mask();
            assert(mask | 0u16 == mask) by (bit_vector);
            assert(0u16 | 0u16 == 0u16) by (bit_vector);
        }
        if self.has_rack_deadline(now) {
            timers = timers | timer_bit(TCP_TIMER_RACK);
        }
        if self.has_probe_timeout() {
            timers = timers | timer_bit(TCP_TIMER_TLP);
        }
        if self.snd_wnd == 0 && self.recovery.has_unacked_data() {
            self.timer_set(TCP_TIMER_PERSIST);
            timers = timers | timer_bit(TCP_TIMER_PERSIST);
        }
        timers
    }

    // Turns, closing and timers

    /// What the connection sends on its turn: its SYN, or its FIN.
    pub fn on_tcp_ready(&mut self, has_pending_tx: bool, now: Instant) -> (r: Option<TcpSegment>)
        ensures
            *final(self) == old(self).ready_step(has_pending_tx, now).0,
            r == old(self).ready_step(has_pending_tx, now).1,
    {
        if self.state == TcpState::SynSent && !has_pending_tx && !self.recovery.has_unacked_data() {
            return match self.tx_segment(0, now) {
                Ok(segment) => Some(segment),
                Err(_) => None,
            };
        }
        let Some(local) = self.local else {
            return None;
        };
        if self.state != TcpState::FinWait1 && self.state != TcpState::LastAck {
            return None;
        }
        let sequence = match self.fin_sequence {
            Some(sequence) => sequence,
            None => {
                let sequence = self.snd_nxt;
                self.snd_nxt = sequence.advance(1);
                sequence
            },
        };
        self.fin_sequence = Some(sequence);
        let timestamp = self.next_local_timestamp(now);
        Some(
            TcpSegment {
                local,
                remote: self.remote,
                sequence: sequence.raw(),
                acknowledgment: self.rcv_nxt.raw(),
                advertised_window: self.advertised_receive_window(self.rcv_wnd),
                flags: TcpSegmentFlags { fin: true, ..TcpSegmentFlags::ack() },
                capabilities: self.options.local_capabilities,
                sack_blocks: TcpSackList::empty(),
                timestamp,
                fast_open_cookie: None,
                ip_ecn: None,
                payload_len: 0,
            },
        )
    }

    /// The session asked to close the connection.
    pub fn on_session_close(&mut self)
        ensures
            *final(self) == old(self).closing(),
    {
        match self.state {
            TcpState::Established => {
                self.close_reason = Some(TcpCloseReason::LocalRequest);
                self.state = TcpState::FinWait1;
            },
            TcpState::CloseWait => {
                self.close_reason = Some(TcpCloseReason::LocalRequest);
                self.state = TcpState::LastAck;
            },
            _ => {},
        }
    }

    /// Backs the retransmission timeout off.
    pub fn observe_retransmit_timeout(&mut self) -> (r: Duration)
        requires
            old(self).well_formed(),
        ensures
            final(self).well_formed(),
            *final(self) == (TcpConnection {
                retransmit_timeout: old(self).retransmit_timeout.timed_out(),
                ..*old(self)
            }),
            r == final(self).retransmit_timeout.rto,
    {
        self.retransmit_timeout.on_retransmission_timeout()
    }

    /// Handles a timer that fired, if it applies and still counts. Returns the
    /// segment to send.
    pub fn on_tcp_timer_expiry(&mut self, timer_id: u32, now: Instant) -> (r: Option<TcpSegment>)
        requires
            old(self).well_formed(),
        ensures
            final(self).well_formed(),
            old(self).timer_handled(*final(self), r, timer_id, now),
    {
        if !self.timer_is_supported(timer_id) || !self.timer_dispatch_pending(timer_id) {
            return None;
        }
        if timer_id == TCP_TIMER_RETRANSMIT {
            self.on_retransmit_timer_expiry(now)
        } else if timer_id == TCP_TIMER_RACK {
            self.on_rack_timer_expiry(now)
        } else if timer_id == TCP_TIMER_TLP {
            self.on_tlp_timer_expiry(now)
        } else if timer_id == TCP_TIMER_DELAYED_ACK {
            self.on_delayed_ack_timer_expiry(now)
        } else if timer_id == TCP_TIMER_PERSIST {
            self.on_persist_timer_expiry(now)
        } else {
            self.close_reason = Some(TcpCloseReason::LocalRequest);
            self.state = TcpState::Closed;
            None
        }
    }

    fn on_retransmit_timer_expiry(&mut self, now: Instant) -> (r: Option<TcpSegment>)
        requires
            old(self).well_formed(),
        ensures
            final(self).well_formed(),
            *final(self) == old(self).retransmit_step(now).0,
            r == old(self).retransmit_step(now).1,
    {
        let _ = self.observe_retransmit_timeout();
        self.timer_set(TCP_TIMER_RETRANSMIT);
        let Some(local) = self.local else {
            return None;
        };
        let timestamp = self.next_local_timestamp(now);
        Some(
            TcpSegment {
                local,
                remote: self.remote,
                sequence: self.iss.raw(),
                acknowledgment: self.rcv_nxt.raw(),
                advertised_window: self.advertised_receive_window(self.rcv_wnd),
                flags: opening_flags(self.options.local_capabilities.ecn),
                capabilities: self.options.local_capabilities,
                sack_blocks: TcpSackList::empty(),
                timestamp,
                fast_open_cookie: self.fast_open_cookie,
                ip_ecn: None,
                payload_len: self.fast_open_syn_payload_len as usize,
            },
        )
    }

    fn resend(&mut self, sequence: TcpSeq, payload_len: u32, now: Instant) -> (r: Option<TcpSegment>)
        ensures
            *final(self) == old(self).intending(sequence, payload_len).after_transmission(now),
            r == old(self).intending(sequence, payload_len).attempt(payload_len, now),
    {
        self.tx_intent = Some(TcpTxIntent { sequence, payload_len, retransmit: true });
        match self.tx_segment(payload_len as usize, now) {
            Ok(segment) => Some(segment),
            Err(_) => None,
        }
    }

    fn on_rack_timer_expiry(&mut self, now: Instant) -> (r: Option<TcpSegment>)
        requires
            old(self).well_formed(),
        ensures
            final(self).well_formed(),
            final(self).congestion == recovery_model::losses_reported(
                old(self).congestion,
                old(self).recovery@.samples,
                now,
                old(self).recovery@.samples.len() as int,
            ),
            final(self).recovery@ == old(self).rack_recovery(final(self).congestion, now),
            *final(self) == old(self).rack_step(
                final(self).recovery,
                final(self).congestion,
                now,
            ).0,
            r == old(self).rack_step(final(self).recovery, final(self).congestion, now).1,
    {
        self.recovery.on_rack_timeout(now, self.snd_nxt, &mut self.congestion);
        let Some(sample) = self.recovery.take_rack_retransmit() else {
            return None;
        };
        self.recovery.on_retransmit_sent(sample.bytes);
        if self.has_rack_deadline(now) {
            self.timer_set(TCP_TIMER_RACK);
        }
        self.resend(sample.sequence, sample.payload_len, now)
    }

    fn on_tlp_timer_expiry(&mut self, now: Instant) -> (r: Option<TcpSegment>)
        requires
            old(self).well_formed(),
        ensures
            final(self).well_formed(),
            final(self).recovery@ == old(self).probe_recovery(),
            *final(self) == old(self).probe_step(final(self).recovery, now).0,
            r == old(self).probe_step(final(self).recovery, now).1,
    {
        let Some(sample) = self.recovery.take_tlp_probe() else {
            return None;
        };
        if self.has_probe_timeout() {
            self.timer_set(TCP_TIMER_TLP);
        }
        if self.recovery.in_recovery() {
            self.recovery.on_retransmit_sent(sample.bytes);
        }
        self.resend(sample.sequence, sample.payload_len, now)
    }

    fn on_delayed_ack_timer_expiry(&mut self, now: Instant) -> (r: Option<TcpSegment>)
        ensures
            *final(self) == old(self).delayed_ack_step(now).0,
            r == old(self).delayed_ack_step(now).1,
    {
        let Some(local) = self.local else {
            return None;
        };
        let timestamp = self.next_local_timestamp(now);
        Some(
            TcpSegment {
                local,
                remote: self.remote,
                sequence: self.snd_nxt.raw(),
                acknowledgment: self.rcv_nxt.raw(),
                advertised_window: self.advertised_receive_window(self.rcv_wnd),
                flags: self.output_flags(TcpSegmentFlags::ack()),
                capabilities: self.options.local_capabilities,
                sack_blocks: TcpSackList::empty(),
                timestamp,
                fast_open_cookie: None,
                ip_ecn: None,
                payload_len: 0,
            },
        )
    }

    fn on_persist_timer_expiry(&mut self, now: Instant) -> (r: Option<TcpSegment>)
        requires
            old(self).well_formed(),
        ensures
            final(self).well_formed(),
            *final(self) == old(self).persist_step(now).0,
            r == old(self).persist_step(now).1,
    {
        let Some(sample) = self.recovery.oldest_unacked_sample() else {
            return None;
        };
        if sample.payload_len == 0 {
            return self.on_delayed_ack_timer_expiry(now);
        }
        self.timer_set(TCP_TIMER_PERSIST);
        self.resend(sample.sequence, 1, now)
    }
}

} // verus!
