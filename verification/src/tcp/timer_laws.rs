//! What a fired timer sends and leaves behind.
use vstd::prelude::*;

use crate::congestion::{CongestionController, LostPacket};
use crate::tcp::connection_model;
use crate::tcp::connection_model::{TcpConnection, TcpTxIntent};
use crate::tcp::recovery::TcpRecoveryState;
use crate::tcp::recovery_model;
use crate::tcp::recovery_model::TcpSentSample;
use crate::tcp::sack;
use crate::tcp::send_laws;
use crate::tcp::sequence::TcpSeq;
use crate::tcp::timers;
use crate::tcp::timers::{
    TCP_TIMER_DELAYED_ACK, TCP_TIMER_PERSIST, TCP_TIMER_RACK, TCP_TIMER_RETRANSMIT,
    TCP_TIMER_TIME_WAIT, TCP_TIMER_TLP,
};
use crate::tcp::types::{TcpCloseReason, TcpSegment, TcpState};
use crate::time::Instant;

verus! {

/// The timer fired, and nobody started it again since.
pub open spec fn fired<C: CongestionController>(
    connection: TcpConnection<C>,
    timer_id: u32,
) -> bool {
    timers::holds(connection.timers.pending, timer_id) && !timers::holds(
        connection.timers.active,
        timer_id,
    )
}

/// The range waited for its acknowledgment in vain: its deadline is over.
pub open spec fn overdue(range: TcpSentSample, now: Instant) -> bool {
    !range.lost && (range.rack_deadline matches Some(deadline) && deadline.nanos <= now.nanos)
}

/// The range is to go out again: it is lost, or overdue, and went out once.
pub open spec fn to_resend(range: TcpSentSample, now: Instant) -> bool {
    !range.retransmitted && (range.lost || overdue(range, now))
}

/// `range` is the lowest outstanding range that is to go out again.
pub open spec fn first_to_resend<C: CongestionController>(
    connection: TcpConnection<C>,
    range: int,
    now: Instant,
) -> bool {
    let ranges = connection.recovery@.samples;
    &&& 0 <= range < ranges.len()
    &&& to_resend(ranges[range], now)
    &&& forall|i: int| 0 <= i < range ==> !to_resend(#[trigger] ranges[i], now)
}

/// An acknowledgment of what was received, to the connection's peer, with the data
/// from `sequence` on.
pub open spec fn carries<C: CongestionController>(
    connection: TcpConnection<C>,
    segment: TcpSegment,
    sequence: u32,
    payload_len: int,
) -> bool {
    &&& Some(segment.local) == connection.local
    &&& segment.remote == connection.remote
    &&& segment.sequence == sequence
    &&& segment.payload_len == payload_len
    &&& segment.flags.ack && !segment.flags.syn && !segment.flags.fin && !segment.flags.rst
    &&& segment.acknowledgment == connection.rcv_nxt.value
}

/// The connection runs between the same ends, opened with the same numbers and the
/// same room of its own.
pub open spec fn same_ends<C: CongestionController>(
    connection: TcpConnection<C>,
    after: TcpConnection<C>,
) -> bool {
    &&& after.connection_id == connection.connection_id
    &&& after.owner_worker == connection.owner_worker
    &&& after.local_port == connection.local_port
    &&& after.local == connection.local
    &&& after.remote == connection.remote
    &&& after.iss == connection.iss
    &&& after.irs == connection.irs
    &&& after.rcv_wnd == connection.rcv_wnd
    &&& after.options == connection.options
    &&& after.fast_open_cookie == connection.fast_open_cookie
    &&& after.fin_sequence == connection.fin_sequence
}

/// Nothing of the connection's positions moved.
pub open spec fn stays_in_place<C: CongestionController>(
    connection: TcpConnection<C>,
    after: TcpConnection<C>,
) -> bool {
    &&& same_ends(connection, after)
    &&& after.state == connection.state
    &&& after.snd_una == connection.snd_una
    &&& after.snd_nxt == connection.snd_nxt
    &&& after.snd_wnd == connection.snd_wnd
    &&& after.rcv_nxt == connection.rcv_nxt
    &&& after.fast_open_syn_payload_len == connection.fast_open_syn_payload_len
    &&& after.close_reason == connection.close_reason
}

/// The ranges cover what they covered before.
pub open spec fn same_cover(before: Seq<TcpSentSample>, after: Seq<TcpSentSample>) -> bool {
    &&& before.len() == after.len()
    &&& forall|i: int|
        0 <= i < before.len() ==> {
            &&& (#[trigger] after[i]).sequence == before[i].sequence
            &&& after[i].end_sequence == before[i].end_sequence
            &&& after[i].bytes == before[i].bytes
            &&& after[i].payload_len == before[i].payload_len
            &&& after[i].sent_at == before[i].sent_at
            &&& after[i].packet_number == before[i].packet_number
        }
}

proof fn lemma_first(samples: Seq<TcpSentSample>)
    ensures
        0 <= recovery_model::first_lost(samples) <= samples.len(),
        recovery_model::first_lost(samples) < samples.len() ==> samples[recovery_model::first_lost(
            samples,
        )].lost && !samples[recovery_model::first_lost(samples)].retransmitted,
        forall|i: int|
            0 <= i < recovery_model::first_lost(samples) ==> !((#[trigger] samples[i]).lost
                && !samples[i].retransmitted),
    decreases samples.len(),
{
    if samples.len() > 0 && !(samples[0].lost && !samples[0].retransmitted) {
        let rest = samples.drop_first();
        lemma_first(rest);
        let index = recovery_model::first_lost(rest);
        if index < rest.len() {
            assert(rest[index] == samples[index + 1]);
        }
        assert forall|i: int| 0 <= i < index + 1 implies !((#[trigger] samples[i]).lost
            && !samples[i].retransmitted) by {
            if i > 0 {
                assert(rest[i - 1] == samples[i]);
            }
        }
    }
}

/// When the RACK timer fires and some range is to go out again, the lowest such
/// range goes out: the segment has its sequence number and its payload length, and
/// what is committed next is that range.
#[verifier::spinoff_prover]
pub proof fn rack_timer_resends_the_lowest<C: CongestionController>(
    connection: TcpConnection<C>,
    after: TcpConnection<C>,
    reply: Option<TcpSegment>,
    range: int,
    now: Instant,
)
    requires
        connection.timer_handled(after, reply, TCP_TIMER_RACK, now),
        connection.state == TcpState::Established,
        fired(connection, TCP_TIMER_RACK),
        connection.local is Some,
        first_to_resend(connection, range, now),
    ensures
        reply matches Some(segment) && carries(
            connection,
            segment,
            connection.recovery@.samples[range].sequence.value,
            connection.recovery@.samples[range].payload_len as int,
        ),
        after.tx_intent == Some(
            TcpTxIntent {
                sequence: connection.recovery@.samples[range].sequence,
                payload_len: connection.recovery@.samples[range].payload_len,
                retransmit: true,
            },
        ),
        stays_in_place(connection, after),
{
    let losses = connection.rack_losses(after.congestion, now);
    let ranges = connection.recovery@.samples;
    lemma_first(losses.samples);
    let first = recovery_model::first_lost(losses.samples);
    assert(losses.samples[range].lost && !losses.samples[range].retransmitted);
    if first < range {
        assert(to_resend(ranges[first], now));
    }
    assert(first == range);
}

/// The segment that the RACK timer sends lies within what was sent and not
/// acknowledged, as the outstanding ranges do.
pub proof fn rack_timer_resends_outstanding_data<C: CongestionController>(
    connection: TcpConnection<C>,
    after: TcpConnection<C>,
    reply: Option<TcpSegment>,
    now: Instant,
)
    requires
        connection.timer_handled(after, reply, TCP_TIMER_RACK, now),
        forall|i: int|
            0 <= i < connection.recovery@.samples.len() ==> connection.snd_una.spec_distance_to(
                (#[trigger] connection.recovery@.samples[i]).sequence,
            ) < connection.snd_una.spec_distance_to(connection.snd_nxt),
    ensures
        reply matches Some(segment) ==> connection.snd_una.spec_distance_to(
            TcpSeq { value: segment.sequence },
        ) < connection.snd_una.spec_distance_to(connection.snd_nxt),
{
    let losses = connection.rack_losses(after.congestion, now);
    lemma_first(losses.samples);
    let first = recovery_model::first_lost(losses.samples);
    if first < losses.samples.len() {
        assert(losses.samples[first].sequence == connection.recovery@.samples[first].sequence);
    }
}

/// With no range to send again, the RACK timer sends nothing and keeps what was
/// intended.
pub proof fn rack_timer_without_loss_sends_nothing<C: CongestionController>(
    connection: TcpConnection<C>,
    after: TcpConnection<C>,
    reply: Option<TcpSegment>,
    now: Instant,
)
    requires
        connection.timer_handled(after, reply, TCP_TIMER_RACK, now),
        forall|i: int|
            0 <= i < connection.recovery@.samples.len() ==> !to_resend(
                #[trigger] connection.recovery@.samples[i],
                now,
            ),
    ensures
        reply is None,
        after.tx_intent == connection.tx_intent,
        stays_in_place(connection, after),
{
    let losses = connection.rack_losses(after.congestion, now);
    lemma_first(losses.samples);
    let first = recovery_model::first_lost(losses.samples);
    if first < losses.samples.len() {
        assert(!to_resend(connection.recovery@.samples[first], now));
    }
}

/// What the RACK timer makes of the outstanding ranges: the overdue ones are lost,
/// the one that goes out again is marked so, and none comes, goes or changes its
/// cover.
#[verifier::spinoff_prover]
pub proof fn rack_timer_marks_the_ranges<C: CongestionController>(
    connection: TcpConnection<C>,
    after: TcpConnection<C>,
    reply: Option<TcpSegment>,
    now: Instant,
)
    requires
        connection.timer_handled(after, reply, TCP_TIMER_RACK, now),
        connection.state == TcpState::Established,
        fired(connection, TCP_TIMER_RACK),
    ensures
        same_cover(connection.recovery@.samples, after.recovery@.samples),
        after.recovery@.bytes_in_flight == connection.recovery@.bytes_in_flight,
        forall|i: int|
            0 <= i < after.recovery@.samples.len() ==> {
                &&& (#[trigger] after.recovery@.samples[i]).lost == (
                connection.recovery@.samples[i].lost || overdue(
                    connection.recovery@.samples[i],
                    now,
                ))
                &&& after.recovery@.samples[i].retransmitted == (
                connection.recovery@.samples[i].retransmitted || first_to_resend(
                    connection,
                    i,
                    now,
                ))
                &&& after.recovery@.samples[i].rack_deadline == (if overdue(
                    connection.recovery@.samples[i],
                    now,
                ) || first_to_resend(connection, i, now) {
                    None
                } else {
                    connection.recovery@.samples[i].rack_deadline
                })
            },
        after.recovery@.tlp_timer_armed == (connection.recovery@.bytes_in_flight != 0),
{
    let losses = connection.rack_losses(after.congestion, now);
    let ranges = connection.recovery@.samples;
    lemma_first(losses.samples);
    let first = recovery_model::first_lost(losses.samples);
    assert forall|i: int| 0 <= i < ranges.len() implies first_to_resend(connection, i, now) == (i
        == first) by {
        assert(to_resend(ranges[i], now) == (losses.samples[i].lost
            && !losses.samples[i].retransmitted));
        if first < ranges.len() {
            assert(to_resend(ranges[first], now));
        }
        if i == first {
            assert forall|j: int| 0 <= j < i implies !to_resend(#[trigger] ranges[j], now) by {
                assert(!(losses.samples[j].lost && !losses.samples[j].retransmitted));
            }
        }
    }
}

/// The timer runs on while some range still waits for its deadline, if one went out
/// again.
#[verifier::spinoff_prover]
pub proof fn rack_timer_waits_for_the_rest<C: CongestionController>(
    connection: TcpConnection<C>,
    after: TcpConnection<C>,
    reply: Option<TcpSegment>,
    range: int,
    now: Instant,
)
    requires
        connection.timer_handled(after, reply, TCP_TIMER_RACK, now),
        connection.state == TcpState::Established,
        fired(connection, TCP_TIMER_RACK),
        first_to_resend(connection, range, now),
    ensures
        timers::holds(after.timers.active, TCP_TIMER_RACK) == (exists|i: int|
            0 <= i < after.recovery@.samples.len() && !(
            #[trigger] after.recovery@.samples[i]).lost && after.recovery@.samples[i].rack_deadline
                is Some),
{
    let losses = connection.rack_losses(after.congestion, now);
    lemma_first(losses.samples);
    assert(losses.samples[range].lost && !losses.samples[range].retransmitted);
    assert(recovery_model::first_lost(losses.samples) < losses.samples.len());
    recovery_model::earliest_is_least(after.recovery@.samples);
    let dispatched = connection.timers.dispatched(TCP_TIMER_RACK);
    timers::starting_touches_one_timer(dispatched, TCP_TIMER_RACK, TCP_TIMER_RACK);
    let deadline = recovery_model::earliest_deadline(after.recovery@.samples);
    if deadline is Some {
        let i = choose|i: int|
            0 <= i < after.recovery@.samples.len() && (
            #[trigger] after.recovery@.samples[i]).pending()
                && after.recovery@.samples[i].rack_deadline == Some(deadline->0);
        assert(!after.recovery@.samples[i].lost);
    }
}

proof fn lemma_no_loss_reported<C: CongestionController>(
    controller: C,
    samples: Seq<TcpSentSample>,
    now: Instant,
    first: int,
    count: int,
)
    requires
        0 <= first <= count <= samples.len(),
        forall|i: int| first <= i < count ==> !overdue(#[trigger] samples[i], now),
    ensures
        recovery_model::losses_reported(controller, samples, now, count)
            == recovery_model::losses_reported(controller, samples, now, first),
    decreases count,
{
    if first < count {
        assert(!overdue(samples[count - 1], now));
        lemma_no_loss_reported(controller, samples, now, first, count - 1);
    }
}

/// The controller hears of a range when it is found overdue, and of no other.
pub proof fn rack_timer_reports_the_overdue<C: CongestionController>(
    connection: TcpConnection<C>,
    after: TcpConnection<C>,
    reply: Option<TcpSegment>,
    late: int,
    now: Instant,
)
    requires
        connection.timer_handled(after, reply, TCP_TIMER_RACK, now),
        connection.state == TcpState::Established,
        fired(connection, TCP_TIMER_RACK),
        forall|i: int|
            0 <= i < connection.recovery@.samples.len() && i != late ==> !overdue(
                #[trigger] connection.recovery@.samples[i],
                now,
            ),
    ensures
        after.congestion == (if 0 <= late < connection.recovery@.samples.len() && overdue(
            connection.recovery@.samples[late],
            now,
        ) {
            let range = connection.recovery@.samples[late];
            connection.congestion.after_loss(
                now,
                LostPacket {
                    packet_number: range.packet_number,
                    bytes: range.bytes,
                    sent_at: range.sent_at,
                },
                false,
            )
        } else {
            connection.congestion
        }),
{
    let samples = connection.recovery@.samples;
    let count = samples.len() as int;
    if 0 <= late < count {
        lemma_no_loss_reported(connection.congestion, samples, now, 0, late);
        lemma_no_loss_reported(connection.congestion, samples, now, late + 1, count);
    } else {
        lemma_no_loss_reported(connection.congestion, samples, now, 0, count);
    }
}

/// The first loss starts an episode that lasts until everything sent so far is
/// acknowledged, with the controller's new window as its aim; what goes out again is
/// counted against it. A later loss only lowers the aim.
#[verifier::spinoff_prover]
pub proof fn rack_loss_starts_an_episode<C: CongestionController>(
    connection: TcpConnection<C>,
    after: TcpConnection<C>,
    reply: Option<TcpSegment>,
    range: int,
    now: Instant,
)
    requires
        connection.timer_handled(after, reply, TCP_TIMER_RACK, now),
        connection.state == TcpState::Established,
        fired(connection, TCP_TIMER_RACK),
        first_to_resend(connection, range, now),
    ensures
        ({
            let before = connection.recovery@.episode;
            let episode = after.recovery@.episode;
            let bytes = connection.recovery@.samples[range].bytes;
            let window = after.congestion.spec_metrics().congestion_window;
            let found = exists|i: int|
                0 <= i < connection.recovery@.samples.len() && overdue(
                    #[trigger] connection.recovery@.samples[i],
                    now,
                );
            &&& episode.active == (before.active || found)
            &&& !before.active && found ==> {
                &&& episode.window == window
                &&& episode.prev_window == vstd::math::max(
                    connection.congestion.spec_metrics().congestion_window as int,
                    1,
                )
                &&& episode.end_sequence == connection.snd_nxt
                &&& episode.delivered == 0 && episode.new_data == 0
                &&& episode.retransmitted == bytes
            }
            &&& before.active ==> {
                &&& episode.window == vstd::math::min(before.window as int, window as int)
                &&& episode.prev_window == before.prev_window
                &&& episode.end_sequence == before.end_sequence
                &&& episode.delivered == before.delivered && episode.new_data == before.new_data
                &&& episode.retransmitted == vstd::math::min(
                    before.retransmitted + bytes,
                    u32::MAX as int,
                )
            }
        }),
{
    let ranges = connection.recovery@.samples;
    let losses = connection.rack_losses(after.congestion, now);
    lemma_first(losses.samples);
    let first = recovery_model::first_lost(losses.samples);
    assert(losses.samples[range].lost && !losses.samples[range].retransmitted);
    if first < range {
        assert(to_resend(ranges[first], now));
    }
    assert(first == range);
    assert forall|i: int| 0 <= i < ranges.len() implies recovery_model::rack_expired(
        #[trigger] ranges[i],
        now,
    ) == overdue(ranges[i], now) by {}
}

/// When the tail loss probe timer fires, the newest outstanding range goes out
/// again; it is marked so, and no further probe waits.
pub proof fn probe_timer_resends_the_newest<C: CongestionController>(
    connection: TcpConnection<C>,
    after: TcpConnection<C>,
    reply: Option<TcpSegment>,
    now: Instant,
)
    requires
        connection.timer_handled(after, reply, TCP_TIMER_TLP, now),
        connection.state == TcpState::Established,
        fired(connection, TCP_TIMER_TLP),
        connection.local is Some,
        connection.recovery@.samples.len() > 0,
    ensures
        ({
            let newest = connection.recovery@.samples.last();
            &&& reply matches Some(segment) && carries(
                connection,
                segment,
                newest.sequence.value,
                newest.payload_len as int,
            )
            &&& after.tx_intent == Some(
                TcpTxIntent {
                    sequence: newest.sequence,
                    payload_len: newest.payload_len,
                    retransmit: true,
                },
            )
        }),
        stays_in_place(connection, after),
        after.congestion == connection.congestion,
        same_cover(connection.recovery@.samples, after.recovery@.samples),
        after.recovery@.bytes_in_flight == connection.recovery@.bytes_in_flight,
        !after.recovery@.tlp_timer_armed,
        forall|i: int|
            0 <= i < after.recovery@.samples.len() ==> {
                &&& (#[trigger] after.recovery@.samples[i]).lost
                    == connection.recovery@.samples[i].lost
                &&& after.recovery@.samples[i].rack_deadline
                    == connection.recovery@.samples[i].rack_deadline
                &&& after.recovery@.samples[i].retransmitted == (
                connection.recovery@.samples[i].retransmitted || i
                    == connection.recovery@.samples.len() - 1)
            },
        connection.recovery@.episode.active ==> after.recovery@.episode.retransmitted
            == vstd::math::min(
            connection.recovery@.episode.retransmitted + connection.recovery@.samples.last().bytes,
            u32::MAX as int,
        ),
{
}

/// With nothing outstanding, neither the probe timer nor the persist timer sends
/// anything.
pub proof fn probes_need_outstanding_data<C: CongestionController>(
    connection: TcpConnection<C>,
    after: TcpConnection<C>,
    reply: Option<TcpSegment>,
    timer_id: u32,
    now: Instant,
)
    requires
        timer_id == TCP_TIMER_TLP || timer_id == TCP_TIMER_PERSIST,
        connection.timer_handled(after, reply, timer_id, now),
        connection.recovery@.samples.len() == 0,
    ensures
        reply is None,
        after.tx_intent == connection.tx_intent,
        stays_in_place(connection, after),
{
}

/// When the persist timer fires, one byte of the oldest outstanding range probes the
/// closed window, and the timer runs again; where the range has no payload, an
/// acknowledgment alone goes out.
pub proof fn persist_timer_probes_with_one_byte<C: CongestionController>(
    connection: TcpConnection<C>,
    after: TcpConnection<C>,
    reply: Option<TcpSegment>,
    now: Instant,
)
    requires
        connection.timer_handled(after, reply, TCP_TIMER_PERSIST, now),
        connection.state == TcpState::Established,
        fired(connection, TCP_TIMER_PERSIST),
        connection.local is Some,
        connection.recovery@.samples.len() > 0,
    ensures
        ({
            let oldest = connection.recovery@.samples[0];
            let probes = oldest.payload_len != 0;
            &&& reply matches Some(segment) && carries(
                connection,
                segment,
                if probes {
                    oldest.sequence.value
                } else {
                    connection.snd_nxt.value
                },
                if probes {
                    1
                } else {
                    0
                },
            )
            &&& probes ==> after.tx_intent == Some(
                TcpTxIntent { sequence: oldest.sequence, payload_len: 1, retransmit: true },
            )
            &&& !probes ==> after.tx_intent == connection.tx_intent
            &&& timers::holds(after.timers.active, TCP_TIMER_PERSIST) == probes
        }),
        stays_in_place(connection, after),
        after.congestion == connection.congestion,
        after.recovery == connection.recovery,
{
    timers::starting_touches_one_timer(
        connection.timers.dispatched(TCP_TIMER_PERSIST),
        TCP_TIMER_PERSIST,
        TCP_TIMER_PERSIST,
    );
}

/// When the delayed acknowledgment timer fires, an acknowledgment of everything
/// received goes out, without data, and nothing else happens.
pub proof fn delayed_ack_timer_acknowledges<C: CongestionController>(
    connection: TcpConnection<C>,
    after: TcpConnection<C>,
    reply: Option<TcpSegment>,
    now: Instant,
)
    requires
        connection.timer_handled(after, reply, TCP_TIMER_DELAYED_ACK, now),
        connection.state == TcpState::Established,
        fired(connection, TCP_TIMER_DELAYED_ACK),
        connection.local is Some,
    ensures
        reply matches Some(segment) && carries(connection, segment, connection.snd_nxt.value, 0)
            && send_laws::echoes(connection, segment) && send_laws::describes(connection, segment)
            && segment.sack_blocks == sack::no_blocks() && segment.fast_open_cookie is None
            && segment.ip_ecn is None,
        stays_in_place(connection, after),
        after.tx_intent == connection.tx_intent,
        after.congestion == connection.congestion,
        after.recovery == connection.recovery,
        after.sack == connection.sack,
{
    send_laws::field_is_the_room(
        connection.rcv_wnd,
        connection.options.negotiated.receive_window_scale,
    );
}

/// When the retransmission timer of an opening connection fires, its SYN goes out
/// again at the initial sequence number with the payload it had; the next timeout
/// comes after twice the time, up to a minute, and the timer runs again.
pub proof fn retransmit_timer_resends_the_syn<C: CongestionController>(
    connection: TcpConnection<C>,
    after: TcpConnection<C>,
    reply: Option<TcpSegment>,
    now: Instant,
)
    requires
        connection.timer_handled(after, reply, TCP_TIMER_RETRANSMIT, now),
        connection.state == TcpState::SynSent,
        fired(connection, TCP_TIMER_RETRANSMIT),
        connection.local is Some,
        connection.retransmit_timeout.well_formed(),
    ensures
        reply matches Some(segment) && {
            &&& Some(segment.local) == connection.local
            &&& segment.remote == connection.remote
            &&& segment.sequence == connection.iss.value
            &&& segment.flags.syn && !segment.flags.ack && !segment.flags.rst && !segment.flags.fin
            &&& segment.payload_len == connection.fast_open_syn_payload_len
            &&& segment.fast_open_cookie == connection.fast_open_cookie
            &&& segment.capabilities == connection.options.local_capabilities
            &&& segment.flags.ece == connection.options.local_capabilities.ecn
            &&& segment.flags.cwr == connection.options.local_capabilities.ecn
            &&& !segment.flags.psh && !segment.flags.urg
            &&& segment.sack_blocks == sack::no_blocks()
            &&& send_laws::describes(connection, segment)
        },
        after.retransmit_timeout.rto.nanos == vstd::math::min(
            2 * connection.retransmit_timeout.rto.nanos,
            60_000_000_000,
        ),
        after.retransmit_timeout.skip_next_sample,
        timers::holds(after.timers.active, TCP_TIMER_RETRANSMIT),
        stays_in_place(connection, after),
        after.tx_intent == connection.tx_intent,
        after.congestion == connection.congestion,
        after.recovery == connection.recovery,
{
    send_laws::field_is_the_room(
        connection.rcv_wnd,
        connection.options.negotiated.receive_window_scale,
    );
    timers::starting_touches_one_timer(
        connection.timers.dispatched(TCP_TIMER_RETRANSMIT),
        TCP_TIMER_RETRANSMIT,
        TCP_TIMER_RETRANSMIT,
    );
}

/// A connection leaves TIME-WAIT for good when its timer fires, without a word.
pub proof fn time_wait_timer_closes<C: CongestionController>(
    connection: TcpConnection<C>,
    after: TcpConnection<C>,
    reply: Option<TcpSegment>,
    now: Instant,
)
    requires
        connection.timer_handled(after, reply, TCP_TIMER_TIME_WAIT, now),
        connection.state == TcpState::TimeWait,
        fired(connection, TCP_TIMER_TIME_WAIT),
    ensures
        after.state == TcpState::Closed,
        after.close_reason == Some(TcpCloseReason::LocalRequest),
        reply is None,
{
}

/// A timer that did not fire, that was started again, or that means nothing in the
/// connection's state, sends nothing and moves nothing.
pub proof fn idle_timer_does_nothing<C: CongestionController>(
    connection: TcpConnection<C>,
    after: TcpConnection<C>,
    reply: Option<TcpSegment>,
    timer_id: u32,
    now: Instant,
)
    requires
        connection.timer_handled(after, reply, timer_id, now),
        !fired(connection, timer_id) || connection.state == TcpState::Closed || connection.state
            == TcpState::Listen || connection.state == TcpState::SynRcvd || (connection.state
            == TcpState::SynSent && timer_id != TCP_TIMER_RETRANSMIT) || (connection.state
            == TcpState::Established && timer_id != TCP_TIMER_RACK && timer_id != TCP_TIMER_TLP
            && timer_id != TCP_TIMER_DELAYED_ACK && timer_id != TCP_TIMER_PERSIST) || (
        connection.state == TcpState::TimeWait && timer_id != TCP_TIMER_TIME_WAIT),
    ensures
        reply is None,
        stays_in_place(connection, after),
        after.tx_intent == connection.tx_intent,
        after.congestion == connection.congestion,
        after.recovery == connection.recovery,
        after.timers.active == connection.timers.active,
{
}

/// A timer that was started again since it fired is not served: it runs on, no longer
/// counts as fired, and nothing else changes.
pub proof fn restarted_timer_runs_on<C: CongestionController>(
    connection: TcpConnection<C>,
    after: TcpConnection<C>,
    reply: Option<TcpSegment>,
    timer_id: u32,
    other: u32,
    now: Instant,
)
    requires
        connection.timer_handled(after, reply, timer_id, now),
        connection_model::timer_applies(connection.state, timer_id),
        timers::holds(connection.timers.pending, timer_id),
        timers::holds(connection.timers.active, timer_id),
        timer_id < 16,
        other < 16,
    ensures
        reply is None,
        after.timers.active == connection.timers.active,
        timers::holds(after.timers.pending, other) == (other != timer_id && timers::holds(
            connection.timers.pending,
            other,
        )),
        stays_in_place(connection, after),
        after.recovery == connection.recovery && after.congestion == connection.congestion,
        after.retransmit_timeout == connection.retransmit_timeout,
        after.tx_intent == connection.tx_intent,
{
    let pending = connection.timers.pending;
    assert(timer_id < 16 && other < 16 ==> ((pending & !(1u16 << timer_id)) & (1u16 << other) != 0)
        == (other != timer_id && pending & (1u16 << other) != 0)) by (bit_vector);
}

/// What making a segment leaves alone.
proof fn lemma_segment_made<C: CongestionController>(connection: TcpConnection<C>, now: Instant)
    ensures
        stays_in_place(connection, connection.after_transmission(now)),
        connection.after_transmission(now).timers == connection.timers,
{
}

/// What the steps of the timers leave alone.
#[verifier::spinoff_prover]
proof fn lemma_steps_leave<C: CongestionController>(
    served: TcpConnection<C>,
    recovery: TcpRecoveryState,
    congestion: C,
    now: Instant,
)
    ensures
        served.persist_step(now).0.timers.pending == served.timers.pending,
        stays_in_place(served, served.persist_step(now).0),
        served.probe_step(recovery, now).0.timers.pending == served.timers.pending,
        stays_in_place(served, served.probe_step(recovery, now).0),
        served.rack_step(recovery, congestion, now).0.timers.pending == served.timers.pending,
        stays_in_place(served, served.rack_step(recovery, congestion, now).0),
{
    let ranges = served.recovery@.samples;
    lemma_segment_made(
        served.timer_started(TCP_TIMER_PERSIST).intending(ranges[0].sequence, 1),
        now,
    );
    let probing = TcpConnection { recovery, ..served };
    lemma_segment_made(probing.intending(ranges.last().sequence, ranges.last().payload_len), now);
    let moved = TcpConnection { recovery, congestion, ..served };
    let losses = served.rack_losses(congestion, now);
    let range = losses.samples[recovery_model::first_lost(losses.samples)];
    lemma_segment_made(moved.intending(range.sequence, range.payload_len), now);
    lemma_segment_made(
        moved.timer_started(TCP_TIMER_RACK).intending(range.sequence, range.payload_len),
        now,
    );
}

/// A timer that is served no longer counts as fired; the others that did still do, and
/// nothing moves.
pub proof fn served_timer_is_done<C: CongestionController>(
    connection: TcpConnection<C>,
    after: TcpConnection<C>,
    reply: Option<TcpSegment>,
    timer_id: u32,
    other: u32,
    now: Instant,
)
    requires
        connection.timer_handled(after, reply, timer_id, now),
        connection_model::timer_applies(connection.state, timer_id),
        fired(connection, timer_id),
        timer_id < 16,
        other < 16,
    ensures
        timers::holds(after.timers.pending, other) == (other != timer_id && timers::holds(
            connection.timers.pending,
            other,
        )),
        same_ends(connection, after),
        after.snd_una == connection.snd_una && after.snd_nxt == connection.snd_nxt,
        after.rcv_nxt == connection.rcv_nxt && after.snd_wnd == connection.snd_wnd,
{
    let pending = connection.timers.pending;
    assert(timer_id < 16 && other < 16 ==> ((pending & !(1u16 << timer_id)) & (1u16 << other) != 0)
        == (other != timer_id && pending & (1u16 << other) != 0)) by (bit_vector);
    let served = TcpConnection { timers: connection.timers.dispatched(timer_id), ..connection };
    lemma_steps_leave(served, after.recovery, after.congestion, now);
}

} // verus!
