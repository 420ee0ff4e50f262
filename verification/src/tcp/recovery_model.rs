//! The mathematical model of loss recovery: outstanding samples, the SACK
//! scoreboard, the RACK deadlines and the proportional rate reduction account.
use vstd::prelude::*;

use crate::arith;
use crate::congestion::{AckedPacket, CongestionController, LostPacket, PacketNumber, RttSample};
use crate::tcp::sequence::TcpSeq;
use crate::time::{Duration, Instant, MAX_DURATION_NANOS};

verus! {

/// The shortest tail loss probe timeout: 10 ms.
pub const TCP_MIN_TLP_TIMEOUT_NANOS: u128 = 10_000_000;

pub const TCP_DUPACK_THRESHOLD: u32 = 3;

/// A range of sequence space that the peer reports as received.
#[derive(Clone, Copy, Debug, PartialEq, Eq, Structural)]
pub struct TcpSackBlock {
    pub left_edge: TcpSeq,
    pub right_edge: TcpSeq,
}

/// One transmitted range that is not acknowledged yet.
#[derive(Clone, Copy, Debug, PartialEq, Eq, Structural)]
pub struct TcpSentSample {
    pub packet_number: PacketNumber,
    pub sequence: TcpSeq,
    pub end_sequence: TcpSeq,
    pub bytes: u32,
    pub payload_len: u32,
    pub retransmitted: bool,
    pub lost: bool,
    pub rack_deadline: Option<Instant>,
    pub sent_at: Instant,
}

/// A range between the cumulative acknowledgment and the highest SACK that no
/// outstanding sample covers.
#[derive(Clone, Copy, Debug, PartialEq, Eq, Structural)]
pub struct TcpScoreboardHole {
    pub start: TcpSeq,
    pub end: TcpSeq,
    pub lost: bool,
}

/// What an incoming acknowledgment tells loss recovery.
#[derive(Clone, Copy, Debug, PartialEq, Eq, Structural)]
pub struct TcpRecoveryAck {
    pub acknowledgment: TcpSeq,
    pub now: Instant,
    pub app_limited: bool,
    pub ecn_ce_count: u64,
    pub reordering_window: Duration,
}

/// The account of one recovery episode.
#[derive(Clone, Copy, Debug, PartialEq, Eq, Structural)]
pub struct RecoveryEpisode {
    pub active: bool,
    pub window: u32,
    pub prev_window: u32,
    pub delivered: u32,
    pub retransmitted: u32,
    pub new_data: u32,
    pub end_sequence: TcpSeq,
}

/// The whole of the recovery state, samples in the order they were sent.
pub struct RecoveryModel {
    pub next_packet_number: PacketNumber,
    pub samples: Seq<TcpSentSample>,
    pub bytes_in_flight: u32,
    pub ack_floor: TcpSeq,
    pub holes: Seq<TcpScoreboardHole>,
    pub high_sacked: TcpSeq,
    pub high_rxt: TcpSeq,
    pub reorder: u32,
    pub rack_timer_armed: bool,
    pub tlp_timer_armed: bool,
    pub episode: RecoveryEpisode,
}

// Samples

/// The share of `payload_len` that falls to `portion_bytes` out of `bytes`.
pub open spec fn payload_share(bytes: u32, payload_len: u32, portion_bytes: u32) -> u32 {
    if bytes == 0 || payload_len == 0 || portion_bytes == 0 {
        0
    } else {
        vstd::math::min((payload_len * portion_bytes) / (bytes as int), payload_len as int) as u32
    }
}

impl TcpSentSample {
    pub open spec fn spec_covers(self, sequence: TcpSeq) -> bool {
        self.sequence.at_or_before(sequence) && self.end_sequence.after(sequence)
    }

    pub open spec fn spec_overlaps(self, start: TcpSeq, end: TcpSeq) -> bool {
        self.end_sequence.after(start) && self.sequence.before(end)
    }

    /// The part of the sample below `at`.
    pub open spec fn prefix(self, at: TcpSeq) -> TcpSentSample {
        let len = self.sequence.spec_distance_to(at);
        TcpSentSample {
            end_sequence: at,
            bytes: len,
            payload_len: payload_share(self.bytes, self.payload_len, len),
            ..self
        }
    }

    /// The part of the sample from `at` on.
    pub open spec fn suffix(self, at: TcpSeq) -> TcpSentSample {
        let len = self.sequence.spec_distance_to(at);
        TcpSentSample {
            sequence: at,
            bytes: arith::saturate_u32(self.bytes - len),
            payload_len: arith::saturate_u32(
                self.payload_len - payload_share(self.bytes, self.payload_len, len),
            ),
            ..self
        }
    }

    /// A RACK deadline is running for the sample.
    pub open spec fn pending(self) -> bool {
        !self.lost && self.rack_deadline is Some
    }
}

pub open spec fn total_bytes(samples: Seq<TcpSentSample>) -> int
    decreases samples.len(),
{
    if samples.len() == 0 {
        0
    } else {
        total_bytes(samples.drop_last()) + samples.last().bytes
    }
}

pub proof fn lemma_total_bytes_nonnegative(samples: Seq<TcpSentSample>)
    ensures
        total_bytes(samples) >= 0,
    decreases samples.len(),
{
    if samples.len() > 0 {
        lemma_total_bytes_nonnegative(samples.drop_last());
    }
}

pub proof fn lemma_total_bytes_push(samples: Seq<TcpSentSample>, sample: TcpSentSample)
    ensures
        total_bytes(samples.push(sample)) == total_bytes(samples) + sample.bytes,
        total_bytes(samples) >= 0,
{
    assert(samples.push(sample).drop_last() =~= samples);
    lemma_total_bytes_nonnegative(samples);
}

pub proof fn lemma_total_bytes_concat(a: Seq<TcpSentSample>, b: Seq<TcpSentSample>)
    ensures
        total_bytes(a + b) == total_bytes(a) + total_bytes(b),
    decreases b.len(),
{
    if b.len() == 0 {
        assert(a + b =~= a);
    } else {
        assert((a + b).drop_last() =~= a + b.drop_last());
        lemma_total_bytes_concat(a, b.drop_last());
    }
}

/// The bytes of the samples that are marked lost.
pub open spec fn lost_total(samples: Seq<TcpSentSample>) -> int
    decreases samples.len(),
{
    if samples.len() == 0 {
        0
    } else {
        lost_total(samples.drop_last()) + if samples.last().lost {
            samples.last().bytes as int
        } else {
            0
        }
    }
}

/// The earliest RACK deadline over the whole list.
pub open spec fn earliest_deadline(samples: Seq<TcpSentSample>) -> Option<Instant>
    decreases samples.len(),
{
    if samples.len() == 0 {
        None
    } else {
        let earlier = earliest_deadline(samples.drop_last());
        let sample = samples.last();
        match (sample.rack_deadline, earlier) {
            (Some(deadline), Some(current)) if !sample.lost && deadline.nanos < current.nanos => {
                Some(deadline)
            },
            (Some(deadline), None) if !sample.lost => Some(deadline),
            _ => earlier,
        }
    }
}

/// `deadline` is the least among the pending deadlines, `None` if there is none.
pub open spec fn is_earliest(samples: Seq<TcpSentSample>, deadline: Option<Instant>) -> bool {
    match deadline {
        Some(least) => {
            &&& exists|i: int|
                0 <= i < samples.len() && (#[trigger] samples[i]).pending()
                    && samples[i].rack_deadline == Some(least)
            &&& forall|i: int|
                0 <= i < samples.len() && (#[trigger] samples[i]).pending()
                    ==> samples[i].rack_deadline->0.nanos >= least.nanos
        },
        None => forall|i: int| 0 <= i < samples.len() ==> !(#[trigger] samples[i]).pending(),
    }
}

/// The full scan finds the least pending deadline.
pub proof fn earliest_is_least(samples: Seq<TcpSentSample>)
    ensures
        is_earliest(samples, earliest_deadline(samples)),
    decreases samples.len(),
{
    if samples.len() > 0 {
        let front = samples.drop_last();
        earliest_is_least(front);
        let found = earliest_deadline(samples);
        assert forall|i: int| 0 <= i < front.len() implies samples[i] == front[i] by {}
        let last = samples.len() - 1;
        assert(samples[last] == samples.last());
        match found {
            Some(least) => {
                if earliest_deadline(front) == found {
                    let i = choose|i: int|
                        0 <= i < front.len() && (#[trigger] front[i]).pending()
                            && front[i].rack_deadline == Some(least);
                    assert(samples[i].pending());
                } else {
                    assert(samples[last].pending());
                }
                assert forall|i: int|
                    0 <= i < samples.len() && (#[trigger] samples[i]).pending() implies
                    samples[i].rack_deadline->0.nanos >= least.nanos by {
                    if i < last {
                        assert(front[i].pending());
                    }
                }
            },
            None => {
                assert forall|i: int| 0 <= i < samples.len() implies !(
                #[trigger] samples[i]).pending() by {
                    if i < last {
                        assert(!front[i].pending());
                    }
                }
            },
        }
    }
}

/// Only one value can be the least pending deadline.
pub proof fn earliest_unique(
    samples: Seq<TcpSentSample>,
    a: Option<Instant>,
    b: Option<Instant>,
)
    requires
        is_earliest(samples, a),
        is_earliest(samples, b),
    ensures
        a == b,
{
    if a is Some {
        let i = choose|i: int|
            0 <= i < samples.len() && (#[trigger] samples[i]).pending()
                && samples[i].rack_deadline == Some(a->0);
        assert(samples[i].pending());
    }
    if b is Some {
        let i = choose|i: int|
            0 <= i < samples.len() && (#[trigger] samples[i]).pending()
                && samples[i].rack_deadline == Some(b->0);
        assert(samples[i].pending());
    }
}

// What an acknowledgment takes

/// The ranges below `ack`: whole samples, then at most one prefix.
pub open spec fn acked_part(samples: Seq<TcpSentSample>, ack: TcpSeq) -> Seq<TcpSentSample>
    decreases samples.len(),
{
    if samples.len() == 0 || ack.at_or_before(samples[0].sequence) {
        seq![]
    } else if ack.at_or_after(samples[0].end_sequence) {
        seq![samples[0]] + acked_part(samples.drop_first(), ack)
    } else {
        seq![samples[0].prefix(ack)]
    }
}

/// What stays outstanding after a cumulative acknowledgment.
pub open spec fn unacked_part(samples: Seq<TcpSentSample>, ack: TcpSeq) -> Seq<TcpSentSample>
    decreases samples.len(),
{
    if samples.len() == 0 || ack.at_or_before(samples[0].sequence) {
        samples
    } else if ack.at_or_after(samples[0].end_sequence) {
        unacked_part(samples.drop_first(), ack)
    } else {
        seq![samples[0].suffix(ack)] + samples.drop_first()
    }
}

/// The part of a sample that a SACK block covers.
pub open spec fn sacked_piece(sample: TcpSentSample, block: TcpSackBlock) -> TcpSentSample {
    let start = sample.sequence.spec_later(block.left_edge);
    let end = sample.end_sequence.spec_earlier(block.right_edge);
    let middle = if start.after(sample.sequence) {
        sample.suffix(start)
    } else {
        sample
    };
    if end.before(middle.end_sequence) {
        middle.prefix(end)
    } else {
        middle
    }
}

/// The parts of a sample that a SACK block leaves outstanding.
pub open spec fn unsacked_pieces(sample: TcpSentSample, block: TcpSackBlock) -> Seq<TcpSentSample> {
    let start = sample.sequence.spec_later(block.left_edge);
    let end = sample.end_sequence.spec_earlier(block.right_edge);
    let below = if start.after(sample.sequence) {
        seq![sample.prefix(start)]
    } else {
        seq![]
    };
    let middle = if start.after(sample.sequence) {
        sample.suffix(start)
    } else {
        sample
    };
    let above = if end.before(middle.end_sequence) {
        seq![middle.suffix(end)]
    } else {
        seq![]
    };
    below + above
}

/// The ranges that one SACK block covers, in order.
pub open spec fn sacked_part(samples: Seq<TcpSentSample>, block: TcpSackBlock) -> Seq<TcpSentSample>
    decreases samples.len(),
{
    if samples.len() == 0 || block.right_edge.before(samples[0].sequence) {
        seq![]
    } else if samples[0].spec_overlaps(block.left_edge, block.right_edge) {
        seq![sacked_piece(samples[0], block)] + sacked_part(samples.drop_first(), block)
    } else {
        sacked_part(samples.drop_first(), block)
    }
}

/// What one SACK block leaves outstanding.
pub open spec fn unsacked_part(
    samples: Seq<TcpSentSample>,
    block: TcpSackBlock,
) -> Seq<TcpSentSample>
    decreases samples.len(),
{
    if samples.len() == 0 || block.right_edge.before(samples[0].sequence) {
        samples
    } else if samples[0].spec_overlaps(block.left_edge, block.right_edge) {
        unsacked_pieces(samples[0], block) + unsacked_part(samples.drop_first(), block)
    } else {
        seq![samples[0]] + unsacked_part(samples.drop_first(), block)
    }
}

/// The ranges that the first `count` blocks take, one block after another.
pub open spec fn all_sacked(
    samples: Seq<TcpSentSample>,
    blocks: Seq<TcpSackBlock>,
    count: int,
) -> Seq<TcpSentSample>
    decreases count,
{
    if count <= 0 {
        seq![]
    } else {
        all_sacked(samples, blocks, count - 1) + sacked_part(
            all_unsacked(samples, blocks, count - 1),
            blocks[count - 1],
        )
    }
}

/// What the first `count` blocks leave outstanding.
pub open spec fn all_unsacked(
    samples: Seq<TcpSentSample>,
    blocks: Seq<TcpSackBlock>,
    count: int,
) -> Seq<TcpSentSample>
    decreases count,
{
    if count <= 0 {
        samples
    } else {
        unsacked_part(all_unsacked(samples, blocks, count - 1), blocks[count - 1])
    }
}

/// The highest right edge among the first `count` blocks and `floor`.
pub open spec fn highest_right_edge(floor: TcpSeq, blocks: Seq<TcpSackBlock>, count: int) -> TcpSeq
    decreases count,
{
    if count <= 0 {
        floor
    } else {
        highest_right_edge(floor, blocks, count - 1).spec_later(blocks[count - 1].right_edge)
    }
}

// What the congestion controller is told

pub open spec fn round_trip(segment: TcpSentSample, now: Instant) -> Duration {
    now.spec_since(segment.sent_at)
}

/// A retransmitted range gives no round-trip sample.
pub open spec fn rtt_sample(segment: TcpSentSample, now: Instant) -> RttSample {
    let rtt = if segment.retransmitted {
        Duration { nanos: 0 }
    } else {
        round_trip(segment, now)
    };
    RttSample { latest: rtt, min: rtt }
}

pub open spec fn acked_packet(segment: TcpSentSample, ack: TcpRecoveryAck) -> AckedPacket {
    AckedPacket {
        packet_number: segment.packet_number,
        bytes: segment.bytes,
        sent_at: segment.sent_at,
        app_limited: ack.app_limited,
        ecn_ce_count: ack.ecn_ce_count,
    }
}

pub open spec fn lost_packet(segment: TcpSentSample) -> LostPacket {
    LostPacket {
        packet_number: segment.packet_number,
        bytes: segment.bytes,
        sent_at: segment.sent_at,
    }
}

/// The controller after each of `taken` was reported in order, each with what
/// was still in flight after it left.
pub open spec fn delivered_to<C: CongestionController>(
    controller: C,
    taken: Seq<TcpSentSample>,
    bytes_before: int,
    ack: TcpRecoveryAck,
) -> C
    decreases taken.len(),
{
    if taken.len() == 0 {
        controller
    } else {
        delivered_to(controller, taken.drop_last(), bytes_before, ack).after_ack(
            ack.now,
            acked_packet(taken.last(), ack),
            rtt_sample(taken.last(), ack.now),
            arith::saturate_u32(bytes_before - total_bytes(taken)),
        )
    }
}

pub open spec fn largest_packet(taken: Seq<TcpSentSample>) -> PacketNumber
    decreases taken.len(),
{
    if taken.len() == 0 {
        0
    } else {
        vstd::math::max(largest_packet(taken.drop_last()) as int, taken.last().packet_number as int) as u64
    }
}

/// The controller after an acknowledgment that took `taken`: one report per
/// range, then one end mark, and nothing at all if the acknowledgment took nothing.
pub open spec fn controller_after_ack<C: CongestionController>(
    controller: C,
    taken: Seq<TcpSentSample>,
    bytes_before: int,
    bytes_after: u32,
    ack: TcpRecoveryAck,
) -> C {
    if taken.len() == 0 {
        controller
    } else {
        delivered_to(controller, taken, bytes_before, ack).after_end_acks(
            ack.now,
            bytes_after,
            ack.app_limited,
            largest_packet(taken),
        )
    }
}

/// The round trip of the last range that was not retransmitted.
pub open spec fn latest_round_trip(taken: Seq<TcpSentSample>, now: Instant) -> Option<Duration>
    decreases taken.len(),
{
    if taken.len() == 0 {
        None
    } else if !taken.last().retransmitted {
        Some(round_trip(taken.last(), now))
    } else {
        latest_round_trip(taken.drop_last(), now)
    }
}

// The scoreboard

/// The ranges of `[hole_start, high)` that `samples` leave uncovered.
pub open spec fn gaps_from(
    samples: Seq<TcpSentSample>,
    hole_start: TcpSeq,
    ack: TcpSeq,
    high: TcpSeq,
) -> Seq<TcpScoreboardHole>
    decreases samples.len(),
{
    if samples.len() == 0 {
        if hole_start.before(high) {
            seq![TcpScoreboardHole { start: hole_start, end: high, lost: false }]
        } else {
            seq![]
        }
    } else if samples[0].end_sequence.at_or_before(ack) {
        gaps_from(samples.drop_first(), hole_start, ack, high)
    } else {
        let end = samples[0].sequence.spec_earlier(high);
        let gap = if samples[0].sequence.after(hole_start) && end.after(hole_start) {
            seq![TcpScoreboardHole { start: hole_start, end, lost: false }]
        } else {
            seq![]
        };
        let next = hole_start.spec_later(samples[0].end_sequence);
        if next.at_or_after(high) {
            gap
        } else {
            gap + gaps_from(samples.drop_first(), next, ack, high)
        }
    }
}

/// The outstanding bytes between holes from hole `index` upward.
pub open spec fn sacked_ahead(holes: Seq<TcpScoreboardHole>, index: int) -> u32
    decreases holes.len() - index,
{
    if index >= holes.len() - 1 {
        0
    } else {
        arith::saturate_u32(
            sacked_ahead(holes, index + 1) + holes[index].end.spec_distance_to(
                holes[index + 1].start,
            ),
        )
    }
}

/// A hole is lost when enough holes, or enough bytes, lie above it.
pub open spec fn hole_is_lost(
    holes: Seq<TcpScoreboardHole>,
    index: int,
    reorder: u32,
    max_datagram_size: u32,
) -> bool {
    let limit = vstd::math::max(reorder as int, TCP_DUPACK_THRESHOLD as int);
    let threshold = arith::saturate_u32((limit - 1) * vstd::math::max(max_datagram_size as int, 1));
    arith::saturate_u32(holes.len() - 1 - index) >= limit || sacked_ahead(holes, index) > threshold
}

/// Every hole with its loss decided.
pub open spec fn holes_decided(
    holes: Seq<TcpScoreboardHole>,
    reorder: u32,
    max_datagram_size: u32,
) -> Seq<TcpScoreboardHole> {
    Seq::new(
        holes.len(),
        |i: int|
            TcpScoreboardHole {
                lost: hole_is_lost(holes, i, reorder, max_datagram_size),
                ..holes[i]
            },
    )
}

/// The sample overlaps one of the holes from `first` on that is marked lost.
pub open spec fn in_lost_hole(
    sample: TcpSentSample,
    holes: Seq<TcpScoreboardHole>,
    first: int,
) -> bool {
    exists|k: int|
        first <= k < holes.len() && (#[trigger] holes[k]).lost && holes[k].end.after(holes[k].start)
            && sample.spec_overlaps(holes[k].start, holes[k].end)
}

/// Every sample that overlaps a lost hole becomes lost.
pub open spec fn samples_marked(
    samples: Seq<TcpSentSample>,
    holes: Seq<TcpScoreboardHole>,
    first: int,
) -> Seq<TcpSentSample> {
    Seq::new(
        samples.len(),
        |i: int|
            TcpSentSample {
                lost: samples[i].lost || in_lost_hole(samples[i], holes, first),
                ..samples[i]
            },
    )
}

/// The holes that reach past `ack`.
pub open spec fn holes_past(holes: Seq<TcpScoreboardHole>, ack: TcpSeq) -> Seq<TcpScoreboardHole>
    decreases holes.len(),
{
    if holes.len() == 0 {
        seq![]
    } else if holes.last().end.at_or_before(ack) {
        holes_past(holes.drop_last(), ack)
    } else {
        holes_past(holes.drop_last(), ack).push(holes.last())
    }
}

/// The highest hole that `ack` falls strictly inside of.
pub open spec fn crossed_hole(
    holes: Seq<TcpScoreboardHole>,
    ack: TcpSeq,
) -> Option<TcpScoreboardHole>
    decreases holes.len(),
{
    if holes.len() == 0 {
        None
    } else if !holes.last().end.at_or_before(ack) && holes.last().start.before(ack) {
        Some(holes.last())
    } else {
        crossed_hole(holes.drop_last(), ack)
    }
}

/// The position of the hole that starts at `start`, or the length.
pub open spec fn hole_at(holes: Seq<TcpScoreboardHole>, start: TcpSeq) -> int
    decreases holes.len(),
{
    if holes.len() == 0 {
        0
    } else if holes[0].start == start {
        0
    } else {
        1 + hole_at(holes.drop_first(), start)
    }
}

/// How many holes at the front start before `start`.
pub open spec fn holes_below(holes: Seq<TcpScoreboardHole>, start: TcpSeq) -> int
    decreases holes.len(),
{
    if holes.len() == 0 || !holes[0].start.before(start) {
        0
    } else {
        1 + holes_below(holes.drop_first(), start)
    }
}

/// The holes without the one that starts at `start`.
pub open spec fn hole_removed(
    holes: Seq<TcpScoreboardHole>,
    start: TcpSeq,
) -> Seq<TcpScoreboardHole> {
    let index = hole_at(holes, start);
    if index < holes.len() {
        holes.remove(index)
    } else {
        holes
    }
}

/// The holes with `hole` in its place, in place of one with the same start.
pub open spec fn hole_inserted(
    holes: Seq<TcpScoreboardHole>,
    hole: TcpScoreboardHole,
) -> Seq<TcpScoreboardHole> {
    let index = hole_at(holes, hole.start);
    if index < holes.len() {
        holes.update(index, hole)
    } else {
        holes.insert(holes_below(holes, hole.start), hole)
    }
}

/// The holes cut off at `ack`.
pub open spec fn holes_trimmed(
    holes: Seq<TcpScoreboardHole>,
    ack: TcpSeq,
) -> Seq<TcpScoreboardHole> {
    let past = holes_past(holes, ack);
    match crossed_hole(holes, ack) {
        Some(crossed) => hole_inserted(
            hole_removed(past, crossed.start),
            TcpScoreboardHole { start: ack, ..crossed },
        ),
        None => past,
    }
}

/// The holes with the one between `ack` and the first sample present.
pub open spec fn holes_led(
    holes: Seq<TcpScoreboardHole>,
    first: TcpSentSample,
    ack: TcpSeq,
    high: TcpSeq,
) -> Seq<TcpScoreboardHole> {
    if first.sequence.after(ack) && ack.before(high) {
        let end = first.sequence.spec_earlier(high);
        let index = hole_at(holes, ack);
        if index < holes.len() {
            if holes[index].end.before(end) {
                holes.update(index, TcpScoreboardHole { end, ..holes[index] })
            } else {
                holes
            }
        } else {
            hole_inserted(holes, TcpScoreboardHole { start: ack, end, lost: false })
        }
    } else {
        holes
    }
}

// Transitions of the whole state

pub open spec fn idle_episode() -> RecoveryEpisode {
    RecoveryEpisode {
        active: false,
        window: 0,
        prev_window: 0,
        delivered: 0,
        retransmitted: 0,
        new_data: 0,
        end_sequence: TcpSeq { value: 0 },
    }
}

pub open spec fn initial_recovery() -> RecoveryModel {
    RecoveryModel {
        next_packet_number: 1,
        samples: seq![],
        bytes_in_flight: 0,
        ack_floor: TcpSeq { value: 0 },
        holes: seq![],
        high_sacked: TcpSeq { value: 0 },
        high_rxt: TcpSeq { value: 0 },
        reorder: TCP_DUPACK_THRESHOLD,
        rack_timer_armed: false,
        tlp_timer_armed: false,
        episode: idle_episode(),
    }
}

pub open spec fn new_sample(
    packet_number: PacketNumber,
    sequence: TcpSeq,
    end_sequence: TcpSeq,
    bytes: u32,
    payload_len: u32,
    sent_at: Instant,
) -> TcpSentSample {
    TcpSentSample {
        packet_number,
        sequence,
        end_sequence,
        bytes,
        payload_len,
        retransmitted: false,
        lost: false,
        rack_deadline: None,
        sent_at,
    }
}

/// The position of the lowest lost range that was not retransmitted, or the length.
pub open spec fn first_lost(samples: Seq<TcpSentSample>) -> int
    decreases samples.len(),
{
    if samples.len() == 0 {
        0
    } else if samples[0].lost && !samples[0].retransmitted {
        0
    } else {
        1 + first_lost(samples.drop_first())
    }
}

/// The RACK deadline of the sample has passed at `now`.
pub open spec fn rack_expired(sample: TcpSentSample, now: Instant) -> bool {
    sample.pending() && sample.rack_deadline->0.nanos <= now.nanos
}

/// The first `count` samples with the expired ones marked lost.
pub open spec fn expired_marked(
    samples: Seq<TcpSentSample>,
    now: Instant,
    count: int,
) -> Seq<TcpSentSample> {
    Seq::new(
        samples.len(),
        |i: int|
            if i < count && rack_expired(samples[i], now) {
                TcpSentSample { lost: true, rack_deadline: None, ..samples[i] }
            } else {
                samples[i]
            },
    )
}

/// The controller after a loss report for each expired sample among the first `count`.
pub open spec fn losses_reported<C: CongestionController>(
    controller: C,
    samples: Seq<TcpSentSample>,
    now: Instant,
    count: int,
) -> C
    decreases count,
{
    if count <= 0 {
        controller
    } else {
        let before = losses_reported(controller, samples, now, count - 1);
        if rack_expired(samples[count - 1], now) {
            before.after_loss(now, lost_packet(samples[count - 1]), false)
        } else {
            before
        }
    }
}

pub open spec fn any_expired(samples: Seq<TcpSentSample>, now: Instant, count: int) -> bool {
    exists|i: int| 0 <= i < count && rack_expired(#[trigger] samples[i], now)
}

/// The samples that end below `high` get `deadline` where they have none.
pub open spec fn candidates_marked(
    samples: Seq<TcpSentSample>,
    high: TcpSeq,
    deadline: Instant,
    count: int,
) -> Seq<TcpSentSample> {
    Seq::new(
        samples.len(),
        |i: int|
            if i < count && rack_candidate(samples[i], high) {
                TcpSentSample { rack_deadline: Some(deadline), ..samples[i] }
            } else {
                samples[i]
            },
    )
}

pub open spec fn rack_candidate(sample: TcpSentSample, high: TcpSeq) -> bool {
    sample.end_sequence.before(high) && !sample.lost && sample.rack_deadline is None
}

impl RecoveryModel {
    pub open spec fn has_pending(self) -> bool {
        earliest_deadline(self.samples) is Some
    }

    pub open spec fn recorded(self, sample: TcpSentSample) -> RecoveryModel {
        RecoveryModel {
            samples: self.samples.push(sample),
            bytes_in_flight: arith::saturate_u32(self.bytes_in_flight + sample.bytes),
            tlp_timer_armed: true,
            ..self
        }
    }

    /// The taken ranges are gone and credited to the episode.
    pub open spec fn taken(
        self,
        taken: Seq<TcpSentSample>,
        rest: Seq<TcpSentSample>,
    ) -> RecoveryModel {
        RecoveryModel {
            samples: rest,
            bytes_in_flight: arith::saturate_u32(self.bytes_in_flight - total_bytes(taken)),
            episode: if self.episode.active {
                RecoveryEpisode {
                    delivered: arith::saturate_u32(self.episode.delivered + total_bytes(taken)),
                    ..self.episode
                }
            } else {
                self.episode
            },
            ..self
        }
    }

    /// The scoreboard made anew from the samples.
    pub open spec fn rebuilt(
        self,
        ack: TcpSeq,
        high_sacked: TcpSeq,
        max_datagram_size: u32,
    ) -> RecoveryModel {
        let high = high_sacked.spec_later(ack);
        let reset = RecoveryModel {
            high_sacked: high,
            high_rxt: ack,
            reorder: TCP_DUPACK_THRESHOLD,
            ..self
        };
        if self.samples.len() == 0 || high.at_or_before(ack) {
            RecoveryModel { holes: seq![], ..reset }
        } else {
            reset.with_holes(gaps_from(self.samples, ack, ack, high), max_datagram_size)
        }
    }

    /// The scoreboard brought up to a new cumulative acknowledgment.
    pub open spec fn advanced(self, ack: TcpSeq, max_datagram_size: u32) -> RecoveryModel {
        let high = self.high_sacked.spec_later(ack);
        let moved = RecoveryModel { high_sacked: high, high_rxt: ack, ..self };
        if self.samples.len() == 0 || high.at_or_before(ack) {
            RecoveryModel { holes: seq![], ..moved }
        } else {
            moved.with_holes(
                holes_led(holes_trimmed(self.holes, ack), self.samples[0], ack, high),
                max_datagram_size,
            )
        }
    }

    /// `holes` with their losses decided and carried over to the samples.
    pub open spec fn with_holes(
        self,
        holes: Seq<TcpScoreboardHole>,
        max_datagram_size: u32,
    ) -> RecoveryModel {
        let decided = holes_decided(holes, self.reorder, max_datagram_size);
        RecoveryModel {
            holes: decided,
            samples: samples_marked(self.samples, decided, 0),
            ..self
        }
    }

    /// The episode ends once everything sent before it is acknowledged.
    pub open spec fn maybe_finished(self, ack: TcpSeq) -> RecoveryModel {
        if self.episode.active && ack.at_or_after(self.episode.end_sequence) {
            RecoveryModel { episode: idle_episode(), ..self }
        } else {
            self
        }
    }

    /// The lowest outstanding range is marked lost, unless a deadline runs for it.
    pub open spec fn head_queued(self) -> RecoveryModel {
        if self.samples.len() == 0 || self.samples[0].rack_deadline is Some || self.samples[0].lost {
            self
        } else {
            let marked = RecoveryModel {
                samples: self.samples.update(
                    0,
                    TcpSentSample { lost: true, ..self.samples[0] },
                ),
                ..self
            };
            RecoveryModel { rack_timer_armed: marked.has_pending(), ..marked }
        }
    }

    pub open spec fn tlp_refreshed(self) -> RecoveryModel {
        RecoveryModel { tlp_timer_armed: self.bytes_in_flight != 0, ..self }
    }

    /// A cumulative acknowledgment.
    pub open spec fn acked(self, ack: TcpSeq, max_datagram_size: u32) -> RecoveryModel {
        let taken = acked_part(self.samples, ack);
        let settled = RecoveryModel { ack_floor: ack, ..self }.taken(
            taken,
            unacked_part(self.samples, ack),
        ).advanced(ack, max_datagram_size).maybe_finished(ack);
        (if settled.episode.active && taken.len() > 0 {
            settled.head_queued()
        } else {
            settled
        }).tlp_refreshed()
    }

    /// Everything that an acknowledgment with SACK blocks takes.
    pub open spec fn sack_taken(
        self,
        ack: TcpSeq,
        blocks: Seq<TcpSackBlock>,
    ) -> Seq<TcpSentSample> {
        acked_part(self.samples, ack) + all_sacked(
            unacked_part(self.samples, ack),
            blocks,
            blocks.len() as int,
        )
    }

    /// Every sample below `high` that has no deadline gets `deadline`.
    pub open spec fn rack_marked(self, high: TcpSeq, deadline: Instant) -> RecoveryModel {
        let marked = RecoveryModel {
            samples: candidates_marked(self.samples, high, deadline, self.samples.len() as int),
            ..self
        };
        RecoveryModel { rack_timer_armed: marked.has_pending(), ..marked }
    }

    /// An acknowledgment with SACK blocks.
    pub open spec fn sacked(
        self,
        ack: TcpRecoveryAck,
        blocks: Seq<TcpSackBlock>,
        max_datagram_size: u32,
    ) -> RecoveryModel {
        let floor = ack.acknowledgment;
        let high = highest_right_edge(floor, blocks, blocks.len() as int);
        let settled = RecoveryModel { ack_floor: floor, ..self }.taken(
            self.sack_taken(floor, blocks),
            all_unsacked(unacked_part(self.samples, floor), blocks, blocks.len() as int),
        ).rebuilt(floor, high, max_datagram_size).maybe_finished(floor);
        (if high != floor {
            settled.rack_marked(
                high,
                Instant { nanos: (ack.now.nanos + ack.reordering_window.nanos) as u128 },
            )
        } else {
            settled
        }).tlp_refreshed()
    }

    /// The episode that starts with a loss, or the one under way with its
    /// window held to what the controller now allows.
    pub open spec fn episode_after_loss(
        self,
        started: bool,
        window_before: u32,
        window_after: u32,
        snd_nxt: TcpSeq,
    ) -> RecoveryEpisode {
        if started {
            RecoveryEpisode {
                active: true,
                window: window_after,
                prev_window: vstd::math::max(window_before as int, 1) as u32,
                delivered: 0,
                retransmitted: 0,
                new_data: 0,
                end_sequence: snd_nxt,
            }
        } else if self.episode.active {
            RecoveryEpisode {
                window: vstd::math::min(self.episode.window as int, window_after as int) as u32,
                ..self.episode
            }
        } else {
            self.episode
        }
    }

    /// The RACK timer fired.
    pub open spec fn rack_timed_out(
        self,
        now: Instant,
        snd_nxt: TcpSeq,
        window_before: u32,
        window_after: u32,
    ) -> RecoveryModel {
        let count = self.samples.len() as int;
        let started = !self.episode.active && any_expired(self.samples, now, count);
        let marked = RecoveryModel {
            samples: expired_marked(self.samples, now, count),
            episode: self.episode_after_loss(started, window_before, window_after, snd_nxt),
            ..self
        };
        RecoveryModel { rack_timer_armed: marked.has_pending(), ..marked }.tlp_refreshed()
    }

    /// The lowest lost range goes out again.
    pub open spec fn retransmit_taken(self) -> RecoveryModel {
        let index = first_lost(self.samples);
        if index < self.samples.len() {
            let sample = self.samples[index];
            let taken = RecoveryModel {
                samples: self.samples.update(
                    index,
                    TcpSentSample { retransmitted: true, rack_deadline: None, ..sample },
                ),
                high_rxt: sample.end_sequence,
                ..self
            };
            RecoveryModel { rack_timer_armed: taken.has_pending(), ..taken }
        } else {
            self
        }
    }

    /// The newest range goes out again as a probe.
    pub open spec fn probe_taken(self) -> RecoveryModel {
        if self.samples.len() == 0 {
            self
        } else {
            let last = self.samples.len() - 1;
            RecoveryModel {
                samples: self.samples.update(
                    last,
                    TcpSentSample { retransmitted: true, ..self.samples[last] },
                ),
                tlp_timer_armed: false,
                ..self
            }
        }
    }

    /// The retransmission timer fired with something outstanding.
    pub open spec fn retransmission_timed_out(
        self,
        snd_nxt: TcpSeq,
        window_before: u32,
        window_after: u32,
    ) -> RecoveryModel {
        let held = self.episode_after_loss(
            !self.episode.active,
            window_before,
            window_after,
            snd_nxt,
        );
        RecoveryModel {
            samples: self.samples.update(
                0,
                TcpSentSample { retransmitted: true, rack_deadline: None, ..self.samples[0] },
            ),
            episode: RecoveryEpisode {
                end_sequence: if self.episode.active && snd_nxt.after(self.episode.end_sequence) {
                    snd_nxt
                } else {
                    held.end_sequence
                },
                ..held
            },
            rack_timer_armed: false,
            ..self
        }.tlp_refreshed()
    }

    /// Proportional rate reduction: how much may be sent during an episode.
    pub open spec fn send_space(self, bytes_in_flight: u32, max_datagram_size: u32) -> Option<u32> {
        if !self.episode.active {
            None
        } else {
            let mss = vstd::math::max(max_datagram_size as int, 1);
            let sent = arith::saturate_u32(self.episode.retransmitted + self.episode.new_data);
            let space = if bytes_in_flight > self.episode.window {
                arith::saturate_u32(
                    arith::saturate_u32(
                        (self.episode.delivered * self.episode.window) / vstd::math::max(
                            self.episode.prev_window as int,
                            1,
                        ),
                    ) - sent,
                )
            } else {
                vstd::math::min(
                    self.episode.window - bytes_in_flight,
                    arith::saturate_u32(arith::saturate_u32(self.episode.delivered - sent) + mss) as int,
                ) as u32
            };
            Some(
                if sent == 0 {
                    vstd::math::max(space as int, mss) as u32
                } else {
                    space
                },
            )
        }
    }

    /// The tail loss probe timeout: two round trips, between 10 ms and the
    /// retransmission timeout.
    pub open spec fn probe_timeout(self, srtt: Option<Duration>, rto: Duration) -> Option<Duration> {
        if !self.tlp_timer_armed || self.bytes_in_flight == 0 {
            None
        } else {
            let base = match srtt {
                Some(rtt) => rtt,
                None => rto,
            };
            let doubled = if base.nanos * 2 <= MAX_DURATION_NANOS {
                base.nanos * 2
            } else {
                rto.nanos as int
            };
            Some(
                Duration {
                    nanos: vstd::math::min(
                        vstd::math::max(doubled, TCP_MIN_TLP_TIMEOUT_NANOS as int),
                        rto.nanos as int,
                    ) as u128,
                },
            )
        }
    }
}

} // verus!
