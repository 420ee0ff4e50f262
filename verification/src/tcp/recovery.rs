//! Loss recovery: RACK, tail loss probes, the SACK scoreboard and proportional
//! rate reduction.
//!
//! Samples are kept in the order they were sent, which is increasing sequence
//! order. The earliest RACK deadline and the lost byte count are kept beside
//! them and always agree with a scan of the whole list.
use vstd::prelude::*;

use crate::arith;
use crate::arith::{max_u32, max_u64, min_u32, narrow_u32, saturating_mul_u128, saturating_mul_u32};
use crate::congestion::{AckedPacket, CongestionController, LostPacket, PacketNumber, RttSample};
use crate::tcp::key_collector::ScoreboardKeyCollector;
use crate::tcp::recovery_model as model;
use crate::tcp::recovery_model::{
    RecoveryEpisode, RecoveryModel, TcpRecoveryAck, TcpSackBlock, TcpScoreboardHole, TcpSentSample,
    TCP_DUPACK_THRESHOLD, TCP_MIN_TLP_TIMEOUT_NANOS,
};
use crate::tcp::sequence::TcpSeq;
use crate::time::{Duration, Instant};

verus! {

/// The share of `payload_len` that falls to `portion_bytes` out of `bytes`.
pub fn proportional_payload_len(bytes: u32, payload_len: u32, portion_bytes: u32) -> (r: u32)
    ensures
        r == model::payload_share(bytes, payload_len, portion_bytes),
{
    if bytes == 0 || payload_len == 0 || portion_bytes == 0 {
        return 0;
    }
    proof {
        assert(payload_len * portion_bytes <= u32::MAX * u32::MAX) by (nonlinear_arith)
            requires
                0 <= payload_len <= u32::MAX,
                0 <= portion_bytes <= u32::MAX,
        ;
        assert(0 <= payload_len * portion_bytes) by (nonlinear_arith)
            requires
                0 <= payload_len,
                0 <= portion_bytes,
        ;
    }
    let payload: u64 = (payload_len as u64 * portion_bytes as u64) / bytes as u64;
    if payload < payload_len as u64 {
        payload as u32
    } else {
        payload_len
    }
}

impl TcpSentSample {
    pub fn covers(self, sequence: TcpSeq) -> (r: bool)
        ensures
            r == self.spec_covers(sequence),
    {
        self.sequence.is_at_or_before(sequence) && self.end_sequence.is_after(sequence)
    }

    pub fn overlaps(self, start: TcpSeq, end: TcpSeq) -> (r: bool)
        ensures
            r == self.spec_overlaps(start, end),
    {
        self.end_sequence.is_after(start) && self.sequence.is_before(end)
    }

    /// The parts of the sample below and from `at` on.
    pub fn split(self, at: TcpSeq) -> (r: (TcpSentSample, TcpSentSample))
        ensures
            r.0 == self.prefix(at),
            r.1 == self.suffix(at),
    {
        let left_bytes: u32 = self.sequence.distance_to(at);
        let left_payload_len: u32 = proportional_payload_len(
            self.bytes,
            self.payload_len,
            left_bytes,
        );
        (
            TcpSentSample {
                end_sequence: at,
                bytes: left_bytes,
                payload_len: left_payload_len,
                ..self
            },
            TcpSentSample {
                sequence: at,
                bytes: self.bytes.saturating_sub(left_bytes),
                payload_len: self.payload_len.saturating_sub(left_payload_len),
                ..self
            },
        )
    }
}

/// The ranges below the highest SACK that no outstanding sample covers.
#[derive(Debug)]
pub struct TcpScoreboard {
    holes: Vec<TcpScoreboardHole>,
    high_sacked: TcpSeq,
    high_rxt: TcpSeq,
    lost_bytes: u32,
    reorder: u32,
}

/// A copy of the scoreboard for inspection.
pub struct ScoreboardSnapshot {
    pub holes: Vec<TcpScoreboardHole>,
    pub high_sacked: TcpSeq,
    pub high_rxt: TcpSeq,
    pub lost_bytes: u32,
}

/// The loss recovery state of one connection.
#[derive(Debug)]
pub struct TcpRecoveryState {
    next_packet_number: PacketNumber,
    sent_samples: Vec<TcpSentSample>,
    bytes_in_flight: u32,
    ack_floor: TcpSeq,
    scoreboard: TcpScoreboard,
    rack_earliest: Option<Instant>,
    rack_timer_armed: bool,
    tlp_timer_armed: bool,
    episode: RecoveryEpisode,
}

impl View for TcpRecoveryState {
    type V = RecoveryModel;

    closed spec fn view(&self) -> RecoveryModel {
        RecoveryModel {
            next_packet_number: self.next_packet_number,
            samples: self.sent_samples@,
            bytes_in_flight: self.bytes_in_flight,
            ack_floor: self.ack_floor,
            holes: self.scoreboard.holes@,
            high_sacked: self.scoreboard.high_sacked,
            high_rxt: self.scoreboard.high_rxt,
            reorder: self.scoreboard.reorder,
            rack_timer_armed: self.rack_timer_armed,
            tlp_timer_armed: self.tlp_timer_armed,
            episode: self.episode,
        }
    }
}

// Facts about lists of samples

/// A list whose pending deadlines are those of another, or some of them with the
/// least still among them, has the same earliest deadline.
proof fn lemma_same_earliest(a: Seq<TcpSentSample>, b: Seq<TcpSentSample>)
    requires
        forall|j: int|
            0 <= j < b.len() && (#[trigger] b[j]).pending() ==> exists|i: int|
                0 <= i < a.len() && (#[trigger] a[i]).pending() && a[i].rack_deadline
                    == b[j].rack_deadline,
        forall|i: int|
            0 <= i < a.len() && (#[trigger] a[i]).pending() && a[i].rack_deadline
                == model::earliest_deadline(a) ==> exists|j: int|
                0 <= j < b.len() && (#[trigger] b[j]).pending() && b[j].rack_deadline
                    == a[i].rack_deadline,
    ensures
        model::earliest_deadline(b) == model::earliest_deadline(a),
{
    let found = model::earliest_deadline(a);
    model::earliest_is_least(a);
    model::earliest_is_least(b);
    match found {
        Some(least) => {
            let i = choose|i: int|
                0 <= i < a.len() && (#[trigger] a[i]).pending() && a[i].rack_deadline == Some(
                    least,
                );
            assert(a[i].pending());
            let j = choose|j: int|
                0 <= j < b.len() && (#[trigger] b[j]).pending() && b[j].rack_deadline
                    == a[i].rack_deadline;
            assert(b[j].pending());
            assert forall|k: int| 0 <= k < b.len() && (#[trigger] b[k]).pending() implies
                b[k].rack_deadline->0.nanos >= least.nanos by {
                let m = choose|m: int|
                    0 <= m < a.len() && (#[trigger] a[m]).pending() && a[m].rack_deadline
                        == b[k].rack_deadline;
                assert(a[m].pending());
            }
        },
        None => {
            assert forall|k: int| 0 <= k < b.len() implies !(#[trigger] b[k]).pending() by {
                if b[k].pending() {
                    let m = choose|m: int|
                        0 <= m < a.len() && (#[trigger] a[m]).pending() && a[m].rack_deadline
                            == b[k].rack_deadline;
                    assert(a[m].pending());
                }
            }
        },
    }
    assert(model::is_earliest(b, found));
    model::earliest_unique(b, found, model::earliest_deadline(b));
}

/// Removing a sample that does not hold the earliest deadline keeps it.
proof fn lemma_earliest_remove(samples: Seq<TcpSentSample>, index: int)
    requires
        0 <= index < samples.len(),
        !(samples[index].pending() && samples[index].rack_deadline == model::earliest_deadline(samples)),
    ensures
        model::earliest_deadline(samples.remove(index)) == model::earliest_deadline(samples),
{
    let rest = samples.remove(index);
    assert forall|j: int| 0 <= j < rest.len() && (#[trigger] rest[j]).pending() implies exists|
        i: int,
    |
        0 <= i < samples.len() && (#[trigger] samples[i]).pending() && samples[i].rack_deadline
            == rest[j].rack_deadline by {
        let i = if j < index {
            j
        } else {
            j + 1
        };
        assert(samples[i] == rest[j]);
    }
    assert forall|i: int|
        0 <= i < samples.len() && (#[trigger] samples[i]).pending() && samples[i].rack_deadline
            == model::earliest_deadline(samples) implies exists|j: int|
        0 <= j < rest.len() && (#[trigger] rest[j]).pending() && rest[j].rack_deadline
            == samples[i].rack_deadline by {
        let j = if i < index {
            i
        } else {
            i - 1
        };
        assert(samples[i] == rest[j]);
    }
    lemma_same_earliest(samples, rest);
}

/// Replacing a sample by one with the same deadline and loss mark keeps the
/// earliest deadline.
proof fn lemma_earliest_update(samples: Seq<TcpSentSample>, index: int, sample: TcpSentSample)
    requires
        0 <= index < samples.len(),
        sample.pending() == samples[index].pending(),
        sample.pending() ==> sample.rack_deadline == samples[index].rack_deadline,
    ensures
        model::earliest_deadline(samples.update(index, sample)) == model::earliest_deadline(samples),
{
    let other = samples.update(index, sample);
    assert forall|j: int| 0 <= j < other.len() && (#[trigger] other[j]).pending() implies exists|
        i: int,
    |
        0 <= i < samples.len() && (#[trigger] samples[i]).pending() && samples[i].rack_deadline
            == other[j].rack_deadline by {
        assert(samples[j].pending());
    }
    assert forall|i: int|
        0 <= i < samples.len() && (#[trigger] samples[i]).pending() && samples[i].rack_deadline
            == model::earliest_deadline(samples) implies exists|j: int|
        0 <= j < other.len() && (#[trigger] other[j]).pending() && other[j].rack_deadline
            == samples[i].rack_deadline by {
        assert(other[i].pending());
    }
    lemma_same_earliest(samples, other);
}

/// A second sample with the deadline and loss mark of one in the list changes
/// nothing about the earliest deadline.
proof fn lemma_earliest_insert(samples: Seq<TcpSentSample>, index: int, sample: TcpSentSample)
    requires
        0 <= index < samples.len(),
        sample.pending() == samples[index].pending(),
        sample.pending() ==> sample.rack_deadline == samples[index].rack_deadline,
    ensures
        model::earliest_deadline(samples.insert(index, sample)) == model::earliest_deadline(samples),
{
    let other = samples.insert(index, sample);
    assert forall|j: int| 0 <= j < other.len() && (#[trigger] other[j]).pending() implies exists|
        i: int,
    |
        0 <= i < samples.len() && (#[trigger] samples[i]).pending() && samples[i].rack_deadline
            == other[j].rack_deadline by {
        let i = if j <= index {
            j
        } else {
            j - 1
        };
        assert(j == index || samples[i] == other[j]);
        assert(samples[i].pending());
    }
    assert forall|i: int|
        0 <= i < samples.len() && (#[trigger] samples[i]).pending() && samples[i].rack_deadline
            == model::earliest_deadline(samples) implies exists|j: int|
        0 <= j < other.len() && (#[trigger] other[j]).pending() && other[j].rack_deadline
            == samples[i].rack_deadline by {
        let j = if i < index {
            i
        } else {
            i + 1
        };
        assert(samples[i] == other[j]);
    }
    lemma_same_earliest(samples, other);
}

proof fn lemma_lost_total_nonnegative(samples: Seq<TcpSentSample>)
    ensures
        model::lost_total(samples) >= 0,
    decreases samples.len(),
{
    if samples.len() > 0 {
        lemma_lost_total_nonnegative(samples.drop_last());
    }
}

/// A list that differs only in places that do not count keeps its lost total.
proof fn lemma_lost_total_same(a: Seq<TcpSentSample>, b: Seq<TcpSentSample>)
    requires
        a.len() == b.len(),
        forall|i: int|
            0 <= i < a.len() ==> (#[trigger] a[i]).lost == b[i].lost && a[i].bytes == b[i].bytes,
    ensures
        model::lost_total(a) == model::lost_total(b),
    decreases a.len(),
{
    if a.len() > 0 {
        assert forall|i: int| 0 <= i < a.drop_last().len() implies (
        #[trigger] a.drop_last()[i]).lost == b.drop_last()[i].lost && a.drop_last()[i].bytes
            == b.drop_last()[i].bytes by {
            assert(a[i].lost == b[i].lost);
        }
        lemma_lost_total_same(a.drop_last(), b.drop_last());
        assert(a[a.len() - 1].lost == b[b.len() - 1].lost);
    }
}

/// The first lost sample is found by skipping those before it that do not qualify.
proof fn lemma_first_lost_at(samples: Seq<TcpSentSample>, index: int)
    requires
        0 <= index <= samples.len(),
        forall|i: int|
            0 <= i < index ==> !((#[trigger] samples[i]).lost && !samples[i].retransmitted),
        index < samples.len() ==> samples[index].lost && !samples[index].retransmitted,
    ensures
        model::first_lost(samples) == index,
    decreases index,
{
    if samples.len() > 0 && index > 0 {
        let rest = samples.drop_first();
        assert forall|i: int| 0 <= i < index - 1 implies !((#[trigger] rest[i]).lost
            && !rest[i].retransmitted) by {
            assert(rest[i] == samples[i + 1]);
        }
        assert(!(samples[0].lost && !samples[0].retransmitted));
        lemma_first_lost_at(rest, index - 1);
    }
}

proof fn lemma_hole_at(holes: Seq<TcpScoreboardHole>, start: TcpSeq, index: int)
    requires
        0 <= index <= holes.len(),
        forall|i: int| 0 <= i < index ==> (#[trigger] holes[i]).start != start,
        index < holes.len() ==> holes[index].start == start,
    ensures
        model::hole_at(holes, start) == index,
    decreases index,
{
    if holes.len() > 0 && index > 0 {
        let rest = holes.drop_first();
        assert forall|i: int| 0 <= i < index - 1 implies (#[trigger] rest[i]).start != start by {
            assert(rest[i] == holes[i + 1]);
        }
        assert(holes[0].start != start);
        lemma_hole_at(rest, start, index - 1);
    }
}

proof fn lemma_holes_below(holes: Seq<TcpScoreboardHole>, start: TcpSeq, index: int)
    requires
        0 <= index <= holes.len(),
        forall|i: int| 0 <= i < index ==> (#[trigger] holes[i]).start.before(start),
        index < holes.len() ==> !holes[index].start.before(start),
    ensures
        model::holes_below(holes, start) == index,
    decreases index,
{
    if holes.len() > 0 && index > 0 {
        let rest = holes.drop_first();
        assert forall|i: int| 0 <= i < index - 1 implies (#[trigger] rest[i]).start.before(
            start,
        ) by {
            assert(rest[i] == holes[i + 1]);
        }
        assert(holes[0].start.before(start));
        lemma_holes_below(rest, start, index - 1);
    }
}

/// Reading a list that was put together from three parts.
proof fn lemma_three_parts(front: Seq<TcpSentSample>, pieces: Seq<TcpSentSample>, rest: Seq<TcpSentSample>)
    ensures
        (front + pieces + rest).take((front.len() + pieces.len()) as int) == front + pieces,
        (front + pieces + rest).skip((front.len() + pieces.len()) as int) == rest,
{
    let whole = front + pieces + rest;
    let cut = (front.len() + pieces.len()) as int;
    assert(whole.take(cut) =~= front + pieces);
    assert(whole.skip(cut) =~= rest);
}

// Operations on the list of holes

fn find_hole(holes: &Vec<TcpScoreboardHole>, start: TcpSeq) -> (r: usize)
    ensures
        r == model::hole_at(holes@, start),
        r <= holes.len(),
{
    let mut i: usize = 0;
    while i < holes.len() && holes[i].start != start
        invariant
            i <= holes.len(),
            forall|k: int| 0 <= k < i ==> (#[trigger] holes@[k]).start != start,
        decreases holes.len() - i,
    {
        i = i + 1;
    }
    proof {
        lemma_hole_at(holes@, start, i as int);
    }
    i
}

fn remove_hole(holes: &mut Vec<TcpScoreboardHole>, start: TcpSeq)
    ensures
        final(holes)@ == model::hole_removed(old(holes)@, start),
{
    let index: usize = find_hole(holes, start);
    if index < holes.len() {
        holes.remove(index);
    }
}

fn insert_hole(holes: &mut Vec<TcpScoreboardHole>, hole: TcpScoreboardHole)
    ensures
        final(holes)@ == model::hole_inserted(old(holes)@, hole),
{
    let index: usize = find_hole(holes, hole.start);
    if index < holes.len() {
        holes.set(index, hole);
        return;
    }
    let mut place: usize = 0;
    while place < holes.len() && holes[place].start.is_before(hole.start)
        invariant
            place <= holes.len(),
            holes@ == old(holes)@,
            forall|k: int| 0 <= k < place ==> (#[trigger] holes@[k]).start.before(hole.start),
        decreases holes.len() - place,
    {
        place = place + 1;
    }
    proof {
        lemma_holes_below(holes@, hole.start, place as int);
    }
    holes.insert(place, hole);
}

impl TcpRecoveryState {
    /// The stored earliest deadline is the one that a full scan finds.
    pub closed spec fn rack_indexed(self) -> bool {
        self.rack_earliest == model::earliest_deadline(self.sent_samples@)
    }

    /// The stored lost byte count is the sum over the samples marked lost.
    pub closed spec fn lost_counted(self) -> bool {
        self.scoreboard.lost_bytes == arith::saturate_u32(model::lost_total(self.sent_samples@))
    }

    pub open spec fn well_formed(self) -> bool {
        self.rack_indexed() && self.lost_counted()
    }

    pub fn new() -> (r: Self)
        ensures
            r.well_formed(),
            r@ == model::initial_recovery(),
    {
        let r = TcpRecoveryState {
            next_packet_number: 1,
            sent_samples: Vec::new(),
            bytes_in_flight: 0,
            ack_floor: TcpSeq { value: 0 },
            scoreboard: TcpScoreboard {
                holes: Vec::new(),
                high_sacked: TcpSeq { value: 0 },
                high_rxt: TcpSeq { value: 0 },
                lost_bytes: 0,
                reorder: TCP_DUPACK_THRESHOLD,
            },
            rack_earliest: None,
            rack_timer_armed: false,
            tlp_timer_armed: false,
            episode: RecoveryEpisode {
                active: false,
                window: 0,
                prev_window: 0,
                delivered: 0,
                retransmitted: 0,
                new_data: 0,
                end_sequence: TcpSeq { value: 0 },
            },
        };
        assert(r@.samples =~= model::initial_recovery().samples);
        assert(r@.holes =~= model::initial_recovery().holes);
        r
    }

    pub fn next_packet_number(&mut self) -> (r: PacketNumber)
        requires
            old(self).well_formed(),
        ensures
            final(self).well_formed(),
            r == old(self)@.next_packet_number,
            final(self)@ == (RecoveryModel {
                next_packet_number: (if r == u64::MAX {
                    u64::MAX
                } else {
                    (r + 1) as u64
                }),
                ..old(self)@
            }),
    {
        let packet_number: u64 = self.next_packet_number;
        self.next_packet_number = packet_number.saturating_add(1);
        packet_number
    }

    pub fn record_sent(
        &mut self,
        packet_number: PacketNumber,
        sequence: TcpSeq,
        end_sequence: TcpSeq,
        bytes: u32,
        payload_len: u32,
        sent_at: Instant,
    )
        requires
            old(self).well_formed(),
        ensures
            final(self).well_formed(),
            final(self)@ == old(self)@.recorded(
                model::new_sample(packet_number, sequence, end_sequence, bytes, payload_len, sent_at),
            ),
    {
        let sample = TcpSentSample {
            packet_number,
            sequence,
            end_sequence,
            bytes,
            payload_len,
            retransmitted: false,
            lost: false,
            rack_deadline: None,
            sent_at,
        };
        self.sent_samples.push(sample);
        self.bytes_in_flight = self.bytes_in_flight.saturating_add(bytes);
        self.tlp_timer_armed = true;
        proof {
            assert(self.sent_samples@.drop_last() =~= old(self).sent_samples@);
        }
    }

    pub fn bytes_in_flight(&self) -> (r: u32)
        ensures
            r == self@.bytes_in_flight,
    {
        self.bytes_in_flight
    }

    pub fn has_unacked_data(&self) -> (r: bool)
        ensures
            r == (self@.bytes_in_flight != 0),
    {
        self.bytes_in_flight != 0
    }

    pub fn in_recovery(&self) -> (r: bool)
        ensures
            r == self@.episode.active,
    {
        self.episode.active
    }

    /// The time until the earliest RACK deadline.
    pub fn rack_timeout(&self, now: Instant) -> (r: Option<Duration>)
        requires
            self.well_formed(),
        ensures
            r == (match model::earliest_deadline(self@.samples) {
                Some(deadline) => Some(deadline.spec_since(now)),
                None => None,
            }),
    {
        match self.rack_earliest {
            Some(deadline) => Some(deadline.saturating_duration_since(now)),
            None => None,
        }
    }

    pub fn tlp_timeout(&self, srtt: Option<Duration>, rto: Duration) -> (r: Option<Duration>)
        ensures
            r == self@.probe_timeout(srtt, rto),
    {
        if !self.tlp_timer_armed || !self.has_unacked_data() {
            return None;
        }
        let base = match srtt {
            Some(srtt) => srtt,
            None => rto,
        };
        let doubled = match base.checked_mul(2) {
            Some(doubled) => doubled,
            None => rto,
        };
        Some(doubled.longer(Duration { nanos: TCP_MIN_TLP_TIMEOUT_NANOS }).shorter(rto))
    }

    /// Takes what a cumulative acknowledgment covers and tells the controller.
    /// Returns the newest round-trip sample.
    pub fn on_ack<C: CongestionController>(
        &mut self,
        ack: TcpRecoveryAck,
        congestion: &mut C,
    ) -> (r: Option<Duration>)
        requires
            old(self).well_formed(),
            old(congestion).well_formed(),
        ensures
            final(self).well_formed(),
            final(congestion).well_formed(),
            *final(congestion) == model::controller_after_ack(
                *old(congestion),
                model::acked_part(old(self)@.samples, ack.acknowledgment),
                old(self)@.bytes_in_flight as int,
                final(self)@.bytes_in_flight,
                ack,
            ),
            final(self)@ == old(self)@.acked(
                ack.acknowledgment,
                final(congestion).spec_max_datagram_size(),
            ),
            r == model::latest_round_trip(
                model::acked_part(old(self)@.samples, ack.acknowledgment),
                ack.now,
            ),
    {
        self.ack_floor = ack.acknowledgment;
        let (advanced, latest_rtt) = self.process_ack(ack, congestion);
        let max_datagram_size: u32 = congestion.max_datagram_size();
        self.advance_scoreboard_for_ack(ack.acknowledgment, max_datagram_size);
        self.maybe_finish_recovery(ack.acknowledgment);
        if self.episode.active && advanced {
            self.queue_recovery_head();
        }
        self.tlp_timer_armed = self.has_unacked_data();
        latest_rtt
    }

    /// Takes what an acknowledgment and its SACK blocks cover, tells the
    /// controller, and starts RACK deadlines for what they passed over.
    pub fn on_sack_blocks<C: CongestionController>(
        &mut self,
        ack: TcpRecoveryAck,
        blocks: &[TcpSackBlock],
        congestion: &mut C,
    ) -> (r: Option<Duration>)
        requires
            old(self).well_formed(),
            old(congestion).well_formed(),
            ack.now.nanos + ack.reordering_window.nanos <= u128::MAX,
        ensures
            final(self).well_formed(),
            final(congestion).well_formed(),
            ({
                let taken = old(self)@.sack_taken(ack.acknowledgment, blocks@);
                let after = arith::saturate_u32(old(self)@.bytes_in_flight - model::total_bytes(taken));
                &&& *final(congestion) == model::controller_after_ack(
                    *old(congestion),
                    taken,
                    arith::saturate_u32(after + model::total_bytes(taken)) as int,
                    after,
                    ack,
                )
                &&& r == model::latest_round_trip(taken, ack.now)
            }),
            final(self)@ == old(self)@.sacked(
                ack,
                blocks@,
                final(congestion).spec_max_datagram_size(),
            ),
    {
        self.ack_floor = ack.acknowledgment;
        let (mut acked, mut acked_bytes) = self.take_acked_segments(ack.acknowledgment);
        let mut highest_sacked_right = ack.acknowledgment;
        let ghost floor = ack.acknowledgment;
        let ghost before = old(self)@;
        let ghost first = model::acked_part(before.samples, floor);
        let ghost base = model::unacked_part(before.samples, floor);
        let mut i: usize = 0;
        while i < blocks.len()
            invariant
                i <= blocks.len(),
                self.rack_indexed(),
                floor == ack.acknowledgment,
                acked@ == first + model::all_sacked(base, blocks@, i as int),
                acked_bytes == arith::saturate_u32(model::total_bytes(acked@)),
                highest_sacked_right == model::highest_right_edge(floor, blocks@, i as int),
                self@ == (RecoveryModel {
                    ack_floor: floor,
                    samples: model::all_unsacked(base, blocks@, i as int),
                    bytes_in_flight: arith::saturate_u32(before.bytes_in_flight - model::total_bytes(acked@)),
                    ..before
                }),
            decreases blocks.len() - i,
        {
            let block = blocks[i];
            highest_sacked_right = highest_sacked_right.later(block.right_edge);
            let (sacked, sacked_bytes) = self.take_sacked_segments(block);
            acked_bytes = acked_bytes.saturating_add(sacked_bytes);
            let ghost acked_before = acked@;
            let ghost sacked_seq = sacked@;
            let mut sacked = sacked;
            acked.append(&mut sacked);
            proof {
                model::lemma_total_bytes_concat(acked_before, sacked_seq);
                model::lemma_total_bytes_nonnegative(acked_before);
                model::lemma_total_bytes_nonnegative(sacked_seq);
                assert(acked@ =~= first + model::all_sacked(base, blocks@, i + 1));
            }
            i = i + 1;
        }
        let ghost taken = before.sack_taken(floor, blocks@);
        assert(acked@ == taken);
        let latest_rtt = self.deliver_acked_segments(ack, &acked, acked_bytes, congestion);
        let max_datagram_size: u32 = congestion.max_datagram_size();
        self.rebuild_scoreboard(ack.acknowledgment, highest_sacked_right, max_datagram_size);
        self.maybe_finish_recovery(ack.acknowledgment);
        if highest_sacked_right != ack.acknowledgment {
            self.mark_rack_candidates(highest_sacked_right, ack.now, ack.reordering_window);
        }
        self.tlp_timer_armed = self.has_unacked_data();
        latest_rtt
    }

    /// Declares every sample whose RACK deadline has passed lost.
    pub fn on_rack_timeout<C: CongestionController>(
        &mut self,
        now: Instant,
        snd_nxt: TcpSeq,
        congestion: &mut C,
    )
        requires
            old(self).well_formed(),
            old(congestion).well_formed(),
        ensures
            final(self).well_formed(),
            final(congestion).well_formed(),
            *final(congestion) == model::losses_reported(
                *old(congestion),
                old(self)@.samples,
                now,
                old(self)@.samples.len() as int,
            ),
            final(self)@ == old(self)@.rack_timed_out(
                now,
                snd_nxt,
                old(congestion).spec_metrics().congestion_window,
                final(congestion).spec_metrics().congestion_window,
            ),
    {
        let ghost samples = self.sent_samples@;
        let ghost controller = *congestion;
        let recovery_prev_window: u32 = congestion.congestion_window();
        let mut recovery_started = false;
        let mut i: usize = 0;
        assert(self.sent_samples@ =~= model::expired_marked(samples, now, 0));
        while i < self.sent_samples.len()
            invariant
                i <= self.sent_samples.len(),
                self.sent_samples@ == model::expired_marked(samples, now, i as int),
                congestion.well_formed(),
                *congestion == model::losses_reported(controller, samples, now, i as int),
                self@ == (RecoveryModel { samples: self.sent_samples@, ..old(self)@ }),
                recovery_started == (!self.episode.active && model::any_expired(
                    samples,
                    now,
                    i as int,
                )),
            decreases self.sent_samples.len() - i,
        {
            let sample = self.sent_samples[i];
            assert(sample == samples[i as int]);
            let due = match sample.rack_deadline {
                Some(deadline) => !sample.lost && deadline.nanos <= now.nanos,
                None => false,
            };
            assert(due == model::rack_expired(samples[i as int], now));
            if due {
                congestion.on_loss(
                    now,
                    LostPacket {
                        packet_number: sample.packet_number,
                        bytes: sample.bytes,
                        sent_at: sample.sent_at,
                    },
                    false,
                );
                self.sent_samples.set(
                    i,
                    TcpSentSample { lost: true, rack_deadline: None, ..sample },
                );
                recovery_started = recovery_started || !self.episode.active;
                assert(model::rack_expired(samples[i as int], now));
                assert(model::any_expired(samples, now, i + 1));
            } else {
                assert(model::any_expired(samples, now, i + 1) ==> model::any_expired(samples, now, i as int));
            }
            assert(model::any_expired(samples, now, i as int) ==> model::any_expired(samples, now, i + 1));
            i = i + 1;
            assert(self.sent_samples@ =~= model::expired_marked(samples, now, i as int));
        }
        if recovery_started {
            self.episode =
            RecoveryEpisode {
                active: true,
                prev_window: max_u32(recovery_prev_window, 1),
                window: congestion.congestion_window(),
                delivered: 0,
                retransmitted: 0,
                new_data: 0,
                end_sequence: snd_nxt,
            };
        } else if self.episode.active {
            self.episode.window = min_u32(self.episode.window, congestion.congestion_window());
        }
        self.refresh_lost_bytes();
        self.rack_rescan_earliest();
        self.rack_timer_armed = self.has_pending_rack_deadline();
        self.tlp_timer_armed = self.has_unacked_data();
    }

    /// Counts a retransmission against the running episode.
    pub fn on_retransmit_sent(&mut self, bytes: u32)
        requires
            old(self).well_formed(),
        ensures
            final(self).well_formed(),
            final(self)@ == (if old(self)@.episode.active {
                RecoveryModel {
                    episode: RecoveryEpisode {
                        retransmitted: arith::saturate_u32(old(self)@.episode.retransmitted + bytes),
                        ..old(self)@.episode
                    },
                    ..old(self)@
                }
            } else {
                old(self)@
            }),
    {
        if !self.episode.active || bytes == 0 {
            return;
        }
        self.episode.retransmitted = self.episode.retransmitted.saturating_add(bytes);
    }

    /// Counts new data against the running episode.
    pub fn on_new_data_sent(&mut self, bytes: u32)
        requires
            old(self).well_formed(),
        ensures
            final(self).well_formed(),
            final(self)@ == (if old(self)@.episode.active {
                RecoveryModel {
                    episode: RecoveryEpisode {
                        new_data: arith::saturate_u32(old(self)@.episode.new_data + bytes),
                        ..old(self)@.episode
                    },
                    ..old(self)@
                }
            } else {
                old(self)@
            }),
    {
        if !self.episode.active || bytes == 0 {
            return;
        }
        self.episode.new_data = self.episode.new_data.saturating_add(bytes);
    }

    /// How much may be sent during a recovery episode, by proportional rate
    /// reduction; `None` outside one.
    pub fn recovery_send_space(&self, bytes_in_flight: u32, max_datagram_size: u32) -> (r: Option<
        u32,
    >)
        ensures
            r == self@.send_space(bytes_in_flight, max_datagram_size),
    {
        if !self.episode.active {
            return None;
        }
        let max_datagram_size: u32 = max_u32(max_datagram_size, 1);
        let prr_out: u32 = self.episode.retransmitted.saturating_add(self.episode.new_data);
        let mut space: u32 = if bytes_in_flight > self.episode.window {
            let delivered: u128 = self.episode.delivered as u128;
            let window: u128 = self.episode.window as u128;
            let prev_window: u128 = max_u32(self.episode.prev_window, 1) as u128;
            proof {
                assert(0 <= delivered * window <= u128::MAX) by (nonlinear_arith)
                    requires
                        0 <= delivered <= u32::MAX,
                        0 <= window <= u32::MAX,
                ;
            }
            let allowed: u128 = saturating_mul_u128(delivered, window) / prev_window;
            narrow_u32(allowed).saturating_sub(prr_out)
        } else {
            let limit: u32 = self.episode.delivered.saturating_sub(prr_out).saturating_add(
                max_datagram_size,
            );
            min_u32(self.episode.window.saturating_sub(bytes_in_flight), limit)
        };
        if prr_out == 0 {
            space = max_u32(space, max_datagram_size);
        }
        Some(space)
    }

    /// Takes the lowest lost range that was not retransmitted yet, and marks it
    /// retransmitted.
    pub fn take_rack_retransmit(&mut self) -> (r: Option<TcpSentSample>)
        requires
            old(self).well_formed(),
        ensures
            final(self).well_formed(),
            final(self)@ == old(self)@.retransmit_taken(),
            ({
                let index = model::first_lost(old(self)@.samples);
                r == (if index < old(self)@.samples.len() {
                    Some(
                        TcpSentSample {
                            retransmitted: true,
                            lost: false,
                            rack_deadline: None,
                            ..old(self)@.samples[index]
                        },
                    )
                } else {
                    None
                })
            }),
    {
        let mut i: usize = 0;
        while i < self.sent_samples.len() && !(self.sent_samples[i].lost
            && !self.sent_samples[i].retransmitted)
            invariant
                i <= self.sent_samples.len(),
                *self == *old(self),
                forall|k: int|
                    0 <= k < i ==> !((#[trigger] self.sent_samples@[k]).lost
                        && !self.sent_samples@[k].retransmitted),
            decreases self.sent_samples.len() - i,
        {
            i = i + 1;
        }
        proof {
            lemma_first_lost_at(self.sent_samples@, i as int);
        }
        if i == self.sent_samples.len() {
            return None;
        }
        let sample = self.sent_samples[i];
        let changed = TcpSentSample { retransmitted: true, rack_deadline: None, ..sample };
        self.sent_samples.set(i, changed);
        proof {
            lemma_earliest_update(old(self).sent_samples@, i as int, changed);
            lemma_lost_total_same(old(self).sent_samples@, self.sent_samples@);
        }
        self.rack_invalidate_cleared(sample.rack_deadline);
        self.scoreboard.high_rxt = sample.end_sequence;
        self.rack_timer_armed = self.has_pending_rack_deadline();
        Some(TcpSentSample { lost: false, ..changed })
    }

    /// Takes the newest outstanding range as a tail loss probe.
    pub fn take_tlp_probe(&mut self) -> (r: Option<TcpSentSample>)
        requires
            old(self).well_formed(),
        ensures
            final(self).well_formed(),
            final(self)@ == old(self)@.probe_taken(),
            r == (if old(self)@.samples.len() > 0 {
                Some(TcpSentSample { retransmitted: true, ..old(self)@.samples.last() })
            } else {
                None
            }),
    {
        let len: usize = self.sent_samples.len();
        if len == 0 {
            return None;
        }
        let probe = TcpSentSample { retransmitted: true, ..self.sent_samples[len - 1] };
        self.sent_samples.set(len - 1, probe);
        self.tlp_timer_armed = false;
        proof {
            lemma_earliest_update(old(self).sent_samples@, len - 1, probe);
            lemma_lost_total_same(old(self).sent_samples@, self.sent_samples@);
        }
        Some(probe)
    }

    /// The retransmission timer fired: reports the oldest range lost and hands it
    /// out for retransmission.
    pub fn on_retransmission_timeout<C: CongestionController>(
        &mut self,
        now: Instant,
        snd_nxt: TcpSeq,
        congestion: &mut C,
    ) -> (r: Option<TcpSentSample>)
        requires
            old(self).well_formed(),
            old(congestion).well_formed(),
        ensures
            final(self).well_formed(),
            final(congestion).well_formed(),
            old(self)@.samples.len() == 0 ==> r is None && final(self)@ == old(self)@
                && *final(congestion) == *old(congestion),
            old(self)@.samples.len() > 0 ==> {
                &&& r == Some(old(self)@.samples[0])
                &&& *final(congestion) == old(congestion).after_loss(
                    now,
                    model::lost_packet(old(self)@.samples[0]),
                    true,
                )
                &&& final(self)@ == old(self)@.retransmission_timed_out(
                    snd_nxt,
                    old(congestion).spec_metrics().congestion_window,
                    final(congestion).spec_metrics().congestion_window,
                )
            },
    {
        if self.sent_samples.len() == 0 {
            return None;
        }
        let sample = self.sent_samples[0];
        let recovery_prev_window: u32 = congestion.congestion_window();
        congestion.on_loss(
            now,
            LostPacket {
                packet_number: sample.packet_number,
                bytes: sample.bytes,
                sent_at: sample.sent_at,
            },
            true,
        );
        if !self.episode.active {
            self.episode =
            RecoveryEpisode {
                active: true,
                prev_window: max_u32(recovery_prev_window, 1),
                window: congestion.congestion_window(),
                delivered: 0,
                retransmitted: 0,
                new_data: 0,
                end_sequence: snd_nxt,
            };
        } else {
            self.episode.window = min_u32(self.episode.window, congestion.congestion_window());
            if snd_nxt.is_after(self.episode.end_sequence) {
                self.episode.end_sequence = snd_nxt;
            }
        }
        let ghost samples = self.sent_samples@;
        let changed = TcpSentSample { retransmitted: true, rack_deadline: None, ..sample };
        self.sent_samples.set(0, changed);
        proof {
            lemma_cleared_deadline(samples, 0, changed);
            lemma_lost_total_same(samples, self.sent_samples@);
        }
        self.rack_invalidate_cleared(sample.rack_deadline);
        self.rack_timer_armed = false;
        self.tlp_timer_armed = self.has_unacked_data();
        Some(sample)
    }

    /// The oldest outstanding range.
    pub fn oldest_unacked_sample(&self) -> (r: Option<TcpSentSample>)
        ensures
            r == (if self@.samples.len() > 0 {
                Some(self@.samples[0])
            } else {
                None
            }),
    {
        if self.sent_samples.len() == 0 {
            None
        } else {
            Some(self.sent_samples[0])
        }
    }

    /// The outstanding range at position `index` of the list.
    pub fn sent_sample(&self, index: usize) -> (r: TcpSentSample)
        requires
            index < self@.samples.len(),
        ensures
            r == self@.samples[index as int],
    {
        self.sent_samples[index]
    }

    /// The first outstanding range that starts at or after `sequence`, or, where
    /// `include_covering`, that reaches past it.
    pub fn sample_at_or_after(&self, sequence: TcpSeq, include_covering: bool) -> (r: Option<usize>)
        ensures
            match r {
                Some(index) => {
                    &&& index < self@.samples.len()
                    &&& self@.samples[index as int].sequence.at_or_after(sequence) || (
                    include_covering && self@.samples[index as int].spec_covers(sequence))
                    &&& forall|k: int|
                        0 <= k < index ==> !((#[trigger] self@.samples[k]).sequence.at_or_after(
                            sequence,
                        ) || (include_covering && self@.samples[k].spec_covers(sequence)))
                },
                None => forall|k: int|
                    0 <= k < self@.samples.len() ==> !((
                    #[trigger] self@.samples[k]).sequence.at_or_after(sequence) || (
                    include_covering && self@.samples[k].spec_covers(sequence))),
            },
    {
        let mut i: usize = 0;
        while i < self.sent_samples.len()
            invariant
                i <= self.sent_samples.len(),
                forall|k: int|
                    0 <= k < i ==> !((#[trigger] self@.samples[k]).sequence.at_or_after(sequence)
                        || (include_covering && self@.samples[k].spec_covers(sequence))),
            decreases self.sent_samples.len() - i,
        {
            let sample = self.sent_samples[i];
            if sample.sequence.is_at_or_after(sequence) || (include_covering && sample.covers(
                sequence,
            )) {
                return Some(i);
            }
            i = i + 1;
        }
        None
    }

    /// A copy of the scoreboard.
    pub fn scoreboard_snapshot(&self) -> (r: ScoreboardSnapshot)
        requires
            self.well_formed(),
        ensures
            r.holes@ == self@.holes,
            r.high_sacked == self@.high_sacked,
            r.high_rxt == self@.high_rxt,
            r.lost_bytes == arith::saturate_u32(model::lost_total(self@.samples)),
    {
        ScoreboardSnapshot {
            holes: copy_holes(&self.scoreboard.holes),
            high_sacked: self.scoreboard.high_sacked,
            high_rxt: self.scoreboard.high_rxt,
            lost_bytes: self.scoreboard.lost_bytes,
        }
    }

    /// A copy of the outstanding ranges, oldest first.
    pub fn sample_snapshot(&self) -> (r: Vec<TcpSentSample>)
        ensures
            r@ == self@.samples,
    {
        copy_samples(&self.sent_samples)
    }

    /// The bytes credited to the running episode.
    pub fn recovery_delivered(&self) -> (r: u32)
        ensures
            r == self@.episode.delivered,
    {
        self.episode.delivered
    }

    /// The cumulative acknowledgment that was processed last.
    pub fn ack_floor(&self) -> (r: TcpSeq)
        ensures
            r == self@.ack_floor,
    {
        self.ack_floor
    }

    /// The earliest RACK deadline, by a scan of every sample.
    pub fn rack_earliest_full_scan(&self) -> (r: Option<Instant>)
        ensures
            r == model::earliest_deadline(self@.samples),
    {
        scan_earliest(&self.sent_samples)
    }

    fn mark_rack_candidates(
        &mut self,
        highest_sacked_right: TcpSeq,
        now: Instant,
        reordering_window: Duration,
    )
        requires
            old(self).well_formed(),
            now.nanos + reordering_window.nanos <= u128::MAX,
        ensures
            final(self).well_formed(),
            final(self)@ == old(self)@.rack_marked(
                highest_sacked_right,
                Instant { nanos: (now.nanos + reordering_window.nanos) as u128 },
            ),
    {
        let ghost samples = self.sent_samples@;
        let deadline = now.plus(reordering_window);
        let mut any_marked = false;
        let mut i: usize = 0;
        assert(self.sent_samples@ =~= model::candidates_marked(
            samples,
            highest_sacked_right,
            deadline,
            0,
        ));
        while i < self.sent_samples.len()
            invariant
                i <= self.sent_samples.len(),
                self.sent_samples@ == model::candidates_marked(
                    samples,
                    highest_sacked_right,
                    deadline,
                    i as int,
                ),
                any_marked == exists|k: int|
                    0 <= k < i && model::rack_candidate(#[trigger] samples[k], highest_sacked_right),
                self@ == (RecoveryModel { samples: self.sent_samples@, ..old(self)@ }),
                self.rack_earliest == old(self).rack_earliest,
                self.scoreboard == old(self).scoreboard,
            decreases self.sent_samples.len() - i,
        {
            let sample = self.sent_samples[i];
            assert(sample == samples[i as int]);
            if sample.end_sequence.is_before(highest_sacked_right) && !sample.lost
                && sample.rack_deadline.is_none() {
                self.sent_samples.set(
                    i,
                    TcpSentSample { rack_deadline: Some(deadline), ..sample },
                );
                any_marked = true;
                assert(model::rack_candidate(samples[i as int], highest_sacked_right));
            }
            i = i + 1;
            assert(self.sent_samples@ =~= model::candidates_marked(
                samples,
                highest_sacked_right,
                deadline,
                i as int,
            ));
        }
        proof {
            lemma_lost_total_same(samples, self.sent_samples@);
            lemma_candidates_earliest(samples, highest_sacked_right, deadline);
            if !any_marked {
                assert(self.sent_samples@ =~= samples);
            }
        }
        if any_marked {
            self.rack_note_deadline(deadline);
        }
        self.rack_timer_armed = self.has_pending_rack_deadline();
    }

    /// Takes each acknowledged range off the list and reports it straight away,
    /// with what is in flight once it is gone.
    fn process_ack<C: CongestionController>(
        &mut self,
        ack: TcpRecoveryAck,
        congestion: &mut C,
    ) -> (r: (bool, Option<Duration>))
        requires
            old(self).rack_indexed(),
            old(congestion).well_formed(),
        ensures
            final(self).rack_indexed(),
            final(congestion).well_formed(),
            ({
                let taken = model::acked_part(old(self)@.samples, ack.acknowledgment);
                &&& final(self)@ == old(self)@.taken(
                    taken,
                    model::unacked_part(old(self)@.samples, ack.acknowledgment),
                )
                &&& *final(congestion) == model::controller_after_ack(
                    *old(congestion),
                    taken,
                    old(self)@.bytes_in_flight as int,
                    final(self)@.bytes_in_flight,
                    ack,
                )
                &&& r.0 == (taken.len() > 0)
                &&& r.1 == model::latest_round_trip(taken, ack.now)
            }),
    {
        let ghost samples = self.sent_samples@;
        let ghost controller = *congestion;
        let ghost before = self.bytes_in_flight;
        let ghost mut taken: Seq<TcpSentSample> = seq![];
        let floor = ack.acknowledgment;
        let mut largest_acked: u64 = 0;
        let mut any_acked = false;
        let mut latest_rtt: Option<Duration> = None;
        let mut total_acked_bytes: u32 = 0;
        let mut done = false;
        assert(taken + model::acked_part(samples, floor) =~= model::acked_part(samples, floor));
        while !done && self.sent_samples.len() > 0 && !floor.is_at_or_before(
            self.sent_samples[0].sequence,
        )
            invariant
                self.rack_indexed(),
                congestion.well_formed(),
                floor == ack.acknowledgment,
                !done ==> model::acked_part(samples, floor) == taken + model::acked_part(
                    self.sent_samples@,
                    floor,
                ),
                !done ==> model::unacked_part(samples, floor) == model::unacked_part(self.sent_samples@, floor),
                done ==> model::acked_part(samples, floor) == taken,
                done ==> model::unacked_part(samples, floor) == self.sent_samples@,
                self.bytes_in_flight == arith::saturate_u32(before - model::total_bytes(taken)),
                total_acked_bytes == arith::saturate_u32(model::total_bytes(taken)),
                largest_acked == model::largest_packet(taken),
                any_acked == (taken.len() > 0),
                latest_rtt == model::latest_round_trip(taken, ack.now),
                *congestion == model::delivered_to(controller, taken, before as int, ack),
                self@ == (RecoveryModel {
                    samples: self.sent_samples@,
                    bytes_in_flight: self.bytes_in_flight,
                    ..old(self)@
                }),
            decreases
                    self.sent_samples.len() + if done {
                        0int
                    } else {
                        1int
                    },
        {
            let sample = self.sent_samples[0];
            let ghost remaining = self.sent_samples@;
            let segment = if floor.is_at_or_after(sample.end_sequence) {
                let segment = self.take_sent(0);
                proof {
                    assert(remaining.remove(0) =~= remaining.drop_first());
                    assert(taken + model::acked_part(remaining, floor) =~= taken.push(segment)
                        + model::acked_part(self.sent_samples@, floor));
                }
                segment
            } else {
                let segment = self.take_sample_prefix(0, floor);
                done = true;
                proof {
                    assert(self.sent_samples@ =~= model::unacked_part(remaining, floor));
                    assert(taken + model::acked_part(remaining, floor) =~= taken.push(segment));
                }
                segment
            };
            proof {
                model::lemma_total_bytes_push(taken, segment);
                assert(taken.push(segment).drop_last() =~= taken);
                taken = taken.push(segment);
            }
            total_acked_bytes = total_acked_bytes.saturating_add(segment.bytes);
            largest_acked = max_u64(largest_acked, segment.packet_number);
            any_acked = true;
            match deliver_acked_segment(self.bytes_in_flight, ack, segment, congestion) {
                Some(rtt) => {
                    latest_rtt = Some(rtt);
                },
                None => {},
            }
        }
        proof {
            if !done {
                assert(model::acked_part(self.sent_samples@, floor) =~= seq![]);
                assert(taken + model::acked_part(self.sent_samples@, floor) =~= taken);
            }
            model::lemma_total_bytes_nonnegative(taken);
        }
        if self.episode.active && total_acked_bytes != 0 {
            self.episode.delivered = self.episode.delivered.saturating_add(total_acked_bytes);
        }
        if any_acked {
            congestion.on_end_acks(ack.now, self.bytes_in_flight, ack.app_limited, largest_acked);
        }
        (any_acked, latest_rtt)
    }

    fn take_acked_segments(&mut self, acknowledgment: TcpSeq) -> (r: (Vec<TcpSentSample>, u32))
        requires
            old(self).rack_indexed(),
        ensures
            final(self).rack_indexed(),
            r.0@ == model::acked_part(old(self)@.samples, acknowledgment),
            r.1 == arith::saturate_u32(model::total_bytes(r.0@)),
            final(self)@ == (RecoveryModel {
                samples: model::unacked_part(old(self)@.samples, acknowledgment),
                bytes_in_flight: arith::saturate_u32(
                    old(self)@.bytes_in_flight - model::total_bytes(r.0@),
                ),
                ..old(self)@
            }),
    {
        let ghost samples = self.sent_samples@;
        let ghost before = self.bytes_in_flight;
        let mut acked: Vec<TcpSentSample> = Vec::with_capacity(4);
        let mut total: u32 = 0;
        let mut done = false;
        assert(acked@ + model::acked_part(samples, acknowledgment) =~= model::acked_part(
            samples,
            acknowledgment,
        ));
        while !done && self.sent_samples.len() > 0 && !acknowledgment.is_at_or_before(
            self.sent_samples[0].sequence,
        )
            invariant
                self.rack_indexed(),
                !done ==> model::acked_part(samples, acknowledgment) == acked@ + model::acked_part(
                    self.sent_samples@,
                    acknowledgment,
                ),
                !done ==> model::unacked_part(samples, acknowledgment) == model::unacked_part(
                    self.sent_samples@,
                    acknowledgment,
                ),
                done ==> model::acked_part(samples, acknowledgment) == acked@,
                done ==> model::unacked_part(samples, acknowledgment) == self.sent_samples@,
                self.bytes_in_flight == arith::saturate_u32(before - model::total_bytes(acked@)),
                total == arith::saturate_u32(model::total_bytes(acked@)),
                self@ == (RecoveryModel {
                    samples: self.sent_samples@,
                    bytes_in_flight: self.bytes_in_flight,
                    ..old(self)@
                }),
            decreases
                    self.sent_samples.len() + if done {
                        0int
                    } else {
                        1int
                    },
        {
            let sample = self.sent_samples[0];
            let ghost remaining = self.sent_samples@;
            let ghost taken = acked@;
            let segment = if acknowledgment.is_at_or_after(sample.end_sequence) {
                let segment = self.take_sent(0);
                proof {
                    assert(remaining.remove(0) =~= remaining.drop_first());
                    assert(taken + model::acked_part(remaining, acknowledgment) =~= taken.push(segment)
                        + model::acked_part(self.sent_samples@, acknowledgment));
                }
                segment
            } else {
                let segment = self.take_sample_prefix(0, acknowledgment);
                done = true;
                proof {
                    assert(self.sent_samples@ =~= model::unacked_part(remaining, acknowledgment));
                    assert(taken + model::acked_part(remaining, acknowledgment) =~= taken.push(segment));
                }
                segment
            };
            proof {
                model::lemma_total_bytes_push(taken, segment);
            }
            total = total.saturating_add(segment.bytes);
            acked.push(segment);
        }
        proof {
            if !done {
                assert(model::acked_part(self.sent_samples@, acknowledgment) =~= seq![]);
                assert(acked@ + model::acked_part(self.sent_samples@, acknowledgment) =~= acked@);
            }
        }
        (acked, total)
    }

    /// Takes the part of the sample at `index` that a block covers, and leaves
    /// what lies below and above it in its place. Returns the part and the position
    /// behind what was left.
    fn take_sacked_piece(&mut self, index: usize, block: TcpSackBlock) -> (r: (
        TcpSentSample,
        usize,
    ))
        requires
            old(self).rack_indexed(),
            index < old(self).sent_samples.len(),
        ensures
            final(self).rack_indexed(),
            ({
                let sample = old(self)@.samples[index as int];
                let pieces = model::unsacked_pieces(sample, block);
                &&& r.0 == model::sacked_piece(sample, block)
                &&& r.1 == index + pieces.len()
                &&& r.1 <= final(self).sent_samples.len()
                &&& final(self)@ == (RecoveryModel {
                    samples: old(self)@.samples.take(index as int) + pieces
                        + old(self)@.samples.skip(index + 1),
                    bytes_in_flight: arith::saturate_u32(old(self)@.bytes_in_flight - r.0.bytes),
                    ..old(self)@
                })
            }),
    {
        let ghost list = self.sent_samples@;
        let sample = self.sent_samples[index];
        let ack_start = sample.sequence.later(block.left_edge);
        let ack_end = sample.end_sequence.earlier(block.right_edge);
        let mut at: usize = index;
        if ack_start.is_after(sample.sequence) {
            self.split_sample(index, ack_start);
            at = index + 1;
        }
        let current = self.sent_samples[at];
        let segment = if ack_end.is_before(current.end_sequence) {
            let segment = self.take_sample_prefix(at, ack_end);
            assert(at < self.sent_samples.len());
            at = at + 1;
            segment
        } else {
            self.take_sent(at)
        };
        assert(self.sent_samples@ =~= list.take(index as int) + model::unsacked_pieces(
            sample,
            block,
        ) + list.skip(index + 1));
        (segment, at)
    }

    #[verifier::spinoff_prover]
    #[verifier::rlimit(40)]
    fn take_sacked_segments(&mut self, block: TcpSackBlock) -> (r: (Vec<TcpSentSample>, u32))
        requires
            old(self).rack_indexed(),
        ensures
            final(self).rack_indexed(),
            r.0@ == model::sacked_part(old(self)@.samples, block),
            r.1 == arith::saturate_u32(model::total_bytes(r.0@)),
            final(self)@ == (RecoveryModel {
                samples: model::unsacked_part(old(self)@.samples, block),
                bytes_in_flight: arith::saturate_u32(
                    old(self)@.bytes_in_flight - model::total_bytes(r.0@),
                ),
                ..old(self)@
            }),
    {
        let ghost samples = self.sent_samples@;
        let ghost before = self.bytes_in_flight;
        let mut matched: Vec<TcpSentSample> = Vec::with_capacity(4);
        let mut total: u32 = 0;
        let mut i: usize = 0;
        proof {
            assert(samples.skip(0) =~= samples);
            assert(matched@ + model::sacked_part(samples, block) =~= model::sacked_part(samples, block));
            assert(samples.take(0) + model::unsacked_part(samples, block) =~= model::unsacked_part(
                samples,
                block,
            ));
        }
        while i < self.sent_samples.len() && !block.right_edge.is_before(
            self.sent_samples[i].sequence,
        )
            invariant
                i <= self.sent_samples.len(),
                self.rack_indexed(),
                model::sacked_part(samples, block) == matched@ + model::sacked_part(
                    self.sent_samples@.skip(i as int),
                    block,
                ),
                model::unsacked_part(samples, block) == self.sent_samples@.take(i as int) + model::unsacked_part(
                    self.sent_samples@.skip(i as int),
                    block,
                ),
                self.bytes_in_flight == arith::saturate_u32(before - model::total_bytes(matched@)),
                total == arith::saturate_u32(model::total_bytes(matched@)),
                self@ == (RecoveryModel {
                    samples: self.sent_samples@,
                    bytes_in_flight: self.bytes_in_flight,
                    ..old(self)@
                }),
            decreases self.sent_samples.len() - i,
        {
            let sample = self.sent_samples[i];
            let ghost list = self.sent_samples@;
            let ghost rest = list.skip(i + 1);
            let ghost front = list.take(i as int);
            let ghost taken = matched@;
            proof {
                assert(list.skip(i as int)[0] == sample);
                assert(list.skip(i as int).drop_first() =~= rest);
            }
            if !sample.overlaps(block.left_edge, block.right_edge) {
                proof {
                    assert(list.take(i + 1) + model::unsacked_part(rest, block) =~= front + (seq![sample]
                        + model::unsacked_part(rest, block)));
                }
                i = i + 1;
            } else {
                let (segment, next) = self.take_sacked_piece(i, block);
                proof {
                    let pieces = model::unsacked_pieces(sample, block);
                    lemma_three_parts(front, pieces, rest);
                    assert(taken + (seq![segment] + model::sacked_part(rest, block)) =~= taken.push(
                        segment,
                    ) + model::sacked_part(rest, block));
                    assert(front + (pieces + model::unsacked_part(rest, block)) =~= (front + pieces)
                        + model::unsacked_part(rest, block));
                    model::lemma_total_bytes_push(taken, segment);
                }
                i = next;
                total = total.saturating_add(segment.bytes);
                matched.push(segment);
            }
        }
        proof {
            let list = self.sent_samples@;
            let tail = list.skip(i as int);
            assert(model::sacked_part(tail, block) =~= seq![]);
            assert(model::unsacked_part(tail, block) == tail);
            assert(matched@ + model::sacked_part(tail, block) =~= matched@);
            assert(list.take(i as int) + tail =~= list);
        }
        (matched, total)
    }

    fn deliver_acked_segments<C: CongestionController>(
        &mut self,
        ack: TcpRecoveryAck,
        acked: &Vec<TcpSentSample>,
        total_acked_bytes: u32,
        congestion: &mut C,
    ) -> (r: Option<Duration>)
        requires
            old(self).rack_indexed(),
            old(congestion).well_formed(),
            total_acked_bytes == arith::saturate_u32(model::total_bytes(acked@)),
        ensures
            final(self).rack_indexed(),
            final(congestion).well_formed(),
            *final(congestion) == model::controller_after_ack(
                *old(congestion),
                acked@,
                arith::saturate_u32(old(self)@.bytes_in_flight + model::total_bytes(acked@)) as int,
                old(self)@.bytes_in_flight,
                ack,
            ),
            r == model::latest_round_trip(acked@, ack.now),
            final(self)@ == (if old(self)@.episode.active {
                RecoveryModel {
                    episode: RecoveryEpisode {
                        delivered: arith::saturate_u32(
                            old(self)@.episode.delivered + model::total_bytes(acked@),
                        ),
                        ..old(self)@.episode
                    },
                    ..old(self)@
                }
            } else {
                old(self)@
            }),
    {
        let ghost controller = *congestion;
        let mut largest_acked: u64 = 0;
        let mut any_acked = false;
        let mut latest_rtt: Option<Duration> = None;
        proof {
            model::lemma_total_bytes_nonnegative(acked@);
        }
        if self.episode.active && total_acked_bytes != 0 {
            self.episode.delivered = self.episode.delivered.saturating_add(total_acked_bytes);
        }
        let before: u32 = self.bytes_in_flight.saturating_add(total_acked_bytes);
        let mut in_flight: u32 = before;
        let mut i: usize = 0;
        assert(acked@.take(0) =~= seq![]);
        while i < acked.len()
            invariant
                i <= acked.len(),
                congestion.well_formed(),
                in_flight == arith::saturate_u32(before - model::total_bytes(acked@.take(i as int))),
                largest_acked == model::largest_packet(acked@.take(i as int)),
                any_acked == (i > 0),
                latest_rtt == model::latest_round_trip(acked@.take(i as int), ack.now),
                *congestion == model::delivered_to(
                    controller,
                    acked@.take(i as int),
                    before as int,
                    ack,
                ),
            decreases acked.len() - i,
        {
            let segment = acked[i];
            proof {
                assert(acked@.take(i + 1).drop_last() =~= acked@.take(i as int));
                assert(acked@.take(i + 1).last() == segment);
                model::lemma_total_bytes_nonnegative(acked@.take(i as int));
            }
            largest_acked = max_u64(largest_acked, segment.packet_number);
            any_acked = true;
            in_flight = in_flight.saturating_sub(segment.bytes);
            match deliver_acked_segment(in_flight, ack, segment, congestion) {
                Some(rtt) => {
                    latest_rtt = Some(rtt);
                },
                None => {},
            }
            i = i + 1;
        }
        assert(acked@.take(i as int) =~= acked@);
        if any_acked {
            congestion.on_end_acks(ack.now, self.bytes_in_flight, ack.app_limited, largest_acked);
        }
        latest_rtt
    }

    fn maybe_finish_recovery(&mut self, acknowledgment: TcpSeq)
        requires
            old(self).well_formed(),
        ensures
            final(self).well_formed(),
            final(self)@ == old(self)@.maybe_finished(acknowledgment),
    {
        if self.episode.active && acknowledgment.is_at_or_after(self.episode.end_sequence) {
            self.episode =
            RecoveryEpisode {
                active: false,
                window: 0,
                prev_window: 0,
                delivered: 0,
                retransmitted: 0,
                new_data: 0,
                end_sequence: TcpSeq { value: 0 },
            };
        }
    }

    fn take_sent(&mut self, index: usize) -> (r: TcpSentSample)
        requires
            old(self).rack_indexed(),
            index < old(self).sent_samples.len(),
        ensures
            final(self).rack_indexed(),
            r == old(self)@.samples[index as int],
            final(self)@ == (RecoveryModel {
                samples: old(self)@.samples.remove(index as int),
                bytes_in_flight: arith::saturate_u32(old(self)@.bytes_in_flight - r.bytes),
                ..old(self)@
            }),
    {
        let sample = self.sent_samples.remove(index);
        self.bytes_in_flight = self.bytes_in_flight.saturating_sub(sample.bytes);
        proof {
            let samples = old(self).sent_samples@;
            if !(sample.pending() && sample.rack_deadline == model::earliest_deadline(samples)) {
                lemma_earliest_remove(samples, index as int);
            }
        }
        self.rack_invalidate_cleared(sample.rack_deadline);
        sample
    }

    /// Cuts the sample at `index` in two, so that its part below `split_start`
    /// stands at `index` and the rest behind it.
    fn split_sample(&mut self, index: usize, split_start: TcpSeq)
        requires
            old(self).rack_indexed(),
            index < old(self).sent_samples.len(),
        ensures
            final(self).rack_indexed(),
            final(self)@ == (RecoveryModel {
                samples: old(self)@.samples.update(
                    index as int,
                    old(self)@.samples[index as int].suffix(split_start),
                ).insert(index as int, old(self)@.samples[index as int].prefix(split_start)),
                ..old(self)@
            }),
    {
        let sample = self.sent_samples[index];
        let (prefix, suffix) = sample.split(split_start);
        self.sent_samples.set(index, suffix);
        proof {
            lemma_earliest_update(old(self).sent_samples@, index as int, suffix);
            lemma_earliest_insert(self.sent_samples@, index as int, prefix);
        }
        self.sent_samples.insert(index, prefix);
        if !sample.lost {
            match sample.rack_deadline {
                Some(deadline) => {
                    proof {
                        model::earliest_is_least(old(self).sent_samples@);
                        assert(old(self).sent_samples@[index as int].pending());
                    }
                    self.rack_note_deadline(deadline);
                },
                None => {},
            }
        }
    }

    fn take_sample_prefix(&mut self, index: usize, split_end: TcpSeq) -> (r: TcpSentSample)
        requires
            old(self).rack_indexed(),
            index < old(self).sent_samples.len(),
        ensures
            final(self).rack_indexed(),
            r == old(self)@.samples[index as int].prefix(split_end),
            final(self)@ == (RecoveryModel {
                samples: old(self)@.samples.update(
                    index as int,
                    old(self)@.samples[index as int].suffix(split_end),
                ),
                bytes_in_flight: arith::saturate_u32(old(self)@.bytes_in_flight - r.bytes),
                ..old(self)@
            }),
    {
        let sample = self.sent_samples[index];
        let (prefix, suffix) = sample.split(split_end);
        self.sent_samples.set(index, suffix);
        self.bytes_in_flight = self.bytes_in_flight.saturating_sub(prefix.bytes);
        proof {
            lemma_earliest_update(old(self).sent_samples@, index as int, suffix);
        }
        self.rack_invalidate_cleared(sample.rack_deadline);
        prefix
    }

    /// Makes the scoreboard anew from the outstanding samples.
    pub fn rebuild_scoreboard(
        &mut self,
        acknowledgment: TcpSeq,
        high_sacked: TcpSeq,
        max_datagram_size: u32,
    )
        requires
            old(self).rack_indexed(),
        ensures
            final(self).well_formed(),
            final(self)@ == old(self)@.rebuilt(acknowledgment, high_sacked, max_datagram_size),
    {
        let high = high_sacked.later(acknowledgment);
        self.scoreboard.holes = Vec::new();
        self.scoreboard.high_sacked = high;
        self.scoreboard.high_rxt = acknowledgment;
        self.scoreboard.lost_bytes = 0;
        self.scoreboard.reorder = TCP_DUPACK_THRESHOLD;
        if self.sent_samples.len() == 0 || high.is_at_or_before(acknowledgment) {
            proof {
                assert(self.scoreboard.holes@ =~= seq![]);
            }
            self.refresh_lost_bytes();
            self.rack_rescan_earliest();
            return;
        }
        let ghost samples = self.sent_samples@;
        let ghost all = model::gaps_from(samples, acknowledgment, acknowledgment, high);
        let mut holes: Vec<TcpScoreboardHole> = Vec::new();
        let mut hole_start = acknowledgment;
        let mut covered = false;
        let mut i: usize = 0;
        proof {
            assert(samples.skip(0) =~= samples);
            assert(holes@ + all =~= all);
        }
        while i < self.sent_samples.len() && !covered
            invariant
                i <= self.sent_samples.len(),
                self.sent_samples@ == samples,
                !covered ==> all == holes@ + model::gaps_from(
                    samples.skip(i as int),
                    hole_start,
                    acknowledgment,
                    high,
                ),
                covered ==> all == holes@ && hole_start.at_or_after(high),
            decreases self.sent_samples.len() - i,
        {
            let sample = self.sent_samples[i];
            let ghost tail = samples.skip(i as int);
            let ghost rest = samples.skip(i + 1);
            let ghost found = holes@;
            let ghost start = hole_start;
            proof {
                assert(tail[0] == sample);
                assert(tail.drop_first() =~= rest);
            }
            i = i + 1;
            if !sample.end_sequence.is_at_or_before(acknowledgment) {
                let end = sample.sequence.earlier(high);
                if sample.sequence.is_after(hole_start) && end.is_after(hole_start) {
                    holes.push(TcpScoreboardHole { start: hole_start, end, lost: false });
                    proof {
                        assert(holes@ =~= found + seq![
                            TcpScoreboardHole { start, end, lost: false },
                        ]);
                    }
                } else {
                    assert(holes@ =~= found + Seq::<TcpScoreboardHole>::empty());
                }
                hole_start = hole_start.later(sample.end_sequence);
                if hole_start.is_at_or_after(high) {
                    covered = true;
                } else {
                    proof {
                        let gap = model::gaps_from(rest, hole_start, acknowledgment, high);
                        let added = holes@.skip(found.len() as int);
                        assert(found + (added + gap) =~= holes@ + gap);
                        assert(holes@ =~= found + added);
                    }
                }
            }
        }
        if !covered && hole_start.is_before(high) {
            proof {
                assert(samples.skip(i as int).len() == 0);
            }
            holes.push(TcpScoreboardHole { start: hole_start, end: high, lost: false });
        }
        proof {
            if !covered {
                assert(samples.skip(i as int).len() == 0);
            }
            assert(holes@ =~= all);
        }
        self.scoreboard.holes = holes;
        self.update_scoreboard_loss(max_datagram_size);
        self.rack_rescan_earliest();
    }

    /// Brings the scoreboard up to a new cumulative acknowledgment without
    /// making it anew: holes below it go, the one it crosses is cut, and the
    /// leading one is put back if it is missing.
    fn advance_scoreboard_for_ack(&mut self, acknowledgment: TcpSeq, max_datagram_size: u32)
        requires
            old(self).rack_indexed(),
        ensures
            final(self).well_formed(),
            final(self)@ == old(self)@.advanced(acknowledgment, max_datagram_size),
    {
        let high = self.scoreboard.high_sacked.later(acknowledgment);
        self.scoreboard.high_sacked = high;
        self.scoreboard.high_rxt = acknowledgment;
        if self.sent_samples.len() == 0 || high.is_at_or_before(acknowledgment) {
            self.scoreboard.holes.clear();
            proof {
                assert(self.scoreboard.holes@ =~= seq![]);
            }
            self.refresh_lost_bytes();
            self.rack_rescan_earliest();
            return;
        }
        let ghost holes = self.scoreboard.holes@;
        let mut kept: Vec<TcpScoreboardHole> = Vec::new();
        let mut crossed: Option<TcpScoreboardHole> = None;
        let mut i: usize = 0;
        assert(holes.take(0) =~= seq![]);
        while i < self.scoreboard.holes.len()
            invariant
                i <= self.scoreboard.holes.len(),
                self.scoreboard.holes@ == holes,
                kept@ == model::holes_past(holes.take(i as int), acknowledgment),
                crossed == model::crossed_hole(holes.take(i as int), acknowledgment),
            decreases self.scoreboard.holes.len() - i,
        {
            let hole = self.scoreboard.holes[i];
            proof {
                assert(holes.take(i + 1).drop_last() =~= holes.take(i as int));
                assert(holes.take(i + 1).last() == hole);
            }
            if !hole.end.is_at_or_before(acknowledgment) {
                kept.push(hole);
                if hole.start.is_before(acknowledgment) {
                    crossed = Some(hole);
                }
            }
            i = i + 1;
        }
        assert(holes.take(i as int) =~= holes);
        match crossed {
            Some(hole) => {
                remove_hole(&mut kept, hole.start);
                insert_hole(&mut kept, TcpScoreboardHole { start: acknowledgment, ..hole });
            },
            None => {},
        }
        let first = self.sent_samples[0];
        if first.sequence.is_after(acknowledgment) && acknowledgment.is_before(high) {
            let leading_end = first.sequence.earlier(high);
            let index: usize = find_hole(&kept, acknowledgment);
            if index < kept.len() {
                let hole = kept[index];
                if hole.end.is_before(leading_end) {
                    kept.set(index, TcpScoreboardHole { end: leading_end, ..hole });
                }
            } else {
                insert_hole(
                    &mut kept,
                    TcpScoreboardHole { start: acknowledgment, end: leading_end, lost: false },
                );
            }
        }
        self.scoreboard.holes = kept;
        self.update_scoreboard_loss(max_datagram_size);
        self.rack_rescan_earliest();
    }

    /// Decides for each hole, from the highest down, whether enough lies above it
    /// to call it lost, and carries the decision over to the samples inside.
    fn update_scoreboard_loss(&mut self, max_datagram_size: u32)
        ensures
            final(self)@ == old(self)@.with_holes(old(self)@.holes, max_datagram_size),
            final(self).lost_counted(),
    {
        let ghost holes = self.scoreboard.holes@;
        let ghost reorder = self.scoreboard.reorder;
        let ghost decided = model::holes_decided(holes, reorder, max_datagram_size);
        let ghost samples = self.sent_samples@;
        let reorder_limit: u32 = max_u32(self.scoreboard.reorder, TCP_DUPACK_THRESHOLD);
        let mss: u32 = max_u32(max_datagram_size, 1);
        let byte_threshold: u32 = saturating_mul_u32(reorder_limit.saturating_sub(1), mss);
        let count: usize = self.scoreboard.holes.len();
        let mut starts = ScoreboardKeyCollector::new();
        let mut i: usize = 0;
        while i < count
            invariant
                i <= count == holes.len(),
                self.scoreboard.holes@ == holes,
                starts.well_formed(),
                starts@.len() == i,
                forall|k: int| 0 <= k < i ==> #[trigger] starts@[k] == holes[k].start,
            decreases count - i,
        {
            starts.push(self.scoreboard.holes[i].start);
            i = i + 1;
        }
        let mut sacked_above: u32 = 0;
        let mut blocks_above: u32 = 0;
        let mut higher_start: Option<TcpSeq> = None;
        proof {
            assert(model::samples_marked(samples, decided, count as int) =~= samples);
        }
        while i > 0
            invariant
                i <= count == holes.len() == decided.len(),
                decided == model::holes_decided(holes, reorder, max_datagram_size),
                reorder_limit == vstd::math::max(reorder as int, TCP_DUPACK_THRESHOLD as int),
                byte_threshold == arith::saturate_u32(
                    (reorder_limit - 1) * vstd::math::max(max_datagram_size as int, 1),
                ),
                self.scoreboard.holes.len() == count,
                forall|k: int| 0 <= k < i ==> #[trigger] self.scoreboard.holes@[k] == holes[k],
                forall|k: int|
                    i <= k < count ==> #[trigger] self.scoreboard.holes@[k] == decided[k],
                starts.well_formed(),
                starts@.len() == i,
                forall|k: int| 0 <= k < i ==> #[trigger] starts@[k] == holes[k].start,
                self.sent_samples@ == model::samples_marked(samples, decided, i as int),
                i < count ==> higher_start == Some(holes[i as int].start),
                i == count ==> higher_start is None,
                i < count ==> blocks_above == arith::saturate_u32(count - 1 - i),
                i == count ==> blocks_above == 0,
                sacked_above == model::sacked_ahead(holes, i as int),
                self@ == (RecoveryModel {
                    samples: self.sent_samples@,
                    holes: self.scoreboard.holes@,
                    ..old(self)@
                }),
            decreases i,
        {
            i = i - 1;
            let popped = starts.pop_back();
            let hole = self.scoreboard.holes[i];
            assert(hole == holes[i as int]);
            let start = match popped {
                Some(start) => start,
                None => hole.start,
            };
            match higher_start {
                Some(high_start) => {
                    sacked_above = sacked_above.saturating_add(hole.end.distance_to(high_start));
                    blocks_above = blocks_above.saturating_add(1);
                },
                None => {},
            }
            let should_mark_lost = blocks_above >= reorder_limit || sacked_above > byte_threshold;
            assert(should_mark_lost == model::hole_is_lost(holes, i as int, reorder, max_datagram_size));
            self.scoreboard.holes.set(i, TcpScoreboardHole { lost: should_mark_lost, ..hole });
            let ghost marked_above = self.sent_samples@;
            if should_mark_lost {
                self.mark_samples_in_range_lost(start, hole.end);
            }
            proof {
                assert(decided[i as int] == TcpScoreboardHole { lost: should_mark_lost, ..hole });
                assert forall|k: int| 0 <= k < samples.len() implies self.sent_samples@[k]
                    == model::samples_marked(samples, decided, i as int)[k] by {
                    lemma_in_lost_hole_step(samples[k], decided, i as int);
                }
                assert(self.sent_samples@ =~= model::samples_marked(samples, decided, i as int));
            }
            higher_start = Some(start);
        }
        assert(self.scoreboard.holes@ =~= decided);
        self.refresh_lost_bytes();
    }

    fn mark_samples_in_range_lost(&mut self, range_start: TcpSeq, range_end: TcpSeq)
        ensures
            final(self).sent_samples.len() == old(self).sent_samples.len(),
            forall|k: int|
                0 <= k < old(self).sent_samples.len() ==> #[trigger] final(self).sent_samples@[k]
                    == (TcpSentSample {
                    lost: old(self).sent_samples@[k].lost || (range_end.after(range_start)
                        && old(self).sent_samples@[k].spec_overlaps(range_start, range_end)),
                    ..old(self).sent_samples@[k]
                }),
            final(self)@ == (RecoveryModel {
                samples: final(self).sent_samples@,
                ..old(self)@
            }),
    {
        if !range_end.is_after(range_start) {
            return;
        }
        let mut i: usize = 0;
        while i < self.sent_samples.len()
            invariant
                i <= self.sent_samples.len() == old(self).sent_samples.len(),
                range_end.after(range_start),
                forall|k: int|
                    0 <= k < i ==> #[trigger] self.sent_samples@[k] == (TcpSentSample {
                        lost: old(self).sent_samples@[k].lost || old(
                            self,
                        ).sent_samples@[k].spec_overlaps(range_start, range_end),
                        ..old(self).sent_samples@[k]
                    }),
                forall|k: int|
                    i <= k < self.sent_samples.len() ==> #[trigger] self.sent_samples@[k] == old(
                        self,
                    ).sent_samples@[k],
                self@ == (RecoveryModel { samples: self.sent_samples@, ..old(self)@ }),
            decreases self.sent_samples.len() - i,
        {
            let sample = self.sent_samples[i];
            if sample.overlaps(range_start, range_end) {
                self.sent_samples.set(i, TcpSentSample { lost: true, ..sample });
            }
            i = i + 1;
        }
    }

    fn queue_recovery_head(&mut self)
        requires
            old(self).well_formed(),
        ensures
            final(self).well_formed(),
            final(self)@ == old(self)@.head_queued(),
    {
        if self.sent_samples.len() == 0 {
            return;
        }
        let sample = self.sent_samples[0];
        if sample.rack_deadline.is_some() || sample.lost {
            return;
        }
        self.sent_samples.set(0, TcpSentSample { lost: true, ..sample });
        self.refresh_lost_bytes();
        self.rack_rescan_earliest();
        self.rack_timer_armed = self.has_pending_rack_deadline();
    }

    fn refresh_lost_bytes(&mut self)
        ensures
            final(self).lost_counted(),
            final(self)@ == old(self)@,
            old(self).rack_indexed() ==> final(self).rack_indexed(),
    {
        let mut lost_bytes: u32 = 0;
        let mut i: usize = 0;
        while i < self.sent_samples.len()
            invariant
                i <= self.sent_samples.len(),
                lost_bytes == arith::saturate_u32(model::lost_total(self.sent_samples@.take(i as int))),
            decreases self.sent_samples.len() - i,
        {
            let sample = self.sent_samples[i];
            proof {
                let list = self.sent_samples@;
                assert(list.take(i + 1).drop_last() =~= list.take(i as int));
                lemma_lost_total_nonnegative(list.take(i as int));
            }
            if sample.lost {
                lost_bytes = lost_bytes.saturating_add(sample.bytes);
            }
            i = i + 1;
        }
        assert(self.sent_samples@.take(i as int) =~= self.sent_samples@);
        self.scoreboard.lost_bytes = lost_bytes;
    }

    fn has_pending_rack_deadline(&self) -> (r: bool)
        requires
            self.rack_indexed(),
        ensures
            r == self@.has_pending(),
    {
        self.rack_earliest.is_some()
    }

    fn rack_note_deadline(&mut self, deadline: Instant)
        ensures
            final(self)@ == old(self)@,
            final(self).sent_samples == old(self).sent_samples,
            final(self).scoreboard == old(self).scoreboard,
            final(self).rack_earliest == (match old(self).rack_earliest {
                Some(current) if current.nanos <= deadline.nanos => Some(current),
                _ => Some(deadline),
            }),
    {
        self.rack_earliest =
        match self.rack_earliest {
            Some(current) => if current.nanos <= deadline.nanos {
                Some(current)
            } else {
                Some(deadline)
            },
            None => Some(deadline),
        };
    }

    /// A deadline was cleared: looks for the earliest again only if it was that one.
    fn rack_invalidate_cleared(&mut self, cleared: Option<Instant>)
        requires
            old(self).rack_indexed() || (cleared is Some && cleared == old(self).rack_earliest),
        ensures
            final(self).rack_indexed(),
            final(self)@ == old(self)@,
            final(self).scoreboard == old(self).scoreboard,
            final(self).sent_samples == old(self).sent_samples,
    {
        let current = match (cleared, self.rack_earliest) {
            (Some(cleared), Some(earliest)) => cleared == earliest,
            _ => false,
        };
        if current {
            self.rack_rescan_earliest();
        }
    }

    fn rack_rescan_earliest(&mut self)
        ensures
            final(self).rack_indexed(),
            final(self)@ == old(self)@,
            final(self).scoreboard == old(self).scoreboard,
            final(self).sent_samples == old(self).sent_samples,
            old(self).lost_counted() ==> final(self).lost_counted(),
    {
        self.rack_earliest = scan_earliest(&self.sent_samples);
    }
}

/// The earliest pending deadline by a scan of the list.
fn scan_earliest(samples: &Vec<TcpSentSample>) -> (r: Option<Instant>)
    ensures
        r == model::earliest_deadline(samples@),
{
    let mut earliest: Option<Instant> = None;
    let mut i: usize = 0;
    while i < samples.len()
        invariant
            i <= samples.len(),
            earliest == model::earliest_deadline(samples@.take(i as int)),
        decreases samples.len() - i,
    {
        let sample = samples[i];
        proof {
            assert(samples@.take(i + 1).drop_last() =~= samples@.take(i as int));
            assert(samples@.take(i + 1).last() == sample);
        }
        if !sample.lost {
            match (sample.rack_deadline, earliest) {
                (Some(deadline), Some(current)) => {
                    if deadline.nanos < current.nanos {
                        earliest = Some(deadline);
                    }
                },
                (Some(deadline), None) => {
                    earliest = Some(deadline);
                },
                _ => {},
            }
        }
        i = i + 1;
    }
    assert(samples@.take(i as int) =~= samples@);
    earliest
}

fn copy_holes(holes: &Vec<TcpScoreboardHole>) -> (r: Vec<TcpScoreboardHole>)
    ensures
        r@ == holes@,
{
    let mut copy: Vec<TcpScoreboardHole> = Vec::with_capacity(holes.len());
    let mut i: usize = 0;
    while i < holes.len()
        invariant
            i <= holes.len(),
            copy@ == holes@.take(i as int),
        decreases holes.len() - i,
    {
        copy.push(holes[i]);
        i = i + 1;
        assert(copy@ =~= holes@.take(i as int));
    }
    assert(holes@.take(i as int) =~= holes@);
    copy
}

fn copy_samples(samples: &Vec<TcpSentSample>) -> (r: Vec<TcpSentSample>)
    ensures
        r@ == samples@,
{
    let mut copy: Vec<TcpSentSample> = Vec::with_capacity(samples.len());
    let mut i: usize = 0;
    while i < samples.len()
        invariant
            i <= samples.len(),
            copy@ == samples@.take(i as int),
        decreases samples.len() - i,
    {
        copy.push(samples[i]);
        i = i + 1;
        assert(copy@ =~= samples@.take(i as int));
    }
    assert(samples@.take(i as int) =~= samples@);
    copy
}

proof fn lemma_in_lost_hole_step(
    sample: TcpSentSample,
    holes: Seq<TcpScoreboardHole>,
    index: int,
)
    requires
        0 <= index < holes.len(),
    ensures
        model::in_lost_hole(sample, holes, index) <==> model::in_lost_hole(sample, holes, index + 1) || (
        holes[index].lost && holes[index].end.after(holes[index].start) && sample.spec_overlaps(
            holes[index].start,
            holes[index].end,
        )),
{
    if model::in_lost_hole(sample, holes, index) && !model::in_lost_hole(sample, holes, index + 1) {
        let k = choose|k: int|
            index <= k < holes.len() && (#[trigger] holes[k]).lost && holes[k].end.after(
                holes[k].start,
            ) && sample.spec_overlaps(holes[k].start, holes[k].end);
        assert(k == index);
    }
    if holes[index].lost && holes[index].end.after(holes[index].start) && sample.spec_overlaps(
        holes[index].start,
        holes[index].end,
    ) {
        assert(model::in_lost_hole(sample, holes, index));
    }
    if model::in_lost_hole(sample, holes, index + 1) {
        let k = choose|k: int|
            index + 1 <= k < holes.len() && (#[trigger] holes[k]).lost && holes[k].end.after(
                holes[k].start,
            ) && sample.spec_overlaps(holes[k].start, holes[k].end);
        assert(model::in_lost_hole(sample, holes, index));
    }
}

/// Clearing a deadline that is not the earliest keeps the earliest.
proof fn lemma_cleared_deadline(samples: Seq<TcpSentSample>, index: int, changed: TcpSentSample)
    requires
        0 <= index < samples.len(),
        !changed.pending(),
    ensures
        !(samples[index].pending() && samples[index].rack_deadline == model::earliest_deadline(samples))
            ==> model::earliest_deadline(samples.update(index, changed)) == model::earliest_deadline(samples),
{
    if !(samples[index].pending() && samples[index].rack_deadline == model::earliest_deadline(samples)) {
        let other = samples.update(index, changed);
        assert forall|j: int| 0 <= j < other.len() && (#[trigger] other[j]).pending() implies exists|
            i: int,
        |
            0 <= i < samples.len() && (#[trigger] samples[i]).pending() && samples[i].rack_deadline
                == other[j].rack_deadline by {
            assert(samples[j].pending());
        }
        assert forall|i: int|
            0 <= i < samples.len() && (#[trigger] samples[i]).pending() && samples[i].rack_deadline
                == model::earliest_deadline(samples) implies exists|j: int|
            0 <= j < other.len() && (#[trigger] other[j]).pending() && other[j].rack_deadline
                == samples[i].rack_deadline by {
            assert(other[i].pending());
        }
        lemma_same_earliest(samples, other);
    }
}

/// Giving candidates a common deadline makes it the earliest, unless an earlier
/// one was pending.
proof fn lemma_candidates_earliest(samples: Seq<TcpSentSample>, high: TcpSeq, deadline: Instant)
    ensures
        ({
            let marked = model::candidates_marked(samples, high, deadline, samples.len() as int);
            (exists|k: int| 0 <= k < samples.len() && model::rack_candidate(#[trigger] samples[k], high))
                ==> model::earliest_deadline(marked) == (match model::earliest_deadline(samples) {
                Some(current) if current.nanos <= deadline.nanos => Some(current),
                _ => Some(deadline),
            })
        }),
{
    let marked = model::candidates_marked(samples, high, deadline, samples.len() as int);
    if exists|k: int| 0 <= k < samples.len() && model::rack_candidate(#[trigger] samples[k], high) {
        let k = choose|k: int|
            0 <= k < samples.len() && model::rack_candidate(#[trigger] samples[k], high);
        model::earliest_is_least(samples);
        model::earliest_is_least(marked);
        let current = model::earliest_deadline(samples);
        let expected = match current {
            Some(least) if least.nanos <= deadline.nanos => Some(least),
            _ => Some(deadline),
        };
        assert(marked[k].pending() && marked[k].rack_deadline == Some(deadline));
        if current is Some && expected == current {
            let i = choose|i: int|
                0 <= i < samples.len() && (#[trigger] samples[i]).pending()
                    && samples[i].rack_deadline == current;
            assert(marked[i].pending() && marked[i].rack_deadline == current);
        }
        assert forall|i: int| 0 <= i < marked.len() && (#[trigger] marked[i]).pending() implies
            marked[i].rack_deadline->0.nanos >= expected->0.nanos by {
            if model::rack_candidate(samples[i], high) {
            } else {
                assert(samples[i].pending());
            }
        }
        assert(model::is_earliest(marked, expected));
        model::earliest_unique(marked, expected, model::earliest_deadline(marked));
    }
}

/// Reports one acknowledged range to the controller. A range that was
/// retransmitted gives no round-trip sample.
fn deliver_acked_segment<C: CongestionController>(
    bytes_in_flight: u32,
    ack: TcpRecoveryAck,
    segment: TcpSentSample,
    congestion: &mut C,
) -> (r: Option<Duration>)
    requires
        old(congestion).well_formed(),
    ensures
        final(congestion).well_formed(),
        *final(congestion) == old(congestion).after_ack(
            ack.now,
            model::acked_packet(segment, ack),
            model::rtt_sample(segment, ack.now),
            bytes_in_flight,
        ),
        r == (if segment.retransmitted {
            None
        } else {
            Some(model::round_trip(segment, ack.now))
        }),
{
    let latest_rtt = ack.now.saturating_duration_since(segment.sent_at);
    let sample = if segment.retransmitted {
        Duration::zero()
    } else {
        latest_rtt
    };
    congestion.on_ack(
        ack.now,
        AckedPacket {
            packet_number: segment.packet_number,
            bytes: segment.bytes,
            sent_at: segment.sent_at,
            app_limited: ack.app_limited,
            ecn_ce_count: ack.ecn_ce_count,
        },
        RttSample { latest: sample, min: sample },
        bytes_in_flight,
    );
    if segment.retransmitted {
        None
    } else {
        Some(latest_rtt)
    }
}

impl Clone for TcpRecoveryState {
    fn clone(&self) -> (r: Self)
        ensures
            r.rack_indexed(),
            self.lost_counted() ==> r.lost_counted(),
            r@ == (RecoveryModel {
                bytes_in_flight: arith::saturate_u32(model::total_bytes(self@.samples)),
                ..self@
            }),
    {
        let mut bytes_in_flight: u32 = 0;
        let mut i: usize = 0;
        while i < self.sent_samples.len()
            invariant
                i <= self.sent_samples.len(),
                bytes_in_flight == arith::saturate_u32(model::total_bytes(self.sent_samples@.take(i as int))),
            decreases self.sent_samples.len() - i,
        {
            proof {
                let list = self.sent_samples@;
                assert(list.take(i + 1).drop_last() =~= list.take(i as int));
                model::lemma_total_bytes_nonnegative(list.take(i as int));
            }
            bytes_in_flight = bytes_in_flight.saturating_add(self.sent_samples[i].bytes);
            i = i + 1;
        }
        assert(self.sent_samples@.take(i as int) =~= self.sent_samples@);
        let sent_samples = copy_samples(&self.sent_samples);
        let rack_earliest = scan_earliest(&sent_samples);
        TcpRecoveryState {
            next_packet_number: self.next_packet_number,
            sent_samples,
            bytes_in_flight,
            ack_floor: self.ack_floor,
            scoreboard: TcpScoreboard {
                holes: copy_holes(&self.scoreboard.holes),
                high_sacked: self.scoreboard.high_sacked,
                high_rxt: self.scoreboard.high_rxt,
                lost_bytes: self.scoreboard.lost_bytes,
                reorder: self.scoreboard.reorder,
            },
            rack_earliest,
            rack_timer_armed: self.rack_timer_armed,
            tlp_timer_armed: self.tlp_timer_armed,
            episode: self.episode,
        }
    }
}

impl Default for TcpRecoveryState {
    fn default() -> (r: Self)
        ensures
            r.well_formed(),
            r@ == model::initial_recovery(),
    {
        TcpRecoveryState::new()
    }
}

} // verus!
