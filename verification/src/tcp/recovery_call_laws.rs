//! What one call of the loss recovery does, byte by byte and mark by mark.
use vstd::prelude::*;

use crate::tcp::recovery_laws;
use crate::tcp::recovery_model;
use crate::tcp::recovery_model::{
    RecoveryModel, TcpRecoveryAck, TcpSackBlock, TcpScoreboardHole, TcpSentSample,
};
use crate::tcp::sequence;
use crate::tcp::sequence::TcpSeq;
use crate::time::{Duration, Instant};

verus! {

/// The byte `position` bytes ahead of `base` lies in the range.
pub open spec fn has_byte(base: TcpSeq, range: TcpSentSample, position: int) -> bool {
    recovery_laws::offset(base, range.sequence) <= position < recovery_laws::offset(
        base,
        range.end_sequence,
    )
}

/// The byte `position` bytes ahead of `base` is outstanding.
pub open spec fn outstanding(base: TcpSeq, ranges: Seq<TcpSentSample>, position: int) -> bool {
    exists|i: int| 0 <= i < ranges.len() && has_byte(base, #[trigger] ranges[i], position)
}

/// The byte `position` bytes ahead of `base` is reported by the block.
pub open spec fn block_has(base: TcpSeq, block: TcpSackBlock, position: int) -> bool {
    recovery_laws::offset(base, block.left_edge) <= position < recovery_laws::offset(
        base,
        block.right_edge,
    )
}

/// One of the first `count` blocks reports the byte.
pub open spec fn any_block_has(
    base: TcpSeq,
    blocks: Seq<TcpSackBlock>,
    count: int,
    position: int,
) -> bool {
    exists|i: int| 0 <= i < count && block_has(base, #[trigger] blocks[i], position)
}

proof fn lemma_joined(
    base: TcpSeq,
    a: Seq<TcpSentSample>,
    b: Seq<TcpSentSample>,
    position: int,
)
    ensures
        outstanding(base, a + b, position) == (outstanding(base, a, position) || outstanding(
            base,
            b,
            position,
        )),
{
    let whole = a + b;
    if outstanding(base, whole, position) {
        let i = choose|i: int|
            0 <= i < whole.len() && has_byte(base, #[trigger] whole[i], position);
        if i < a.len() {
            assert(a[i] == whole[i]);
        } else {
            assert(b[i - a.len()] == whole[i]);
        }
    }
    if outstanding(base, a, position) {
        let i = choose|i: int| 0 <= i < a.len() && has_byte(base, #[trigger] a[i], position);
        assert(whole[i] == a[i]);
    }
    if outstanding(base, b, position) {
        let i = choose|i: int| 0 <= i < b.len() && has_byte(base, #[trigger] b[i], position);
        assert(whole[i + a.len()] == b[i]);
    }
}

proof fn lemma_one(base: TcpSeq, range: TcpSentSample, position: int)
    ensures
        outstanding(base, seq![range], position) == has_byte(base, range, position),
        !outstanding(base, Seq::<TcpSentSample>::empty(), position),
{
    let one = seq![range];
    assert(one[0] == range);
}

proof fn lemma_first_and_rest(base: TcpSeq, ranges: Seq<TcpSentSample>, position: int)
    requires
        ranges.len() > 0,
    ensures
        outstanding(base, ranges, position) == (has_byte(base, ranges[0], position) || outstanding(
            base,
            ranges.drop_first(),
            position,
        )),
{
    assert(ranges =~= seq![ranges[0]] + ranges.drop_first());
    lemma_joined(base, seq![ranges[0]], ranges.drop_first(), position);
    lemma_one(base, ranges[0], position);
}

proof fn lemma_rest_in_order(base: TcpSeq, ranges: Seq<TcpSentSample>)
    requires
        recovery_laws::sent_in_order(base, ranges),
        ranges.len() > 0,
    ensures
        recovery_laws::sent_in_order(base, ranges.drop_first()),
        forall|position: int| #[trigger]
            outstanding(base, ranges.drop_first(), position) ==> position
                >= recovery_laws::offset(base, ranges[0].end_sequence),
{
    let rest = ranges.drop_first();
    assert forall|i: int| 0 <= i < rest.len() implies recovery_laws::exact(
        base,
        #[trigger] rest[i],
    ) by {
        assert(rest[i] == ranges[i + 1]);
    }
    assert forall|i: int, j: int| 0 <= i < j < rest.len() implies recovery_laws::offset(
        base,
        (#[trigger] rest[i]).end_sequence,
    ) <= recovery_laws::offset(base, (#[trigger] rest[j]).sequence) by {
        assert(rest[i] == ranges[i + 1]);
        assert(rest[j] == ranges[j + 1]);
    }
    assert forall|position: int| #[trigger] outstanding(base, rest, position) implies position
        >= recovery_laws::offset(base, ranges[0].end_sequence) by {
        let i = choose|i: int|
            0 <= i < rest.len() && has_byte(base, #[trigger] rest[i], position);
        assert(rest[i] == ranges[i + 1]);
    }
}

/// A cumulative acknowledgment takes exactly the outstanding bytes below it and
/// leaves exactly those from it on.
pub proof fn ack_takes_the_bytes_below(
    base: TcpSeq,
    ranges: Seq<TcpSentSample>,
    ack: TcpSeq,
    position: int,
)
    requires
        recovery_laws::sent_in_order(base, ranges),
        recovery_laws::near(base, ack),
    ensures
        outstanding(base, recovery_model::acked_part(ranges, ack), position) == (outstanding(
            base,
            ranges,
            position,
        ) && position < recovery_laws::offset(base, ack)),
        outstanding(base, recovery_model::unacked_part(ranges, ack), position) == (outstanding(
            base,
            ranges,
            position,
        ) && position >= recovery_laws::offset(base, ack)),
    decreases ranges.len(),
{
    let taken = recovery_model::acked_part(ranges, ack);
    let left = recovery_model::unacked_part(ranges, ack);
    if ranges.len() > 0 {
        let first = ranges[0];
        let rest = ranges.drop_first();
        assert(recovery_laws::exact(base, first));
        lemma_rest_in_order(base, ranges);
        lemma_first_and_rest(base, ranges, position);
        lemma_one(base, first, position);
        sequence::order_within_half_space(base, ack, first.sequence);
        sequence::order_within_half_space(base, ack, first.end_sequence);
        if ack.at_or_before(first.sequence) {
            assert(taken =~= seq![]);
        } else if ack.at_or_after(first.end_sequence) {
            ack_takes_the_bytes_below(base, rest, ack, position);
            lemma_joined(base, seq![first], recovery_model::acked_part(rest, ack), position);
        } else {
            lemma_one(base, first.prefix(ack), position);
            lemma_one(base, first.suffix(ack), position);
            lemma_joined(base, seq![first.suffix(ack)], rest, position);
        }
    }
}

proof fn lemma_pieces(base: TcpSeq, range: TcpSentSample, block: TcpSackBlock, position: int)
    requires
        recovery_laws::exact(base, range),
        recovery_laws::sound_block(base, block),
        range.spec_overlaps(block.left_edge, block.right_edge),
    ensures
        has_byte(base, recovery_model::sacked_piece(range, block), position) == (has_byte(
            base,
            range,
            position,
        ) && block_has(base, block, position)),
        outstanding(base, recovery_model::unsacked_pieces(range, block), position) == (has_byte(
            base,
            range,
            position,
        ) && !block_has(base, block, position)),
{
    sequence::order_within_half_space(base, range.sequence, block.left_edge);
    sequence::order_within_half_space(base, range.end_sequence, block.right_edge);
    sequence::order_within_half_space(base, range.end_sequence, block.left_edge);
    sequence::order_within_half_space(base, range.sequence, block.right_edge);
    let start = range.sequence.spec_later(block.left_edge);
    let end = range.end_sequence.spec_earlier(block.right_edge);
    sequence::order_within_half_space(base, start, range.sequence);
    let middle = if start.after(range.sequence) {
        range.suffix(start)
    } else {
        range
    };
    sequence::order_within_half_space(base, end, middle.end_sequence);
    let below = if start.after(range.sequence) {
        seq![range.prefix(start)]
    } else {
        seq![]
    };
    let above = if end.before(middle.end_sequence) {
        seq![middle.suffix(end)]
    } else {
        seq![]
    };
    lemma_joined(base, below, above, position);
    lemma_one(base, range.prefix(start), position);
    lemma_one(base, middle.suffix(end), position);
}

/// A SACK block takes exactly the outstanding bytes that it reports.
pub proof fn sack_takes_its_bytes(
    base: TcpSeq,
    ranges: Seq<TcpSentSample>,
    block: TcpSackBlock,
    position: int,
)
    requires
        recovery_laws::sent_in_order(base, ranges),
        recovery_laws::sound_block(base, block),
    ensures
        outstanding(base, recovery_model::sacked_part(ranges, block), position) == (outstanding(
            base,
            ranges,
            position,
        ) && block_has(base, block, position)),
        outstanding(base, recovery_model::unsacked_part(ranges, block), position) == (outstanding(
            base,
            ranges,
            position,
        ) && !block_has(base, block, position)),
    decreases ranges.len(),
{
    if ranges.len() > 0 {
        let first = ranges[0];
        let rest = ranges.drop_first();
        assert(recovery_laws::exact(base, first));
        lemma_rest_in_order(base, ranges);
        lemma_first_and_rest(base, ranges, position);
        lemma_one(base, first, position);
        sequence::order_within_half_space(base, block.right_edge, first.sequence);
        sequence::order_within_half_space(base, first.end_sequence, block.left_edge);
        sequence::order_within_half_space(base, first.sequence, block.right_edge);
        if block.right_edge.before(first.sequence) {
            assert(recovery_model::sacked_part(ranges, block) =~= seq![]);
        } else {
            sack_takes_its_bytes(base, rest, block, position);
            if first.spec_overlaps(block.left_edge, block.right_edge) {
                lemma_pieces(base, first, block, position);
                lemma_one(base, recovery_model::sacked_piece(first, block), position);
                lemma_joined(
                    base,
                    seq![recovery_model::sacked_piece(first, block)],
                    recovery_model::sacked_part(rest, block),
                    position,
                );
                lemma_joined(
                    base,
                    recovery_model::unsacked_pieces(first, block),
                    recovery_model::unsacked_part(rest, block),
                    position,
                );
            } else {
                lemma_joined(
                    base,
                    seq![first],
                    recovery_model::unsacked_part(rest, block),
                    position,
                );
            }
        }
    }
}

proof fn lemma_sacks(
    base: TcpSeq,
    ranges: Seq<TcpSentSample>,
    blocks: Seq<TcpSackBlock>,
    count: int,
    position: int,
)
    requires
        recovery_laws::sent_in_order(base, ranges),
        0 <= count <= blocks.len(),
        forall|i: int|
            0 <= i < blocks.len() ==> recovery_laws::sound_block(base, #[trigger] blocks[i]),
    ensures
        recovery_laws::sent_in_order(base, recovery_model::all_unsacked(ranges, blocks, count)),
        outstanding(base, recovery_model::all_unsacked(ranges, blocks, count), position) == (
        outstanding(base, ranges, position) && !any_block_has(base, blocks, count, position)),
    decreases count,
{
    if count > 0 {
        lemma_sacks(base, ranges, blocks, count - 1, position);
        let before = recovery_model::all_unsacked(ranges, blocks, count - 1);
        let block = blocks[count - 1];
        sequence::order_within_half_space(base, block.left_edge, block.right_edge);
        lemma_in_order_is_placed(base, before);
        recovery_laws::sack_conserves_bytes(base, before, block);
        sack_takes_its_bytes(base, before, block, position);
        if any_block_has(base, blocks, count, position) && !any_block_has(
            base,
            blocks,
            count - 1,
            position,
        ) {
            let i = choose|i: int|
                0 <= i < count && block_has(base, #[trigger] blocks[i], position);
            assert(i == count - 1);
        }
        if block_has(base, block, position) {
            assert(any_block_has(base, blocks, count, position));
        }
        if any_block_has(base, blocks, count - 1, position) {
            let i = choose|i: int|
                0 <= i < count - 1 && block_has(base, #[trigger] blocks[i], position);
            assert(block_has(base, blocks[i], position));
        }
    }
}

proof fn lemma_in_order_is_placed(base: TcpSeq, ranges: Seq<TcpSentSample>)
    requires
        recovery_laws::sent_in_order(base, ranges),
    ensures
        recovery_laws::placed(base, ranges),
{
    assert forall|i: int| 0 <= i < ranges.len() implies recovery_laws::fits(
        base,
        #[trigger] ranges[i],
    ) by {
        assert(recovery_laws::exact(base, ranges[i]));
    }
}

proof fn lemma_same_bytes(
    base: TcpSeq,
    a: Seq<TcpSentSample>,
    b: Seq<TcpSentSample>,
    position: int,
)
    requires
        a.len() == b.len(),
        forall|i: int|
            0 <= i < a.len() ==> (#[trigger] a[i]).sequence == b[i].sequence && a[i].end_sequence
                == b[i].end_sequence,
    ensures
        outstanding(base, a, position) == outstanding(base, b, position),
{
    if outstanding(base, a, position) {
        let i = choose|i: int| 0 <= i < a.len() && has_byte(base, #[trigger] a[i], position);
        assert(has_byte(base, b[i], position));
    }
    if outstanding(base, b, position) {
        let i = choose|i: int| 0 <= i < b.len() && has_byte(base, #[trigger] b[i], position);
        assert(has_byte(base, a[i], position));
    }
}

/// After a cumulative acknowledgment exactly the bytes from it on are outstanding.
pub proof fn acknowledged_bytes_are_gone(
    base: TcpSeq,
    m: RecoveryModel,
    ack: TcpSeq,
    max_datagram_size: u32,
    position: int,
)
    requires
        recovery_laws::sent_in_order(base, m.samples),
        recovery_laws::near(base, ack),
    ensures
        outstanding(base, m.acked(ack, max_datagram_size).samples, position) == (outstanding(
            base,
            m.samples,
            position,
        ) && position >= recovery_laws::offset(base, ack)),
        m.acked(ack, max_datagram_size).ack_floor == ack,
        m.acked(ack, max_datagram_size).tlp_timer_armed == (m.acked(
            ack,
            max_datagram_size,
        ).bytes_in_flight != 0),
{
    ack_takes_the_bytes_below(base, m.samples, ack, position);
    lemma_same_bytes(
        base,
        recovery_model::unacked_part(m.samples, ack),
        m.acked(ack, max_datagram_size).samples,
        position,
    );
}

/// After an acknowledgment with SACK blocks exactly the bytes are outstanding that
/// neither it nor one of the blocks covers.
pub proof fn reported_bytes_are_gone(
    base: TcpSeq,
    m: RecoveryModel,
    ack: TcpRecoveryAck,
    blocks: Seq<TcpSackBlock>,
    max_datagram_size: u32,
    position: int,
)
    requires
        recovery_laws::sent_in_order(base, m.samples),
        recovery_laws::near(base, ack.acknowledgment),
        forall|i: int|
            0 <= i < blocks.len() ==> recovery_laws::sound_block(base, #[trigger] blocks[i]),
    ensures
        outstanding(base, m.sacked(ack, blocks, max_datagram_size).samples, position) == (
        outstanding(base, m.samples, position) && position >= recovery_laws::offset(
            base,
            ack.acknowledgment,
        ) && !any_block_has(base, blocks, blocks.len() as int, position)),
{
    let floor = ack.acknowledgment;
    ack_takes_the_bytes_below(base, m.samples, floor, position);
    lemma_in_order_is_placed(base, m.samples);
    recovery_laws::ack_conserves_bytes(base, m.samples, floor);
    let left = recovery_model::unacked_part(m.samples, floor);
    lemma_sacks(base, left, blocks, blocks.len() as int, position);
    lemma_same_bytes(
        base,
        recovery_model::all_unsacked(left, blocks, blocks.len() as int),
        m.sacked(ack, blocks, max_datagram_size).samples,
        position,
    );
}

/// The highest byte that a run of blocks reports ends at `high`.
pub open spec fn reaches(floor: TcpSeq, blocks: Seq<TcpSackBlock>, high: TcpSeq) -> bool {
    &&& high == floor || exists|i: int|
        0 <= i < blocks.len() && (#[trigger] blocks[i]).right_edge == high
    &&& high.at_or_after(floor)
    &&& forall|i: int|
        0 <= i < blocks.len() ==> high.at_or_after((#[trigger] blocks[i]).right_edge)
}

proof fn lemma_high(
    base: TcpSeq,
    floor: TcpSeq,
    blocks: Seq<TcpSackBlock>,
    count: int,
    high: TcpSeq,
)
    requires
        0 <= count <= blocks.len(),
        recovery_laws::near(base, floor),
        recovery_laws::near(base, high),
        forall|i: int|
            0 <= i < blocks.len() ==> recovery_laws::near(base, (#[trigger] blocks[i]).right_edge),
    ensures
        ({
            let found = recovery_model::highest_right_edge(floor, blocks, count);
            &&& recovery_laws::near(base, found)
            &&& found == floor || exists|i: int|
                0 <= i < count && (#[trigger] blocks[i]).right_edge == found
            &&& recovery_laws::offset(base, found) >= recovery_laws::offset(base, floor)
            &&& forall|i: int|
                0 <= i < count ==> recovery_laws::offset(base, found) >= recovery_laws::offset(
                    base,
                    (#[trigger] blocks[i]).right_edge,
                )
        }),
    decreases count,
{
    if count > 0 {
        lemma_high(base, floor, blocks, count - 1, high);
        let before = recovery_model::highest_right_edge(floor, blocks, count - 1);
        let edge = blocks[count - 1].right_edge;
        sequence::order_within_half_space(base, before, edge);
    }
}

/// After SACK blocks every outstanding range that ends below the highest reported
/// byte is lost or has a deadline: the one it had, or the end of the reordering
/// window from now on. No range above it got one.
pub proof fn passed_over_ranges_get_a_deadline(
    base: TcpSeq,
    m: RecoveryModel,
    ack: TcpRecoveryAck,
    blocks: Seq<TcpSackBlock>,
    max_datagram_size: u32,
    high: TcpSeq,
    range: int,
)
    requires
        recovery_laws::near(base, ack.acknowledgment),
        recovery_laws::near(base, high),
        forall|i: int|
            0 <= i < blocks.len() ==> recovery_laws::near(base, (#[trigger] blocks[i]).right_edge),
        reaches(ack.acknowledgment, blocks, high),
        0 <= range < m.sacked(ack, blocks, max_datagram_size).samples.len(),
        ack.now.nanos + ack.reordering_window.nanos <= u128::MAX,
    ensures
        ({
            let after = m.sacked(ack, blocks, max_datagram_size);
            let before = recovery_model::all_unsacked(
                recovery_model::unacked_part(m.samples, ack.acknowledgment),
                blocks,
                blocks.len() as int,
            )[range];
            let deadline = ack.now.nanos + ack.reordering_window.nanos;
            let marked = after.samples[range];
            let passed = high != ack.acknowledgment && marked.end_sequence.before(high)
                && !marked.lost && before.rack_deadline is None;
            &&& passed ==> marked.rack_deadline is Some && marked.rack_deadline->0.nanos
                == deadline
            &&& !passed ==> marked.rack_deadline == before.rack_deadline
            &&& before.lost ==> marked.lost
            &&& marked.retransmitted == before.retransmitted
            &&& marked.sent_at == before.sent_at
            &&& marked.bytes == before.bytes && marked.payload_len == before.payload_len
        }),
{
    let floor = ack.acknowledgment;
    lemma_high(base, floor, blocks, blocks.len() as int, high);
    let found = recovery_model::highest_right_edge(floor, blocks, blocks.len() as int);
    sequence::order_within_half_space(base, high, floor);
    sequence::order_within_half_space(base, high, found);
    if found != floor {
        let i = choose|i: int|
            0 <= i < blocks.len() && (#[trigger] blocks[i]).right_edge == found;
        sequence::order_within_half_space(base, high, blocks[i].right_edge);
    }
    if high != floor {
        let i = choose|i: int|
            0 <= i < blocks.len() && (#[trigger] blocks[i]).right_edge == high;
        assert(recovery_laws::offset(base, found) >= recovery_laws::offset(
            base,
            blocks[i].right_edge,
        ));
    }
    assert(found == high);
}

/// A hole is lost where three holes lie above it, or more than two datagrams between
/// the holes above it; where neither holds it is not. Only ranges in a lost hole
/// become lost by it.
pub proof fn hole_is_lost_behind_three(
    holes: Seq<TcpScoreboardHole>,
    index: int,
    max_datagram_size: u32,
)
    requires
        0 <= index < holes.len(),
        0 < max_datagram_size,
        2 * max_datagram_size <= u32::MAX,
    ensures
        ({
            let decided = recovery_model::holes_decided(holes, 3, max_datagram_size);
            &&& decided.len() == holes.len()
            &&& decided[index].start == holes[index].start
            &&& decided[index].end == holes[index].end
            &&& index + 3 < holes.len() ==> decided[index].lost
            &&& index == holes.len() - 1 ==> !decided[index].lost
            &&& index == holes.len() - 2 ==> decided[index].lost == (
            holes[index].end.spec_distance_to(holes[index + 1].start) > 2 * max_datagram_size)
            &&& index == holes.len() - 3 && holes[index].end.spec_distance_to(
                holes[index + 1].start,
            ) + holes[index + 1].end.spec_distance_to(holes[index + 2].start) <= u32::MAX
                ==> decided[index].lost == (holes[index].end.spec_distance_to(
                holes[index + 1].start,
            ) + holes[index + 1].end.spec_distance_to(holes[index + 2].start) > 2
                * max_datagram_size)
        }),
{
    reveal_with_fuel(recovery_model::sacked_ahead, 4);
}

/// A range becomes lost by the scoreboard exactly where it shares a byte with a lost
/// hole.
pub proof fn ranges_in_lost_holes_are_lost(
    m: RecoveryModel,
    holes: Seq<TcpScoreboardHole>,
    max_datagram_size: u32,
    range: int,
)
    requires
        0 <= range < m.samples.len(),
    ensures
        ({
            let after = m.with_holes(holes, max_datagram_size);
            &&& after.samples.len() == m.samples.len()
            &&& after.samples[range].lost == (m.samples[range].lost || exists|k: int|
                0 <= k < after.holes.len() && (#[trigger] after.holes[k]).lost
                    && after.holes[k].end.after(after.holes[k].start)
                    && m.samples[range].end_sequence.after(after.holes[k].start)
                    && m.samples[range].sequence.before(after.holes[k].end))
        }),
{
    let after = m.with_holes(holes, max_datagram_size);
    let sample = m.samples[range];
    if recovery_model::in_lost_hole(sample, after.holes, 0) {
        let k = choose|k: int|
            0 <= k < after.holes.len() && (#[trigger] after.holes[k]).lost
                && after.holes[k].end.after(after.holes[k].start) && sample.spec_overlaps(
                after.holes[k].start,
                after.holes[k].end,
            );
        assert(after.holes[k].lost && sample.end_sequence.after(after.holes[k].start)
            && sample.sequence.before(after.holes[k].end));
    }
}

/// What is sent is outstanding, counted, and starts the wait for a probe.
pub proof fn sent_range_is_counted(m: RecoveryModel, sample: TcpSentSample)
    requires
        m.bytes_in_flight + sample.bytes <= u32::MAX,
    ensures
        m.recorded(sample).samples.len() == m.samples.len() + 1,
        m.recorded(sample).samples.last() == sample,
        forall|i: int|
            0 <= i < m.samples.len() ==> #[trigger] m.recorded(sample).samples[i] == m.samples[i],
        m.recorded(sample).bytes_in_flight == m.bytes_in_flight + sample.bytes,
        m.recorded(sample).tlp_timer_armed,
        m.recorded(sample).episode == m.episode,
        m.recorded(sample).holes == m.holes,
{
}

/// The retransmission timeout sends the oldest range again and starts an episode, or
/// stretches the one that runs to everything sent so far.
pub proof fn timeout_resends_the_oldest(
    m: RecoveryModel,
    snd_nxt: TcpSeq,
    window_before: u32,
    window_after: u32,
)
    requires
        m.samples.len() > 0,
    ensures
        ({
            let after = m.retransmission_timed_out(snd_nxt, window_before, window_after);
            &&& after.samples.len() == m.samples.len()
            &&& after.samples[0] == (TcpSentSample {
                retransmitted: true,
                rack_deadline: None,
                ..m.samples[0]
            })
            &&& forall|i: int|
                0 < i < m.samples.len() ==> #[trigger] after.samples[i] == m.samples[i]
            &&& after.bytes_in_flight == m.bytes_in_flight
            &&& !after.rack_timer_armed
            &&& after.tlp_timer_armed == (m.bytes_in_flight != 0)
            &&& after.episode.active
            &&& !m.episode.active ==> {
                &&& after.episode.window == window_after
                &&& after.episode.prev_window == (if window_before == 0 {
                    1
                } else {
                    window_before
                })
                &&& after.episode.delivered == 0 && after.episode.retransmitted == 0
                    && after.episode.new_data == 0
                &&& after.episode.end_sequence == snd_nxt
            }
            &&& m.episode.active ==> {
                &&& after.episode.window == (if window_after < m.episode.window {
                    window_after
                } else {
                    m.episode.window
                })
                &&& after.episode.prev_window == m.episode.prev_window
                &&& after.episode.delivered == m.episode.delivered
                &&& after.episode.retransmitted == m.episode.retransmitted
                &&& after.episode.new_data == m.episode.new_data
                &&& after.episode.end_sequence == (if snd_nxt.after(m.episode.end_sequence) {
                    snd_nxt
                } else {
                    m.episode.end_sequence
                })
            }
        }),
{
}

/// The range that was lost and goes out next is marked; the others stay.
pub proof fn taken_retransmission_is_marked(m: RecoveryModel, range: int)
    requires
        0 <= range < m.samples.len(),
        m.samples[range].lost && !m.samples[range].retransmitted,
        forall|i: int|
            0 <= i < range ==> !((#[trigger] m.samples[i]).lost && !m.samples[i].retransmitted),
    ensures
        ({
            let after = m.retransmit_taken();
            &&& after.samples == m.samples.update(
                range,
                TcpSentSample { retransmitted: true, rack_deadline: None, ..m.samples[range] },
            )
            &&& after.high_rxt == m.samples[range].end_sequence
            &&& after.bytes_in_flight == m.bytes_in_flight
            &&& after.episode == m.episode
        }),
    decreases m.samples.len(),
{
    lemma_first_lost_is(m.samples, range);
}

proof fn lemma_first_lost_is(samples: Seq<TcpSentSample>, range: int)
    requires
        0 <= range < samples.len(),
        samples[range].lost && !samples[range].retransmitted,
        forall|i: int|
            0 <= i < range ==> !((#[trigger] samples[i]).lost && !samples[i].retransmitted),
    ensures
        recovery_model::first_lost(samples) == range,
    decreases samples.len(),
{
    if range > 0 {
        let rest = samples.drop_first();
        assert(!(samples[0].lost && !samples[0].retransmitted));
        assert(rest[range - 1] == samples[range]);
        assert forall|i: int| 0 <= i < range - 1 implies !((#[trigger] rest[i]).lost
            && !rest[i].retransmitted) by {
            assert(rest[i] == samples[i + 1]);
        }
        lemma_first_lost_is(rest, range - 1);
    }
}

/// An episode ends when everything sent before it is acknowledged, and not earlier.
pub proof fn episode_ends_at_its_mark(m: RecoveryModel, ack: TcpSeq, max_datagram_size: u32)
    ensures
        m.acked(ack, max_datagram_size).episode.active == (m.episode.active && ack.before(
            m.episode.end_sequence,
        )),
        m.episode.active && ack.before(m.episode.end_sequence) ==> {
            let after = m.acked(ack, max_datagram_size);
            &&& after.episode.window == m.episode.window
            &&& after.episode.prev_window == m.episode.prev_window
            &&& after.episode.end_sequence == m.episode.end_sequence
            &&& after.episode.retransmitted == m.episode.retransmitted
            &&& after.episode.new_data == m.episode.new_data
        },
{
}

/// During an episode an acknowledgment that takes something and leaves something has
/// the oldest range that is left sent again, unless a deadline runs for it.
pub proof fn partial_ack_queues_the_oldest(
    m: RecoveryModel,
    ack: TcpSeq,
    max_datagram_size: u32,
)
    requires
        m.episode.active,
        ack.before(m.episode.end_sequence),
        recovery_model::acked_part(m.samples, ack).len() > 0,
        recovery_model::unacked_part(m.samples, ack).len() > 0,
    ensures
        ({
            let oldest = m.acked(ack, max_datagram_size).samples[0];
            oldest.lost || oldest.rack_deadline is Some
        }),
{
}

/// Above its window an episode sends in the proportion in which it delivers; below it
/// sends what was delivered and one datagram more, up to the window. The first
/// datagram always may go.
pub proof fn episode_sends_in_proportion(
    m: RecoveryModel,
    bytes_in_flight: u32,
    max_datagram_size: u32,
)
    requires
        m.episode.active,
        0 < max_datagram_size,
        m.episode.retransmitted + m.episode.new_data <= u32::MAX,
        m.episode.delivered + max_datagram_size <= u32::MAX,
        0 < m.episode.prev_window,
        m.episode.delivered * m.episode.window / (m.episode.prev_window as int) <= u32::MAX,
    ensures
        ({
            let sent = m.episode.retransmitted + m.episode.new_data;
            let due = if bytes_in_flight > m.episode.window {
                m.episode.delivered * m.episode.window / (m.episode.prev_window as int) - sent
            } else {
                vstd::math::min(
                    m.episode.window - bytes_in_flight,
                    (if m.episode.delivered > sent {
                        m.episode.delivered - sent
                    } else {
                        0
                    }) + max_datagram_size,
                )
            };
            let space = if due < 0 {
                0
            } else {
                due
            };
            m.send_space(bytes_in_flight, max_datagram_size) matches Some(granted) && granted == (
            if sent == 0 && space < max_datagram_size {
                max_datagram_size as int
            } else {
                space
            })
        }),
{
    let product = m.episode.delivered * m.episode.window;
    assert(0 <= product) by (nonlinear_arith)
        requires
            product == m.episode.delivered * m.episode.window,
            0 <= m.episode.delivered,
            0 <= m.episode.window,
    ;
    assert(0 <= product / (m.episode.prev_window as int)) by (nonlinear_arith)
        requires
            0 <= product,
            0 < m.episode.prev_window,
    ;
}

/// Outside an episode recovery grants nothing of its own.
pub proof fn no_episode_grants_no_space(m: RecoveryModel, bytes_in_flight: u32, size: u32)
    ensures
        (m.send_space(bytes_in_flight, size) is None) == !m.episode.active,
{
}

/// A probe waits two round trips, or twice the timeout where none is known, at least
/// 10 ms and at most the timeout; only with something in flight, and only once.
pub proof fn probe_waits_two_round_trips(
    m: RecoveryModel,
    srtt: Option<Duration>,
    rto: Duration,
)
    requires
        srtt matches Some(rtt) ==> rtt.nanos * 2 <= crate::time::MAX_DURATION_NANOS,
        rto.nanos * 2 <= crate::time::MAX_DURATION_NANOS,
        rto.nanos >= 10_000_000,
    ensures
        (m.probe_timeout(srtt, rto) is Some) == (m.tlp_timer_armed && m.bytes_in_flight > 0),
        m.probe_timeout(srtt, rto) matches Some(span) ==> {
            let doubled = match srtt {
                Some(rtt) => 2 * rtt.nanos,
                None => 2 * rto.nanos,
            };
            &&& 10_000_000 <= span.nanos <= rto.nanos
            &&& doubled <= 10_000_000 ==> span.nanos == 10_000_000
            &&& 10_000_000 <= doubled <= rto.nanos ==> span.nanos == doubled
            &&& doubled >= rto.nanos ==> span.nanos == rto.nanos
        },
{
}

/// The round trip that an acknowledgment tells of is that of the last range it takes
/// that went out once; if all went out twice it tells of none.
pub proof fn newest_single_range_is_measured(
    taken: Seq<TcpSentSample>,
    newest: int,
    now: Instant,
)
    requires
        -1 <= newest < taken.len(),
        newest >= 0 ==> !taken[newest].retransmitted,
        forall|i: int| newest < i < taken.len() ==> (#[trigger] taken[i]).retransmitted,
    ensures
        newest < 0 ==> recovery_model::latest_round_trip(taken, now) is None,
        newest >= 0 ==> recovery_model::latest_round_trip(taken, now) == Some(
            Duration {
                nanos: (if now.nanos >= taken[newest].sent_at.nanos {
                    now.nanos - taken[newest].sent_at.nanos
                } else {
                    0
                }) as u128,
            },
        ),
    decreases taken.len(),
{
    if taken.len() > 0 && newest < taken.len() - 1 {
        assert(taken[taken.len() - 1].retransmitted);
        newest_single_range_is_measured(taken.drop_last(), newest, now);
    }
}

/// Cutting a range in two keeps its ends, its time and its marks; each part knows its
/// own length.
pub proof fn cut_range_keeps_its_marks(base: TcpSeq, range: TcpSentSample, at: TcpSeq)
    requires
        recovery_laws::exact(base, range),
        range.bytes == recovery_laws::offset(base, range.end_sequence) - recovery_laws::offset(
            base,
            range.sequence,
        ),
        recovery_laws::offset(base, range.sequence) < recovery_laws::offset(base, at)
            < recovery_laws::offset(base, range.end_sequence),
        range.payload_len == range.bytes,
    ensures
        ({
            let below = range.prefix(at);
            let above = range.suffix(at);
            let len = recovery_laws::offset(base, at) - recovery_laws::offset(
                base,
                range.sequence,
            );
            &&& below.sequence == range.sequence && below.end_sequence == at
            &&& above.sequence == at && above.end_sequence == range.end_sequence
            &&& below.bytes == len && above.bytes == range.bytes - len
            &&& below.payload_len == len && above.payload_len == range.bytes - len
            &&& below.lost == range.lost && above.lost == range.lost
            &&& below.retransmitted == range.retransmitted && above.retransmitted
                == range.retransmitted
            &&& below.rack_deadline == range.rack_deadline && above.rack_deadline
                == range.rack_deadline
            &&& below.sent_at == range.sent_at && above.sent_at == range.sent_at
            &&& below.packet_number == range.packet_number && above.packet_number
                == range.packet_number
        }),
{
    let len = range.sequence.spec_distance_to(at) as int;
    let bytes = range.bytes as int;
    assert(bytes * len / bytes == len) by (nonlinear_arith)
        requires
            bytes > 0,
    ;
}

/// A new recovery state has nothing outstanding, counts packets from one and takes
/// three holes for a loss.
pub proof fn new_recovery_is_empty()
    ensures
        recovery_model::initial_recovery().samples.len() == 0,
        recovery_model::initial_recovery().holes.len() == 0,
        recovery_model::initial_recovery().bytes_in_flight == 0,
        recovery_model::initial_recovery().next_packet_number == 1,
        recovery_model::initial_recovery().reorder == 3,
        !recovery_model::initial_recovery().episode.active,
        !recovery_model::initial_recovery().tlp_timer_armed,
        !recovery_model::initial_recovery().rack_timer_armed,
{
}

/// The byte `position` bytes ahead of `base` lies in one of the holes.
pub open spec fn hole_has(base: TcpSeq, holes: Seq<TcpScoreboardHole>, position: int) -> bool {
    exists|i: int|
        0 <= i < holes.len() && recovery_laws::offset(base, (#[trigger] holes[i]).start)
            <= position < recovery_laws::offset(base, holes[i].end)
}

proof fn lemma_holes_joined(
    base: TcpSeq,
    a: Seq<TcpScoreboardHole>,
    b: Seq<TcpScoreboardHole>,
    position: int,
)
    ensures
        hole_has(base, a + b, position) == (hole_has(base, a, position) || hole_has(
            base,
            b,
            position,
        )),
{
    let whole = a + b;
    if hole_has(base, whole, position) {
        let i = choose|i: int|
            0 <= i < whole.len() && recovery_laws::offset(base, (#[trigger] whole[i]).start)
                <= position < recovery_laws::offset(base, whole[i].end);
        if i < a.len() {
            assert(a[i] == whole[i]);
        } else {
            assert(b[i - a.len()] == whole[i]);
        }
    }
    if hole_has(base, a, position) {
        let i = choose|i: int|
            0 <= i < a.len() && recovery_laws::offset(base, (#[trigger] a[i]).start) <= position
                < recovery_laws::offset(base, a[i].end);
        assert(whole[i] == a[i]);
    }
    if hole_has(base, b, position) {
        let i = choose|i: int|
            0 <= i < b.len() && recovery_laws::offset(base, (#[trigger] b[i]).start) <= position
                < recovery_laws::offset(base, b[i].end);
        assert(whole[i + a.len()] == b[i]);
    }
}

proof fn lemma_one_hole(base: TcpSeq, hole: TcpScoreboardHole, position: int)
    ensures
        hole_has(base, seq![hole], position) == (recovery_laws::offset(base, hole.start)
            <= position < recovery_laws::offset(base, hole.end)),
        !hole_has(base, Seq::<TcpScoreboardHole>::empty(), position),
{
    let one = seq![hole];
    assert(one[0] == hole);
}

/// The holes of the scoreboard are exactly the bytes from the acknowledgment up to the
/// highest reported one that are not outstanding.
pub proof fn holes_are_what_is_not_outstanding(
    base: TcpSeq,
    ranges: Seq<TcpSentSample>,
    from: TcpSeq,
    ack: TcpSeq,
    high: TcpSeq,
    position: int,
)
    requires
        recovery_laws::sent_in_order(base, ranges),
        recovery_laws::above(base, ranges, from),
        recovery_laws::near(base, from),
        recovery_laws::near(base, ack),
        recovery_laws::near(base, high),
        recovery_laws::offset(base, ack) <= recovery_laws::offset(base, from)
            <= recovery_laws::offset(base, high),
    ensures
        hole_has(base, recovery_model::gaps_from(ranges, from, ack, high), position) == (
        recovery_laws::offset(base, from) <= position < recovery_laws::offset(base, high)
            && !outstanding(base, ranges, position)),
    decreases ranges.len(),
{
    let holes = recovery_model::gaps_from(ranges, from, ack, high);
    sequence::order_within_half_space(base, from, high);
    if ranges.len() == 0 {
        lemma_one_hole(
            base,
            TcpScoreboardHole { start: from, end: high, lost: false },
            position,
        );
        if !from.before(high) {
            assert(holes =~= seq![]);
        }
    } else {
        let first = ranges[0];
        let rest = ranges.drop_first();
        assert(recovery_laws::exact(base, first));
        lemma_rest_in_order(base, ranges);
        lemma_first_and_rest(base, ranges, position);
        sequence::order_within_half_space(base, first.end_sequence, ack);
        sequence::order_within_half_space(base, first.sequence, high);
        sequence::order_within_half_space(base, first.sequence, from);
        sequence::order_within_half_space(base, first.end_sequence, from);
        sequence::order_within_half_space(base, first.end_sequence, high);
        let end = first.sequence.spec_earlier(high);
        sequence::order_within_half_space(base, end, from);
        let hole = TcpScoreboardHole { start: from, end, lost: false };
        let gap = if first.sequence.after(from) && end.after(from) {
            seq![hole]
        } else {
            seq![]
        };
        lemma_one_hole(base, hole, position);
        let next = from.spec_later(first.end_sequence);
        sequence::order_within_half_space(base, next, high);
        if next.at_or_after(high) {
            assert(holes == gap);
        } else {
            assert(holes == gap + recovery_model::gaps_from(rest, next, ack, high));
            assert forall|i: int| 0 <= i < rest.len() implies recovery_laws::offset(base, next)
                <= recovery_laws::offset(base, (#[trigger] rest[i]).sequence) by {
                assert(rest[i] == ranges[i + 1]);
            }
            holes_are_what_is_not_outstanding(base, rest, next, ack, high, position);
            lemma_holes_joined(
                base,
                gap,
                recovery_model::gaps_from(rest, next, ack, high),
                position,
            );
        }
    }
}

/// What counts as lost is the bytes of the lost ranges.
pub proof fn lost_bytes_are_counted(ranges: Seq<TcpSentSample>, range: TcpSentSample)
    ensures
        recovery_model::lost_total(ranges.push(range)) == recovery_model::lost_total(ranges) + (
        if range.lost {
            range.bytes as int
        } else {
            0
        }),
        recovery_model::lost_total(Seq::<TcpSentSample>::empty()) == 0,
        recovery_model::total_bytes(ranges.push(range)) == recovery_model::total_bytes(ranges)
            + range.bytes,
{
    assert(ranges.push(range).drop_last() =~= ranges);
}

/// The tie between what is acknowledged and the episode: its bytes count as
/// delivered.
pub proof fn delivered_bytes_are_credited(
    m: RecoveryModel,
    taken: Seq<TcpSentSample>,
    rest: Seq<TcpSentSample>,
)
    requires
        m.episode.active,
        0 <= recovery_model::total_bytes(taken) <= m.bytes_in_flight,
        m.episode.delivered + recovery_model::total_bytes(taken) <= u32::MAX,
    ensures
        m.taken(taken, rest).episode.delivered == m.episode.delivered
            + recovery_model::total_bytes(taken),
        m.taken(taken, rest).bytes_in_flight == m.bytes_in_flight - recovery_model::total_bytes(
            taken,
        ),
        m.taken(taken, rest).samples == rest,
{
}

/// Cutting a range shares its payload out in proportion to the lengths, rounded down
/// below the cut; nothing of it is lost or counted twice.
pub proof fn cut_range_shares_its_payload(range: TcpSentSample, at: TcpSeq)
    requires
        0 < range.sequence.spec_distance_to(at) <= range.bytes,
    ensures
        ({
            let len = range.sequence.spec_distance_to(at);
            let below = range.prefix(at).payload_len;
            &&& below * range.bytes <= range.payload_len * len
            &&& range.payload_len * len < (below + 1) * range.bytes
            &&& below <= range.payload_len
            &&& below + range.suffix(at).payload_len == range.payload_len
        }),
{
    let len = range.sequence.spec_distance_to(at) as int;
    let bytes = range.bytes as int;
    let payload = range.payload_len as int;
    let share = (payload * len) / bytes;
    assert(share * bytes <= payload * len < (share + 1) * bytes && 0 <= share <= payload)
        by (nonlinear_arith)
        requires
            0 < len <= bytes,
            0 <= payload,
            share == (payload * len) / bytes,
    ;
    assert(payload == 0 ==> payload * len == 0) by (nonlinear_arith);
    assert(0 < (0 + 1) * bytes) by (nonlinear_arith)
        requires
            0 < bytes,
    ;
}

/// The marks after a cumulative acknowledgment: it is the floor, nothing above it went
/// out again, and the highest reported byte does not lie below it.
pub proof fn acknowledgment_sets_the_marks(m: RecoveryModel, ack: TcpSeq, max_datagram_size: u32)
    ensures
        ({
            let after = m.acked(ack, max_datagram_size);
            &&& after.ack_floor == ack
            &&& after.high_rxt == ack
            &&& after.high_sacked == (if m.high_sacked.after(ack) {
                m.high_sacked
            } else {
                ack
            })
            &&& after.reorder == m.reorder
            &&& after.next_packet_number == m.next_packet_number
            &&& after.tlp_timer_armed == (after.bytes_in_flight != 0)
            &&& after.samples.len() == 0 ==> after.holes.len() == 0
        }),
{
}

proof fn lemma_highest(base: TcpSeq, floor: TcpSeq, blocks: Seq<TcpSackBlock>, count: int)
    requires
        0 <= count <= blocks.len(),
        recovery_laws::near(base, floor),
        forall|i: int|
            0 <= i < blocks.len() ==> recovery_laws::near(base, (#[trigger] blocks[i]).right_edge),
    ensures
        ({
            let high = recovery_model::highest_right_edge(floor, blocks, count);
            &&& recovery_laws::near(base, high)
            &&& recovery_laws::offset(base, floor) <= recovery_laws::offset(base, high)
            &&& forall|i: int|
                0 <= i < count ==> recovery_laws::offset(base, (#[trigger] blocks[i]).right_edge)
                    <= recovery_laws::offset(base, high)
            &&& high == floor || exists|i: int|
                0 <= i < count && high == (#[trigger] blocks[i]).right_edge
        }),
    decreases count,
{
    if count > 0 {
        lemma_highest(base, floor, blocks, count - 1);
        let below = recovery_model::highest_right_edge(floor, blocks, count - 1);
        assert(recovery_laws::near(base, blocks[count - 1].right_edge));
        sequence::order_within_half_space(base, below, blocks[count - 1].right_edge);
        sequence::order_within_half_space(base, blocks[count - 1].right_edge, below);
    }
}

/// The marks after an acknowledgment with blocks: the highest reported byte is the
/// highest right edge, the reordering threshold starts over at three, and nothing
/// above the acknowledgment went out again.
pub proof fn report_sets_the_marks(
    base: TcpSeq,
    m: RecoveryModel,
    ack: TcpRecoveryAck,
    blocks: Seq<TcpSackBlock>,
    max_datagram_size: u32,
)
    requires
        recovery_laws::near(base, ack.acknowledgment),
        forall|i: int|
            0 <= i < blocks.len() ==> recovery_laws::near(base, (#[trigger] blocks[i]).right_edge),
    ensures
        ({
            let after = m.sacked(ack, blocks, max_datagram_size);
            &&& after.ack_floor == ack.acknowledgment
            &&& after.high_rxt == ack.acknowledgment
            &&& after.reorder == 3
            &&& after.next_packet_number == m.next_packet_number
            &&& after.tlp_timer_armed == (after.bytes_in_flight != 0)
            &&& recovery_laws::offset(base, ack.acknowledgment) <= recovery_laws::offset(
                base,
                after.high_sacked,
            )
            &&& forall|i: int|
                0 <= i < blocks.len() ==> recovery_laws::offset(
                    base,
                    (#[trigger] blocks[i]).right_edge,
                ) <= recovery_laws::offset(base, after.high_sacked)
            &&& after.high_sacked == ack.acknowledgment || exists|i: int|
                0 <= i < blocks.len() && after.high_sacked == (#[trigger] blocks[i]).right_edge
        }),
{
    let count = blocks.len() as int;
    lemma_highest(base, ack.acknowledgment, blocks, count);
    let high = recovery_model::highest_right_edge(ack.acknowledgment, blocks, count);
    sequence::order_within_half_space(base, high, ack.acknowledgment);
    sequence::order_within_half_space(base, ack.acknowledgment, high);
}

} // verus!
