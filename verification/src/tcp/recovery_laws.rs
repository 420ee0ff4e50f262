//! What holds of loss recovery as a whole.
//!
//! The laws speak of samples that were sent in order: seen from some base,
//! every range lies less than half the sequence space ahead, and each starts at
//! or after the end of the one before it.
use vstd::prelude::*;

use crate::congestion::CongestionController;
use crate::tcp::recovery_model as model;
use crate::tcp::recovery_model::{
    RecoveryModel, TcpRecoveryAck, TcpSackBlock, TcpScoreboardHole, TcpSentSample,
    TCP_DUPACK_THRESHOLD,
};
use crate::tcp::sequence;
use crate::tcp::sequence::{TcpSeq, HALF_SEQUENCE_SPACE};
use crate::time::Instant;

verus! {

/// How far `position` lies ahead of `base`.
pub open spec fn offset(base: TcpSeq, position: TcpSeq) -> int {
    base.spec_distance_to(position) as int
}

/// `position` can be compared with everything else near `base`.
pub open spec fn near(base: TcpSeq, position: TcpSeq) -> bool {
    offset(base, position) < HALF_SEQUENCE_SPACE
}

/// The range runs forward, and all of it but one position is counted in bytes: a
/// SYN takes a position of its own.
pub open spec fn fits(base: TcpSeq, sample: TcpSentSample) -> bool {
    &&& near(base, sample.end_sequence)
    &&& offset(base, sample.sequence) <= offset(base, sample.end_sequence)
    &&& offset(base, sample.end_sequence) - offset(base, sample.sequence) <= sample.bytes + 1
}

/// The samples lie in increasing sequence order.
pub open spec fn placed(base: TcpSeq, samples: Seq<TcpSentSample>) -> bool {
    &&& forall|i: int| 0 <= i < samples.len() ==> fits(base, #[trigger] samples[i])
    &&& forall|i: int, j: int|
        0 <= i < j < samples.len() ==> offset(base, (#[trigger] samples[i]).end_sequence) <= offset(
            base,
            (#[trigger] samples[j]).sequence,
        )
}

/// The range is not empty, and its byte count is its length, or one less.
pub open spec fn exact(base: TcpSeq, sample: TcpSentSample) -> bool {
    &&& fits(base, sample)
    &&& offset(base, sample.sequence) < offset(base, sample.end_sequence)
    &&& sample.bytes <= offset(base, sample.end_sequence) - offset(base, sample.sequence)
}

/// The samples were sent in increasing sequence order, and none is empty.
pub open spec fn sent_in_order(base: TcpSeq, samples: Seq<TcpSentSample>) -> bool {
    &&& forall|i: int| 0 <= i < samples.len() ==> exact(base, #[trigger] samples[i])
    &&& forall|i: int, j: int|
        0 <= i < j < samples.len() ==> offset(base, (#[trigger] samples[i]).end_sequence) <= offset(
            base,
            (#[trigger] samples[j]).sequence,
        )
}

/// Nothing outstanding lies below `floor`.
pub open spec fn above(base: TcpSeq, samples: Seq<TcpSentSample>, floor: TcpSeq) -> bool {
    forall|i: int|
        0 <= i < samples.len() ==> offset(base, floor) <= offset(
            base,
            (#[trigger] samples[i]).sequence,
        )
}

/// A block that a peer can report: not inverted, and near.
pub open spec fn sound_block(base: TcpSeq, block: TcpSackBlock) -> bool {
    &&& near(base, block.right_edge)
    &&& offset(base, block.left_edge) < offset(base, block.right_edge)
}

proof fn lemma_first_bytes(sample: TcpSentSample, rest: Seq<TcpSentSample>)
    ensures
        model::total_bytes(seq![sample] + rest) == sample.bytes + model::total_bytes(rest),
{
    model::lemma_total_bytes_concat(seq![sample], rest);
    assert(seq![sample].drop_last() =~= Seq::<TcpSentSample>::empty());
    assert(model::total_bytes(seq![sample]) == model::total_bytes(seq![sample].drop_last())
        + sample.bytes);
}

proof fn lemma_rest_placed(base: TcpSeq, samples: Seq<TcpSentSample>)
    requires
        samples.len() > 0,
        placed(base, samples),
    ensures
        placed(base, samples.drop_first()),
        above(base, samples.drop_first(), samples[0].end_sequence),
        samples =~= seq![samples[0]] + samples.drop_first(),
{
    let rest = samples.drop_first();
    assert forall|i: int| 0 <= i < rest.len() implies fits(base, #[trigger] rest[i]) by {
        assert(rest[i] == samples[i + 1]);
    }
    assert forall|i: int, j: int| 0 <= i < j < rest.len() implies offset(
        base,
        (#[trigger] rest[i]).end_sequence,
    ) <= offset(base, (#[trigger] rest[j]).sequence) by {
        assert(rest[i] == samples[i + 1] && rest[j] == samples[j + 1]);
    }
    assert forall|i: int| 0 <= i < rest.len() implies offset(base, samples[0].end_sequence)
        <= offset(base, (#[trigger] rest[i]).sequence) by {
        assert(rest[i] == samples[i + 1]);
    }
}

proof fn lemma_rest_in_order(base: TcpSeq, samples: Seq<TcpSentSample>)
    requires
        samples.len() > 0,
        sent_in_order(base, samples),
    ensures
        sent_in_order(base, samples.drop_first()),
        above(base, samples.drop_first(), samples[0].end_sequence),
        samples =~= seq![samples[0]] + samples.drop_first(),
{
    lemma_placed(base, samples);
    lemma_rest_placed(base, samples);
    let rest = samples.drop_first();
    assert forall|i: int| 0 <= i < rest.len() implies exact(base, #[trigger] rest[i]) by {
        assert(rest[i] == samples[i + 1]);
    }
}

proof fn lemma_placed(base: TcpSeq, samples: Seq<TcpSentSample>)
    requires
        sent_in_order(base, samples),
    ensures
        placed(base, samples),
{
    assert forall|i: int| 0 <= i < samples.len() implies fits(base, #[trigger] samples[i]) by {
        assert(exact(base, samples[i]));
    }
}

/// Two lists, one after the other.
proof fn lemma_joined(base: TcpSeq, front: Seq<TcpSentSample>, rest: Seq<TcpSentSample>, at: TcpSeq)
    requires
        placed(base, front),
        placed(base, rest),
        above(base, rest, at),
        forall|i: int|
            0 <= i < front.len() ==> offset(base, (#[trigger] front[i]).end_sequence) <= offset(
                base,
                at,
            ),
    ensures
        placed(base, front + rest),
        sent_in_order(base, front) && sent_in_order(base, rest) ==> sent_in_order(
            base,
            front + rest,
        ),
{
    let whole = front + rest;
    assert forall|i: int| 0 <= i < whole.len() implies fits(base, #[trigger] whole[i]) by {
        if i < front.len() {
            assert(whole[i] == front[i]);
        } else {
            assert(whole[i] == rest[i - front.len()]);
        }
    }
    if sent_in_order(base, front) && sent_in_order(base, rest) {
        assert forall|i: int| 0 <= i < whole.len() implies exact(base, #[trigger] whole[i]) by {
            if i < front.len() {
                assert(whole[i] == front[i]);
            } else {
                assert(whole[i] == rest[i - front.len()]);
            }
        }
    }
    assert forall|i: int, j: int| 0 <= i < j < whole.len() implies offset(
        base,
        (#[trigger] whole[i]).end_sequence,
    ) <= offset(base, (#[trigger] whole[j]).sequence) by {
        if i < front.len() {
            assert(whole[i] == front[i]);
        } else {
            assert(whole[i] == rest[i - front.len()]);
        }
        if j < front.len() {
            assert(whole[j] == front[j]);
        } else {
            assert(whole[j] == rest[j - front.len()]);
        }
    }
}

proof fn lemma_single(base: TcpSeq, sample: TcpSentSample)
    requires
        fits(base, sample),
    ensures
        placed(base, seq![sample]),
        exact(base, sample) ==> sent_in_order(base, seq![sample]),
{
}

/// Cutting a sample inside its range loses and adds no byte.
pub proof fn split_conserves_bytes(base: TcpSeq, sample: TcpSentSample, at: TcpSeq)
    requires
        fits(base, sample),
        offset(base, sample.sequence) < offset(base, at) < offset(base, sample.end_sequence),
    ensures
        fits(base, sample.prefix(at)),
        fits(base, sample.suffix(at)),
        exact(base, sample) ==> exact(base, sample.prefix(at)) && exact(base, sample.suffix(at)),
        sample.prefix(at).bytes + sample.suffix(at).bytes == sample.bytes,
        sample.prefix(at).payload_len + sample.suffix(at).payload_len == sample.payload_len,
{
    let share = model::payload_share(
        sample.bytes,
        sample.payload_len,
        sample.sequence.spec_distance_to(at),
    );
    assert(share <= sample.payload_len) by {
        let portion = sample.sequence.spec_distance_to(at);
        if !(sample.bytes == 0 || sample.payload_len == 0 || portion == 0) {
            assert((sample.payload_len * portion) / (sample.bytes as int) >= 0)
                by (nonlinear_arith)
                requires
                    sample.payload_len >= 0,
                    portion >= 0,
                    sample.bytes > 0,
            ;
        }
    }
}

/// A position after the start of a range and before its end lies inside it.
proof fn lemma_inside(base: TcpSeq, start: TcpSeq, end: TcpSeq, at: TcpSeq)
    requires
        near(base, end),
        offset(base, start) <= offset(base, end),
        at.after(start),
        at.before(end),
    ensures
        offset(base, start) < offset(base, at) < offset(base, end),
{
}

/// A cumulative acknowledgment, wherever it lies, takes exactly the bytes below
/// it: what it takes and what it leaves add up, and the rest stays in order. One
/// that can be compared with the samples leaves nothing below it outstanding.
pub proof fn ack_conserves_bytes(base: TcpSeq, samples: Seq<TcpSentSample>, ack: TcpSeq)
    requires
        placed(base, samples),
    ensures
        model::total_bytes(model::acked_part(samples, ack)) + model::total_bytes(
            model::unacked_part(samples, ack),
        ) == model::total_bytes(samples),
        placed(base, model::unacked_part(samples, ack)),
        sent_in_order(base, samples) ==> sent_in_order(base, model::unacked_part(samples, ack)),
        near(base, ack) ==> above(base, model::unacked_part(samples, ack), ack),
        forall|floor: TcpSeq|
            above(base, samples, floor) ==> above(base, model::unacked_part(samples, ack), floor),
    decreases samples.len(),
{
    let taken = model::acked_part(samples, ack);
    let left = model::unacked_part(samples, ack);
    if samples.len() == 0 {
        assert(taken =~= seq![]);
    } else {
        let first = samples[0];
        let rest = samples.drop_first();
        lemma_rest_placed(base, samples);
        if sent_in_order(base, samples) {
            lemma_rest_in_order(base, samples);
            assert(exact(base, first));
        }
        assert(fits(base, first));
        if ack.at_or_before(first.sequence) {
            assert(taken =~= seq![]);
            if near(base, ack) {
                sequence::order_within_half_space(base, ack, first.sequence);
                assert forall|i: int| 0 <= i < left.len() implies offset(base, ack) <= offset(
                    base,
                    (#[trigger] left[i]).sequence,
                ) by {
                    if i > 0 {
                        assert(rest[i - 1] == samples[i]);
                    }
                }
            }
        } else if ack.at_or_after(first.end_sequence) {
            ack_conserves_bytes(base, rest, ack);
            lemma_first_bytes(first, rest);
            lemma_first_bytes(first, model::acked_part(rest, ack));
            assert forall|floor: TcpSeq| above(base, samples, floor) implies above(
                base,
                left,
                floor,
            ) by {
                lemma_above_rest(base, samples, floor);
            }
        } else {
            lemma_inside(base, first.sequence, first.end_sequence, ack);
            split_conserves_bytes(base, first, ack);
            lemma_first_bytes(first, rest);
            lemma_first_bytes(first.suffix(ack), rest);
            lemma_first_bytes(first.prefix(ack), seq![]);
            assert(seq![first.prefix(ack)] + Seq::<TcpSentSample>::empty() =~= taken);
            lemma_single(base, first.suffix(ack));
            lemma_joined(base, seq![first.suffix(ack)], rest, first.end_sequence);
            assert forall|i: int| 0 <= i < left.len() implies offset(base, ack) <= offset(
                base,
                (#[trigger] left[i]).sequence,
            ) by {
                if i > 0 {
                    assert(left[i] == rest[i - 1]);
                }
            }
            assert forall|floor: TcpSeq| above(base, samples, floor) implies above(
                base,
                left,
                floor,
            ) by {
                assert forall|i: int| 0 <= i < left.len() implies offset(base, floor) <= offset(
                    base,
                    (#[trigger] left[i]).sequence,
                ) by {
                    if i > 0 {
                        assert(left[i] == samples[i]);
                    } else {
                        assert(offset(base, floor) <= offset(base, samples[0].sequence));
                    }
                }
            }
        }
    }
}

/// No part of the list overlaps the block.
pub open spec fn untouched_by(samples: Seq<TcpSentSample>, block: TcpSackBlock) -> bool {
    forall|i: int|
        0 <= i < samples.len() ==> !(#[trigger] samples[i]).spec_overlaps(
            block.left_edge,
            block.right_edge,
        )
}

/// Where a block cuts a sample that it overlaps, seen from the base.
proof fn lemma_cut(base: TcpSeq, sample: TcpSentSample, block: TcpSackBlock)
    requires
        fits(base, sample),
        block.left_edge.before(block.right_edge),
        sample.spec_overlaps(block.left_edge, block.right_edge),
    ensures
        ({
            let start = sample.sequence.spec_later(block.left_edge);
            let end = sample.end_sequence.spec_earlier(block.right_edge);
            &&& start.after(sample.sequence) ==> {
                &&& start == block.left_edge
                &&& offset(base, sample.sequence) < offset(base, start) < offset(
                    base,
                    sample.end_sequence,
                )
            }
            &&& end.before(sample.end_sequence) ==> {
                &&& end == block.right_edge
                &&& offset(base, sample.sequence) < offset(base, end) < offset(
                    base,
                    sample.end_sequence,
                )
                &&& start.after(sample.sequence) ==> offset(base, start) < offset(base, end)
            }
        }),
{
    let start = sample.sequence.spec_later(block.left_edge);
    let end = sample.end_sequence.spec_earlier(block.right_edge);
    if start.after(sample.sequence) {
        lemma_inside(base, sample.sequence, sample.end_sequence, start);
    }
    if end.before(sample.end_sequence) {
        lemma_inside(base, sample.sequence, sample.end_sequence, end);
    }
}

proof fn lemma_pieces(base: TcpSeq, sample: TcpSentSample, block: TcpSackBlock)
    requires
        fits(base, sample),
        block.left_edge.before(block.right_edge),
        sample.spec_overlaps(block.left_edge, block.right_edge),
    ensures
        placed(base, model::unsacked_pieces(sample, block)),
        exact(base, sample) ==> sent_in_order(base, model::unsacked_pieces(sample, block)),
        untouched_by(model::unsacked_pieces(sample, block), block),
        above(base, model::unsacked_pieces(sample, block), sample.sequence),
        forall|i: int|
            0 <= i < model::unsacked_pieces(sample, block).len() ==> offset(
                base,
                (#[trigger] model::unsacked_pieces(sample, block)[i]).end_sequence,
            ) <= offset(base, sample.end_sequence),
        model::sacked_piece(sample, block).bytes + model::total_bytes(
            model::unsacked_pieces(sample, block),
        ) == sample.bytes,
{
    let start = sample.sequence.spec_later(block.left_edge);
    let end = sample.end_sequence.spec_earlier(block.right_edge);
    lemma_cut(base, sample, block);
    let pieces = model::unsacked_pieces(sample, block);
    let middle = if start.after(sample.sequence) {
        sample.suffix(start)
    } else {
        sample
    };
    if start.after(sample.sequence) {
        split_conserves_bytes(base, sample, start);
    }
    if end.before(middle.end_sequence) {
        split_conserves_bytes(base, middle, end);
    }
    let below = sample.prefix(start);
    let over = middle.suffix(end);
    let none = Seq::<TcpSentSample>::empty();
    if start.after(sample.sequence) {
        if end.before(middle.end_sequence) {
            model::lemma_total_bytes_push(none, below);
            model::lemma_total_bytes_push(none.push(below), over);
            assert(pieces =~= none.push(below).push(over));
        } else {
            model::lemma_total_bytes_push(none, below);
            assert(pieces =~= none.push(below));
        }
    } else {
        if end.before(middle.end_sequence) {
            model::lemma_total_bytes_push(none, over);
            assert(pieces =~= none.push(over));
        } else {
            assert(pieces =~= none);
        }
    }
}

/// A SACK block that is not inverted takes exactly the bytes it covers: what it
/// takes and what it leaves add up, and the rest stays in order. One that can be
/// compared with the samples leaves nothing inside it outstanding.
pub proof fn sack_conserves_bytes(
    base: TcpSeq,
    samples: Seq<TcpSentSample>,
    block: TcpSackBlock,
)
    requires
        placed(base, samples),
        block.left_edge.before(block.right_edge),
    ensures
        model::total_bytes(model::sacked_part(samples, block)) + model::total_bytes(
            model::unsacked_part(samples, block),
        ) == model::total_bytes(samples),
        placed(base, model::unsacked_part(samples, block)),
        sent_in_order(base, samples) ==> sent_in_order(base, model::unsacked_part(samples, block)),
        sound_block(base, block) ==> untouched_by(model::unsacked_part(samples, block), block),
        forall|floor: TcpSeq|
            above(base, samples, floor) ==> above(base, model::unsacked_part(samples, block), floor),
    decreases samples.len(),
{
    let taken = model::sacked_part(samples, block);
    let left = model::unsacked_part(samples, block);
    if samples.len() == 0 {
        assert(taken =~= seq![]);
    } else {
        let first = samples[0];
        let rest = samples.drop_first();
        lemma_rest_placed(base, samples);
        if sent_in_order(base, samples) {
            lemma_rest_in_order(base, samples);
            assert(exact(base, first));
        }
        assert(fits(base, first));
        if block.right_edge.before(first.sequence) {
            assert(taken =~= seq![]);
            if sound_block(base, block) {
                sequence::order_within_half_space(base, block.right_edge, first.sequence);
                assert forall|i: int| 0 <= i < left.len() implies !(
                #[trigger] left[i]).spec_overlaps(block.left_edge, block.right_edge) by {
                    if i > 0 {
                        assert(rest[i - 1] == samples[i]);
                    }
                    assert(fits(base, samples[i]));
                    sequence::order_within_half_space(base, samples[i].sequence, block.right_edge);
                }
            }
        } else {
            sack_conserves_bytes(base, rest, block);
            lemma_first_bytes(first, rest);
            let later = model::unsacked_part(rest, block);
            let touched = first.spec_overlaps(block.left_edge, block.right_edge);
            let pieces = if touched {
                model::unsacked_pieces(first, block)
            } else {
                seq![first]
            };
            if touched {
                lemma_pieces(base, first, block);
                lemma_first_bytes(
                    model::sacked_piece(first, block),
                    model::sacked_part(rest, block),
                );
            } else {
                lemma_single(base, first);
                lemma_first_bytes(first, seq![]);
                assert(seq![first] + Seq::<TcpSentSample>::empty() =~= pieces);
            }
            model::lemma_total_bytes_concat(pieces, later);
            assert(left =~= pieces + later);
            lemma_joined(base, pieces, later, first.end_sequence);
            if sound_block(base, block) {
                assert forall|i: int| 0 <= i < left.len() implies !(
                #[trigger] left[i]).spec_overlaps(block.left_edge, block.right_edge) by {
                    if i < pieces.len() {
                        assert(left[i] == pieces[i]);
                    } else {
                        assert(left[i] == later[i - pieces.len()]);
                    }
                }
            }
            assert forall|floor: TcpSeq| above(base, samples, floor) implies above(
                base,
                left,
                floor,
            ) by {
                lemma_above_rest(base, samples, floor);
                assert(above(base, later, floor));
                assert forall|i: int| 0 <= i < left.len() implies offset(base, floor) <= offset(
                    base,
                    (#[trigger] left[i]).sequence,
                ) by {
                    if i < pieces.len() {
                        assert(left[i] == pieces[i]);
                    } else {
                        assert(left[i] == later[i - pieces.len()]);
                    }
                }
            }
        }
    }
}

/// A SACK block that is reported again takes nothing.
pub proof fn repeated_sack_takes_nothing(
    base: TcpSeq,
    samples: Seq<TcpSentSample>,
    block: TcpSackBlock,
)
    requires
        sent_in_order(base, samples),
        sound_block(base, block),
    ensures
        model::sacked_part(model::unsacked_part(samples, block), block) == Seq::<
            TcpSentSample,
        >::empty(),
        model::unsacked_part(model::unsacked_part(samples, block), block) == model::unsacked_part(
            samples,
            block,
        ),
{
    lemma_placed(base, samples);
    sequence::order_within_half_space(base, block.left_edge, block.right_edge);
    sack_conserves_bytes(base, samples, block);
    lemma_untouched(model::unsacked_part(samples, block), block);
}

proof fn lemma_untouched(samples: Seq<TcpSentSample>, block: TcpSackBlock)
    requires
        untouched_by(samples, block),
    ensures
        model::sacked_part(samples, block) =~= seq![],
        model::unsacked_part(samples, block) =~= samples,
    decreases samples.len(),
{
    if samples.len() > 0 {
        let rest = samples.drop_first();
        assert forall|i: int| 0 <= i < rest.len() implies !(#[trigger] rest[i]).spec_overlaps(
            block.left_edge,
            block.right_edge,
        ) by {
            assert(rest[i] == samples[i + 1]);
        }
        lemma_untouched(rest, block);
        assert(!samples[0].spec_overlaps(block.left_edge, block.right_edge));
        assert(seq![samples[0]] + rest =~= samples);
    }
}

/// Blocks of one acknowledgment, overlapping or not, never take a byte twice:
/// what all of them take and what they leave add up.
pub proof fn sacks_conserve_bytes(
    base: TcpSeq,
    samples: Seq<TcpSentSample>,
    blocks: Seq<TcpSackBlock>,
    count: int,
)
    requires
        placed(base, samples),
        0 <= count <= blocks.len(),
        forall|i: int|
            0 <= i < count ==> (#[trigger] blocks[i]).left_edge.before(blocks[i].right_edge),
    ensures
        model::total_bytes(model::all_sacked(samples, blocks, count)) + model::total_bytes(
            model::all_unsacked(samples, blocks, count),
        ) == model::total_bytes(samples),
        placed(base, model::all_unsacked(samples, blocks, count)),
        sent_in_order(base, samples) ==> sent_in_order(
            base,
            model::all_unsacked(samples, blocks, count),
        ),
        forall|floor: TcpSeq|
            above(base, samples, floor) ==> above(
                base,
                model::all_unsacked(samples, blocks, count),
                floor,
            ),
    decreases count,
{
    if count > 0 {
        sacks_conserve_bytes(base, samples, blocks, count - 1);
        let before = model::all_unsacked(samples, blocks, count - 1);
        assert(blocks[count - 1].left_edge.before(blocks[count - 1].right_edge));
        sack_conserves_bytes(base, before, blocks[count - 1]);
        model::lemma_total_bytes_concat(
            model::all_sacked(samples, blocks, count - 1),
            model::sacked_part(before, blocks[count - 1]),
        );
    }
}

// The scoreboard, kept up to date or made anew

/// The two lists cover the same ranges.
pub open spec fn same_ranges(a: Seq<TcpSentSample>, b: Seq<TcpSentSample>) -> bool {
    &&& a.len() == b.len()
    &&& forall|i: int|
        #![trigger a[i]]
        #![trigger b[i]]
        0 <= i < a.len() ==> a[i].sequence == b[i].sequence && a[i].end_sequence
            == b[i].end_sequence && a[i].bytes == b[i].bytes
}

/// The two lists of holes differ at most in their loss marks.
pub open spec fn same_holes(a: Seq<TcpScoreboardHole>, b: Seq<TcpScoreboardHole>) -> bool {
    &&& a.len() == b.len()
    &&& forall|i: int|
        #![trigger a[i]]
        #![trigger b[i]]
        0 <= i < a.len() ==> a[i].start == b[i].start && a[i].end == b[i].end
}

/// The holes are apart from each other and in increasing order.
pub open spec fn holes_in_order(base: TcpSeq, holes: Seq<TcpScoreboardHole>) -> bool {
    &&& forall|i: int|
        0 <= i < holes.len() ==> near(base, (#[trigger] holes[i]).end) && offset(
            base,
            holes[i].start,
        ) < offset(base, holes[i].end)
    &&& forall|i: int, j: int|
        0 <= i < j < holes.len() ==> offset(base, (#[trigger] holes[i]).end) <= offset(
            base,
            (#[trigger] holes[j]).start,
        )
}

/// The uncovered ranges between the cumulative acknowledgment and the highest SACK.
pub open spec fn uncovered(m: RecoveryModel) -> Seq<TcpScoreboardHole> {
    if m.samples.len() == 0 || m.high_sacked.at_or_before(m.ack_floor) {
        seq![]
    } else {
        model::gaps_from(m.samples, m.ack_floor, m.ack_floor, m.high_sacked)
    }
}

/// The samples are in order, lie above what is acknowledged, and account for
/// the bytes in flight.
pub open spec fn accounted(base: TcpSeq, m: RecoveryModel) -> bool {
    &&& sent_in_order(base, m.samples)
    &&& near(base, m.ack_floor)
    &&& above(base, m.samples, m.ack_floor)
    &&& m.bytes_in_flight == model::total_bytes(m.samples)
}

/// The scoreboard shows the uncovered ranges; or it is still empty, and all
/// that is outstanding was sent after the highest SACK.
pub open spec fn board_current(base: TcpSeq, m: RecoveryModel) -> bool {
    &&& near(base, m.high_sacked)
    &&& m.reorder == TCP_DUPACK_THRESHOLD
    &&& same_holes(m.holes, uncovered(m)) || (m.holes.len() == 0 && above(
        base,
        m.samples,
        m.high_sacked,
    ))
}

proof fn lemma_same_ranges(base: TcpSeq, a: Seq<TcpSentSample>, b: Seq<TcpSentSample>)
    requires
        same_ranges(a, b),
    ensures
        sent_in_order(base, a) ==> sent_in_order(base, b),
        placed(base, a) ==> placed(base, b),
        model::total_bytes(a) == model::total_bytes(b),
        forall|floor: TcpSeq| above(base, a, floor) ==> above(base, b, floor),
    decreases a.len(),
{
    if sent_in_order(base, a) {
        assert forall|i: int| 0 <= i < b.len() implies exact(base, #[trigger] b[i]) by {
            assert(exact(base, a[i]));
        }
        assert forall|i: int, j: int| 0 <= i < j < b.len() implies offset(
            base,
            (#[trigger] b[i]).end_sequence,
        ) <= offset(base, (#[trigger] b[j]).sequence) by {
            assert(offset(base, a[i].end_sequence) <= offset(base, a[j].sequence));
        }
    }
    if placed(base, a) {
        assert forall|i: int| 0 <= i < b.len() implies fits(base, #[trigger] b[i]) by {
            assert(fits(base, a[i]));
        }
        assert forall|i: int, j: int| 0 <= i < j < b.len() implies offset(
            base,
            (#[trigger] b[i]).end_sequence,
        ) <= offset(base, (#[trigger] b[j]).sequence) by {
            assert(offset(base, a[i].end_sequence) <= offset(base, a[j].sequence));
        }
    }
    assert forall|floor: TcpSeq| above(base, a, floor) implies above(base, b, floor) by {
        assert forall|i: int| 0 <= i < b.len() implies offset(base, floor) <= offset(
            base,
            (#[trigger] b[i]).sequence,
        ) by {
            assert(offset(base, floor) <= offset(base, a[i].sequence));
        }
    }
    if a.len() > 0 {
        assert forall|i: int|
            #![trigger a.drop_last()[i]]
            #![trigger b.drop_last()[i]]
            0 <= i < a.drop_last().len() implies a.drop_last()[i].sequence
            == b.drop_last()[i].sequence && a.drop_last()[i].end_sequence
            == b.drop_last()[i].end_sequence && a.drop_last()[i].bytes
            == b.drop_last()[i].bytes by {
            assert(a[i].bytes == b[i].bytes);
        }
        lemma_same_ranges(base, a.drop_last(), b.drop_last());
        assert(a[a.len() - 1].bytes == b[b.len() - 1].bytes);
    }
}

proof fn lemma_same_gaps(
    a: Seq<TcpSentSample>,
    b: Seq<TcpSentSample>,
    start: TcpSeq,
    ack: TcpSeq,
    high: TcpSeq,
)
    requires
        same_ranges(a, b),
    ensures
        model::gaps_from(a, start, ack, high) == model::gaps_from(b, start, ack, high),
    decreases a.len(),
{
    if a.len() > 0 {
        assert(a[0].sequence == b[0].sequence);
        let ra = a.drop_first();
        let rb = b.drop_first();
        assert forall|i: int|
            #![trigger ra[i]]
            #![trigger rb[i]]
            0 <= i < ra.len() implies ra[i].sequence == rb[i].sequence && ra[i].end_sequence
            == rb[i].end_sequence && ra[i].bytes == rb[i].bytes by {
            assert(a[i + 1].bytes == b[i + 1].bytes);
        }
        lemma_same_gaps(ra, rb, start, ack, high);
        lemma_same_gaps(ra, rb, start.spec_later(a[0].end_sequence), ack, high);
    }
}

proof fn lemma_above_rest(base: TcpSeq, samples: Seq<TcpSentSample>, floor: TcpSeq)
    requires
        samples.len() > 0,
        above(base, samples, floor),
    ensures
        above(base, samples.drop_first(), floor),
        offset(base, floor) <= offset(base, samples[0].sequence),
{
    let rest = samples.drop_first();
    assert forall|i: int| 0 <= i < rest.len() implies offset(base, floor) <= offset(
        base,
        (#[trigger] rest[i]).sequence,
    ) by {
        assert(rest[i] == samples[i + 1]);
    }
    assert(offset(base, floor) <= offset(base, samples[0].sequence));
}

/// Gaps in ordered samples are in order themselves and start no earlier than asked.
proof fn lemma_gaps_in_order(
    base: TcpSeq,
    samples: Seq<TcpSentSample>,
    start: TcpSeq,
    ack: TcpSeq,
    high: TcpSeq,
)
    requires
        sent_in_order(base, samples),
        above(base, samples, start),
        near(base, start),
        near(base, ack),
        near(base, high),
    ensures
        holes_in_order(base, model::gaps_from(samples, start, ack, high)),
        forall|i: int|
            0 <= i < model::gaps_from(samples, start, ack, high).len() ==> offset(base, start)
                <= offset(base, (#[trigger] model::gaps_from(samples, start, ack, high)[i]).start),
    decreases samples.len(),
{
    let all = model::gaps_from(samples, start, ack, high);
    sequence::order_within_half_space(base, start, high);
    if samples.len() > 0 {
        let first = samples[0];
        let rest = samples.drop_first();
        lemma_rest_in_order(base, samples);
        lemma_above_rest(base, samples, start);
        assert(exact(base, first));
        sequence::order_within_half_space(base, first.end_sequence, ack);
        if first.end_sequence.at_or_before(ack) {
            lemma_gaps_in_order(base, rest, start, ack, high);
        } else {
            let end = first.sequence.spec_earlier(high);
            let next = start.spec_later(first.end_sequence);
            sequence::order_within_half_space(base, first.sequence, high);
            sequence::order_within_half_space(base, first.sequence, start);
            sequence::order_within_half_space(base, end, start);
            sequence::order_within_half_space(base, start, first.end_sequence);
            assert(next == first.end_sequence);
            lemma_gaps_in_order(base, rest, next, ack, high);
            let tail = model::gaps_from(rest, next, ack, high);
            if !next.at_or_after(high) {
                let gap = if first.sequence.after(start) && end.after(start) {
                    seq![TcpScoreboardHole { start, end, lost: false }]
                } else {
                    seq![]
                };
                assert(all =~= gap + tail);
                assert forall|i: int| 0 <= i < all.len() implies near(
                    base,
                    (#[trigger] all[i]).end,
                ) && offset(base, all[i].start) < offset(base, all[i].end) && offset(base, start)
                    <= offset(base, all[i].start) by {
                    if i >= gap.len() {
                        assert(all[i] == tail[i - gap.len()]);
                    }
                }
                assert forall|i: int, j: int| 0 <= i < j < all.len() implies offset(
                    base,
                    (#[trigger] all[i]).end,
                ) <= offset(base, (#[trigger] all[j]).start) by {
                    assert(all[j] == tail[j - gap.len()]);
                    if i >= gap.len() {
                        assert(all[i] == tail[i - gap.len()]);
                    }
                }
            }
        }
    }
}

/// Which acknowledgment the samples all lie above makes no difference to the gaps.
proof fn lemma_gaps_floor(
    base: TcpSeq,
    samples: Seq<TcpSentSample>,
    start: TcpSeq,
    a: TcpSeq,
    b: TcpSeq,
    high: TcpSeq,
)
    requires
        sent_in_order(base, samples),
        above(base, samples, a),
        above(base, samples, b),
        near(base, a),
        near(base, b),
    ensures
        model::gaps_from(samples, start, a, high) == model::gaps_from(samples, start, b, high),
    decreases samples.len(),
{
    if samples.len() > 0 {
        let first = samples[0];
        lemma_rest_in_order(base, samples);
        lemma_above_rest(base, samples, a);
        lemma_above_rest(base, samples, b);
        assert(exact(base, first));
        sequence::order_within_half_space(base, first.end_sequence, a);
        sequence::order_within_half_space(base, first.end_sequence, b);
        lemma_gaps_floor(
            base,
            samples.drop_first(),
            start.spec_later(first.end_sequence),
            a,
            b,
            high,
        );
    }
}

/// The holes cut off at `ack`, from the front.
spec fn cut(holes: Seq<TcpScoreboardHole>, ack: TcpSeq) -> Seq<TcpScoreboardHole>
    decreases holes.len(),
{
    if holes.len() == 0 {
        seq![]
    } else if holes[0].end.at_or_before(ack) {
        cut(holes.drop_first(), ack)
    } else if holes[0].start.before(ack) {
        seq![TcpScoreboardHole { start: ack, ..holes[0] }] + holes.drop_first()
    } else {
        holes
    }
}

proof fn lemma_cut_unchanged(base: TcpSeq, holes: Seq<TcpScoreboardHole>, ack: TcpSeq)
    requires
        holes_in_order(base, holes),
        near(base, ack),
        forall|i: int|
            0 <= i < holes.len() ==> offset(base, ack) <= offset(base, (#[trigger] holes[i]).start),
    ensures
        cut(holes, ack) == holes,
{
    if holes.len() > 0 {
        sequence::order_within_half_space(base, holes[0].end, ack);
        sequence::order_within_half_space(base, holes[0].start, ack);
    }
}

proof fn lemma_cut_same(
    a: Seq<TcpScoreboardHole>,
    b: Seq<TcpScoreboardHole>,
    ack: TcpSeq,
)
    requires
        same_holes(a, b),
    ensures
        same_holes(cut(a, ack), cut(b, ack)),
    decreases a.len(),
{
    if a.len() > 0 {
        assert(a[0].start == b[0].start);
        let ra = a.drop_first();
        let rb = b.drop_first();
        assert forall|i: int|
            #![trigger ra[i]]
            #![trigger rb[i]]
            0 <= i < ra.len() implies ra[i].start == rb[i].start && ra[i].end == rb[i].end by {
            assert(a[i + 1].start == b[i + 1].start);
        }
        lemma_cut_same(ra, rb, ack);
        let ca = cut(a, ack);
        let cb = cut(b, ack);
        if !a[0].end.at_or_before(ack) && a[0].start.before(ack) {
            assert forall|i: int|
                #![trigger ca[i]]
                #![trigger cb[i]]
                0 <= i < ca.len() implies ca[i].start == cb[i].start && ca[i].end == cb[i].end by {
                if i > 0 {
                    assert(ca[i] == ra[i - 1]);
                    assert(cb[i] == rb[i - 1]);
                }
            }
        }
    }
}

/// How many holes at the front end at or before `ack`.
spec fn cut_count(holes: Seq<TcpScoreboardHole>, ack: TcpSeq) -> int
    decreases holes.len(),
{
    if holes.len() == 0 || !holes[0].end.at_or_before(ack) {
        0
    } else {
        1 + cut_count(holes.drop_first(), ack)
    }
}

proof fn lemma_holes_rest(base: TcpSeq, holes: Seq<TcpScoreboardHole>)
    requires
        holes.len() > 0,
        holes_in_order(base, holes),
    ensures
        holes_in_order(base, holes.drop_first()),
        forall|i: int|
            0 <= i < holes.drop_first().len() ==> offset(base, holes[0].end) <= offset(
                base,
                (#[trigger] holes.drop_first()[i]).start,
            ),
{
    let rest = holes.drop_first();
    assert forall|i: int| 0 <= i < rest.len() implies near(base, (#[trigger] rest[i]).end)
        && offset(base, rest[i].start) < offset(base, rest[i].end) && offset(base, holes[0].end)
        <= offset(base, rest[i].start) by {
        assert(rest[i] == holes[i + 1]);
    }
    assert forall|i: int, j: int| 0 <= i < j < rest.len() implies offset(
        base,
        (#[trigger] rest[i]).end,
    ) <= offset(base, (#[trigger] rest[j]).start) by {
        assert(rest[i] == holes[i + 1] && rest[j] == holes[j + 1]);
    }
}

proof fn lemma_cut_count(base: TcpSeq, holes: Seq<TcpScoreboardHole>, ack: TcpSeq)
    requires
        holes_in_order(base, holes),
        near(base, ack),
    ensures
        ({
            let k = cut_count(holes, ack);
            &&& 0 <= k <= holes.len()
            &&& forall|i: int| 0 <= i < k ==> (#[trigger] holes[i]).end.at_or_before(ack)
            &&& forall|i: int|
                k <= i < holes.len() ==> !(#[trigger] holes[i]).end.at_or_before(ack)
            &&& forall|i: int| k < i < holes.len() ==> !(#[trigger] holes[i]).start.before(ack)
            &&& cut(holes, ack) =~= (if k < holes.len() && holes[k].start.before(ack) {
                seq![TcpScoreboardHole { start: ack, ..holes[k] }] + holes.skip(k + 1)
            } else {
                holes.skip(k)
            })
        }),
    decreases holes.len(),
{
    if holes.len() > 0 {
        let rest = holes.drop_first();
        lemma_holes_rest(base, holes);
        if holes[0].end.at_or_before(ack) {
            lemma_cut_count(base, rest, ack);
            let k = cut_count(rest, ack);
            assert forall|i: int| 0 <= i < k + 1 implies (#[trigger] holes[i]).end.at_or_before(
                ack,
            ) by {
                if i > 0 {
                    assert(holes[i] == rest[i - 1]);
                }
            }
            assert forall|i: int| k + 1 <= i < holes.len() implies !(
            #[trigger] holes[i]).end.at_or_before(ack) by {
                assert(holes[i] == rest[i - 1]);
            }
            assert forall|i: int| k + 1 < i < holes.len() implies !(
            #[trigger] holes[i]).start.before(ack) by {
                assert(holes[i] == rest[i - 1]);
            }
            assert(rest.skip(k) =~= holes.skip(k + 1));
            if k < rest.len() {
                assert(rest.skip(k + 1) =~= holes.skip(k + 2));
            }
        } else {
            sequence::order_within_half_space(base, holes[0].end, ack);
            assert forall|i: int| 0 <= i < holes.len() implies !(
            #[trigger] holes[i]).end.at_or_before(ack) && (i > 0 ==> !holes[i].start.before(
                ack,
            )) by {
                if i > 0 {
                    assert(holes[i] == rest[i - 1]);
                    sequence::order_within_half_space(base, holes[i].end, ack);
                    sequence::order_within_half_space(base, holes[i].start, ack);
                }
            }
            assert(holes.skip(1) =~= rest);
            assert(holes.skip(0) =~= holes);
        }
    }
}

proof fn lemma_holes_past(holes: Seq<TcpScoreboardHole>, ack: TcpSeq, k: int)
    requires
        0 <= k <= holes.len(),
        forall|i: int| 0 <= i < k ==> (#[trigger] holes[i]).end.at_or_before(ack),
        forall|i: int| k <= i < holes.len() ==> !(#[trigger] holes[i]).end.at_or_before(ack),
    ensures
        model::holes_past(holes, ack) =~= holes.skip(k),
    decreases holes.len(),
{
    if holes.len() > 0 {
        let front = holes.drop_last();
        let last = holes.len() - 1;
        assert(holes[last] == holes.last());
        assert forall|i: int| 0 <= i < front.len() implies front[i] == holes[i] by {}
        if k == holes.len() {
            assert forall|i: int| 0 <= i < k - 1 implies (#[trigger] front[i]).end.at_or_before(
                ack,
            ) by {
                assert(front[i] == holes[i]);
            }
            lemma_holes_past(front, ack, k - 1);
        } else {
            assert forall|i: int| 0 <= i < k implies (#[trigger] front[i]).end.at_or_before(
                ack,
            ) by {
                assert(front[i] == holes[i]);
            }
            assert forall|i: int| k <= i < front.len() implies !(
            #[trigger] front[i]).end.at_or_before(ack) by {
                assert(front[i] == holes[i]);
            }
            lemma_holes_past(front, ack, k);
        }
    }
}

proof fn lemma_crossed_hole(holes: Seq<TcpScoreboardHole>, ack: TcpSeq, k: int)
    requires
        0 <= k <= holes.len(),
        forall|i: int| 0 <= i < k ==> (#[trigger] holes[i]).end.at_or_before(ack),
        forall|i: int| k < i < holes.len() ==> !(#[trigger] holes[i]).start.before(ack),
        k < holes.len() ==> !holes[k].end.at_or_before(ack),
    ensures
        model::crossed_hole(holes, ack) == (if k < holes.len() && holes[k].start.before(ack) {
            Some(holes[k])
        } else {
            None
        }),
    decreases holes.len(),
{
    if holes.len() > 0 {
        let front = holes.drop_last();
        let last = holes.len() - 1;
        assert(holes[last] == holes.last());
        assert forall|i: int| 0 <= i < front.len() implies front[i] == holes[i] by {}
        if k < last {
            assert(!holes[last].start.before(ack));
            assert forall|i: int| 0 <= i < k implies (#[trigger] front[i]).end.at_or_before(
                ack,
            ) by {
                assert(front[i] == holes[i]);
            }
            assert forall|i: int| k < i < front.len() implies !(#[trigger] front[i]).start.before(
                ack,
            ) by {
                assert(front[i] == holes[i]);
            }
            lemma_crossed_hole(front, ack, k);
        } else {
            assert forall|i: int| 0 <= i < front.len() implies (
            #[trigger] front[i]).end.at_or_before(ack) by {
                assert(front[i] == holes[i]);
            }
            lemma_crossed_hole(front, ack, front.len() as int);
        }
    }
}

/// On ordered holes, cutting by removal and insertion is cutting from the front.
proof fn lemma_trimmed_is_cut(base: TcpSeq, holes: Seq<TcpScoreboardHole>, ack: TcpSeq)
    requires
        holes_in_order(base, holes),
        near(base, ack),
    ensures
        model::holes_trimmed(holes, ack) == cut(holes, ack),
{
    lemma_cut_count(base, holes, ack);
    let k = cut_count(holes, ack);
    lemma_holes_past(holes, ack, k);
    lemma_crossed_hole(holes, ack, k);
    let past = holes.skip(k);
    if k < holes.len() && holes[k].start.before(ack) {
        let crossed = holes[k];
        assert(past[0] == crossed);
        assert(model::hole_at(past, crossed.start) == 0);
        let rest = past.remove(0);
        assert(rest =~= holes.skip(k + 1));
        assert forall|i: int| 0 <= i < rest.len() implies (#[trigger] rest[i]).start != ack
            && !rest[i].start.before(ack) by {
            assert(rest[i] == holes[k + 1 + i]);
            assert(offset(base, holes[k].end) <= offset(base, holes[k + 1 + i].start));
            sequence::order_within_half_space(base, holes[k].end, ack);
            sequence::order_within_half_space(base, holes[k + 1 + i].start, ack);
        }
        lemma_absent(rest, ack);
        let trimmed = TcpScoreboardHole { start: ack, ..crossed };
        assert(rest.insert(0, trimmed) =~= seq![trimmed] + rest);
    }
}

proof fn lemma_absent(holes: Seq<TcpScoreboardHole>, start: TcpSeq)
    requires
        forall|i: int|
            0 <= i < holes.len() ==> (#[trigger] holes[i]).start != start
                && !holes[i].start.before(start),
    ensures
        model::hole_at(holes, start) == holes.len(),
        model::holes_below(holes, start) == 0,
    decreases holes.len(),
{
    if holes.len() > 0 {
        let rest = holes.drop_first();
        assert forall|i: int| 0 <= i < rest.len() implies (#[trigger] rest[i]).start != start
            && !rest[i].start.before(start) by {
            assert(rest[i] == holes[i + 1]);
        }
        lemma_absent(rest, start);
        assert(holes[0].start != start);
    }
}

/// Cutting the gaps at an acknowledgment gives the gaps of what it leaves.
proof fn lemma_cut_gaps(
    base: TcpSeq,
    samples: Seq<TcpSentSample>,
    start: TcpSeq,
    floor: TcpSeq,
    ack: TcpSeq,
    high: TcpSeq,
)
    requires
        sent_in_order(base, samples),
        above(base, samples, start),
        above(base, samples, floor),
        near(base, start),
        near(base, floor),
        near(base, high),
        near(base, ack),
        offset(base, ack) < offset(base, high),
        offset(base, start) < offset(base, high),
    ensures
        cut(model::gaps_from(samples, start, floor, high), ack) =~= model::gaps_from(
            model::unacked_part(samples, ack),
            start.spec_later(ack),
            ack,
            high,
        ),
    decreases samples.len(),
{
    let moved = start.spec_later(ack);
    sequence::order_within_half_space(base, start, ack);
    sequence::order_within_half_space(base, start, high);
    sequence::order_within_half_space(base, ack, high);
    sequence::order_within_half_space(base, moved, high);
    sequence::order_within_half_space(base, high, ack);
    let left = model::unacked_part(samples, ack);
    let all = model::gaps_from(samples, start, floor, high);
    if samples.len() == 0 {
        let hole = TcpScoreboardHole { start, end: high, lost: false };
        assert(all =~= seq![hole]);
        assert(all.drop_first() =~= seq![]);
    } else {
        let first = samples[0];
        let rest = samples.drop_first();
        lemma_rest_in_order(base, samples);
        lemma_above_rest(base, samples, start);
        lemma_above_rest(base, samples, floor);
        assert(exact(base, first));
        let end = first.sequence.spec_earlier(high);
        let next = first.end_sequence;
        sequence::order_within_half_space(base, first.end_sequence, floor);
        sequence::order_within_half_space(base, first.sequence, start);
        sequence::order_within_half_space(base, first.sequence, high);
        sequence::order_within_half_space(base, end, start);
        sequence::order_within_half_space(base, end, ack);
        sequence::order_within_half_space(base, start, first.end_sequence);
        sequence::order_within_half_space(base, first.end_sequence, high);
        sequence::order_within_half_space(base, ack, first.sequence);
        sequence::order_within_half_space(base, ack, first.end_sequence);
        sequence::order_within_half_space(base, first.sequence, moved);
        sequence::order_within_half_space(base, end, moved);
        sequence::order_within_half_space(base, moved, first.end_sequence);
        assert(start.spec_later(first.end_sequence) == next);
        let hole = TcpScoreboardHole { start, end, lost: false };
        let gap = if first.sequence.after(start) && end.after(start) {
            seq![hole]
        } else {
            seq![]
        };
        let tail = if next.at_or_after(high) {
            seq![]
        } else {
            model::gaps_from(rest, next, floor, high)
        };
        assert(all =~= gap + tail);
        if gap.len() > 0 {
            assert(all[0] == hole);
            assert(all.drop_first() =~= tail);
        } else {
            assert(all =~= tail);
        }
        if !next.at_or_after(high) {
            lemma_gaps_in_order(base, rest, next, floor, high);
        }
        if ack.at_or_before(first.sequence) {
            assert(left == samples);
            assert forall|i: int| 0 <= i < rest.len() implies offset(base, ack) <= offset(
                base,
                (#[trigger] rest[i]).sequence,
            ) by {
                assert(offset(base, first.end_sequence) <= offset(base, rest[i].sequence));
            }
            if !next.at_or_after(high) {
                lemma_gaps_floor(base, rest, next, floor, ack, high);
                lemma_cut_unchanged(base, tail, ack);
            }
            assert(moved.spec_later(first.end_sequence) == next);
            if gap.len() > 0 && hole.end.at_or_before(ack) {
                assert(cut(all, ack) == cut(tail, ack));
            }
        } else if ack.at_or_after(first.end_sequence) {
            assert(moved == ack);
            lemma_cut_gaps(base, rest, next, floor, ack, high);
            sequence::order_within_half_space(base, next, ack);
            assert(next.spec_later(ack) == ack);
            if gap.len() > 0 {
                assert(hole.end.at_or_before(ack));
                assert(cut(all, ack) == cut(tail, ack));
            }
        } else {
            assert(moved == ack);
            let piece = first.suffix(ack);
            assert(left =~= seq![piece] + rest);
            assert(left[0] == piece);
            assert(left.drop_first() =~= rest);
            assert(piece.sequence == ack && piece.end_sequence == first.end_sequence);
            sequence::order_within_half_space(base, ack, ack);
            assert(ack.spec_later(piece.end_sequence) == next);
            assert forall|i: int| 0 <= i < rest.len() implies offset(base, ack) <= offset(
                base,
                (#[trigger] rest[i]).sequence,
            ) by {
                assert(offset(base, first.end_sequence) <= offset(base, rest[i].sequence));
            }
            if gap.len() > 0 {
                assert(hole.end.at_or_before(ack));
                assert(cut(all, ack) == cut(tail, ack));
            }
            if !next.at_or_after(high) {
                lemma_gaps_floor(base, rest, next, floor, ack, high);
                lemma_cut_unchanged(base, tail, ack);
            }
        }
    }
}

proof fn lemma_decided_same(
    a: Seq<TcpScoreboardHole>,
    b: Seq<TcpScoreboardHole>,
    reorder: u32,
    max_datagram_size: u32,
)
    requires
        same_holes(a, b),
    ensures
        model::holes_decided(a, reorder, max_datagram_size) == model::holes_decided(
            b,
            reorder,
            max_datagram_size,
        ),
{
    let da = model::holes_decided(a, reorder, max_datagram_size);
    let db = model::holes_decided(b, reorder, max_datagram_size);
    assert forall|i: int| 0 <= i < a.len() implies da[i] == db[i] by {
        lemma_ahead_same(a, b, i);
        assert(a[i].start == b[i].start);
    }
    assert(da =~= db);
}

proof fn lemma_ahead_same(
    a: Seq<TcpScoreboardHole>,
    b: Seq<TcpScoreboardHole>,
    index: int,
)
    requires
        same_holes(a, b),
        0 <= index,
    ensures
        model::sacked_ahead(a, index) == model::sacked_ahead(b, index),
    decreases a.len() - index,
{
    if index < a.len() - 1 {
        lemma_ahead_same(a, b, index + 1);
        assert(a[index].end == b[index].end);
        assert(a[index + 1].start == b[index + 1].start);
    }
}

/// A hole that already leads needs no other.
proof fn lemma_led_unchanged(
    base: TcpSeq,
    holes: Seq<TcpScoreboardHole>,
    samples: Seq<TcpSentSample>,
    ack: TcpSeq,
    high: TcpSeq,
)
    requires
        samples.len() > 0,
        sent_in_order(base, samples),
        above(base, samples, ack),
        near(base, ack),
        near(base, high),
        offset(base, ack) < offset(base, high),
        same_holes(holes, model::gaps_from(samples, ack, ack, high)),
    ensures
        model::holes_led(holes, samples[0], ack, high) == holes,
{
    let first = samples[0];
    assert(exact(base, first));
    lemma_above_rest(base, samples, ack);
    let end = first.sequence.spec_earlier(high);
    sequence::order_within_half_space(base, first.sequence, ack);
    sequence::order_within_half_space(base, first.sequence, high);
    sequence::order_within_half_space(base, first.end_sequence, ack);
    sequence::order_within_half_space(base, end, ack);
    sequence::order_within_half_space(base, ack, high);
    let all = model::gaps_from(samples, ack, ack, high);
    if first.sequence.after(ack) {
        assert(all[0] == TcpScoreboardHole { start: ack, end, lost: false });
        assert(holes[0].start == ack && holes[0].end == end);
        assert(model::hole_at(holes, ack) == 0);
        sequence::order_within_half_space(base, end, end);
    }
}

/// The state once an acknowledgment has taken what it covers.
pub open spec fn after_taking(m: RecoveryModel, ack: TcpSeq) -> RecoveryModel {
    RecoveryModel { ack_floor: ack, ..m }.taken(
        model::acked_part(m.samples, ack),
        model::unacked_part(m.samples, ack),
    )
}

/// Bringing the scoreboard up to a new acknowledgment gives, hole by hole and
/// sample by sample, what making it anew from the outstanding samples gives.
pub proof fn incremental_matches_rebuild(
    base: TcpSeq,
    m: RecoveryModel,
    ack: TcpSeq,
    max_datagram_size: u32,
)
    requires
        accounted(base, m),
        board_current(base, m),
        near(base, ack),
        offset(base, m.ack_floor) <= offset(base, ack),
    ensures
        after_taking(m, ack).advanced(ack, max_datagram_size) == after_taking(m, ack).rebuilt(
            ack,
            m.high_sacked,
            max_datagram_size,
        ),
{
    let taken = after_taking(m, ack);
    let high = m.high_sacked.spec_later(ack);
    let left = model::unacked_part(m.samples, ack);
    ack_conserves_bytes(base, m.samples, ack);
    sequence::order_within_half_space(base, m.high_sacked, ack);
    sequence::order_within_half_space(base, high, ack);
    sequence::order_within_half_space(base, m.high_sacked, m.ack_floor);
    if left.len() > 0 && !high.at_or_before(ack) {
        assert(high == m.high_sacked);
        let fresh = model::gaps_from(left, ack, ack, high);
        assert(m.samples.len() > 0) by {
            if m.samples.len() == 0 {
                assert(left =~= m.samples);
            }
        }
        if same_holes(m.holes, uncovered(m)) {
            let old_gaps = model::gaps_from(m.samples, m.ack_floor, m.ack_floor, high);
            lemma_gaps_in_order(base, m.samples, m.ack_floor, m.ack_floor, high);
            lemma_cut_gaps(base, m.samples, m.ack_floor, m.ack_floor, ack, high);
            sequence::order_within_half_space(base, m.ack_floor, ack);
            assert(m.ack_floor.spec_later(ack) == ack);
            assert(holes_in_order(base, m.holes)) by {
                assert forall|i: int| 0 <= i < m.holes.len() implies near(
                    base,
                    (#[trigger] m.holes[i]).end,
                ) && offset(base, m.holes[i].start) < offset(base, m.holes[i].end) by {
                    assert(m.holes[i].end == old_gaps[i].end);
                }
                assert forall|i: int, j: int| 0 <= i < j < m.holes.len() implies offset(
                    base,
                    (#[trigger] m.holes[i]).end,
                ) <= offset(base, (#[trigger] m.holes[j]).start) by {
                    assert(m.holes[i].end == old_gaps[i].end);
                    assert(m.holes[j].start == old_gaps[j].start);
                }
            }
            lemma_trimmed_is_cut(base, m.holes, ack);
            lemma_cut_same(m.holes, old_gaps, ack);
            let trimmed = model::holes_trimmed(m.holes, ack);
            assert(same_holes(trimmed, fresh));
            lemma_led_unchanged(base, trimmed, left, ack, high);
            lemma_decided_same(trimmed, fresh, TCP_DUPACK_THRESHOLD, max_datagram_size);
        } else {
            let first = left[0];
            assert(exact(base, first));
            assert(above(base, left, high));
            lemma_above_rest(base, left, high);
            sequence::order_within_half_space(base, first.sequence, ack);
            sequence::order_within_half_space(base, first.sequence, high);
            sequence::order_within_half_space(base, first.end_sequence, ack);
            sequence::order_within_half_space(base, first.end_sequence, high);
            sequence::order_within_half_space(base, ack, high);
            sequence::order_within_half_space(base, ack, first.end_sequence);
            let lead = TcpScoreboardHole { start: ack, end: high, lost: false };
            assert(first.sequence.spec_earlier(high) == high);
            assert(model::holes_past(m.holes, ack) =~= seq![]);
            assert(model::crossed_hole(m.holes, ack) is None);
            let trimmed = model::holes_trimmed(m.holes, ack);
            assert(trimmed =~= seq![]);
            assert(model::holes_led(trimmed, first, ack, high) =~= seq![lead]);
            assert(fresh =~= seq![lead]);
        }
    }
    assert(taken.advanced(ack, max_datagram_size) == taken.rebuilt(
        ack,
        m.high_sacked,
        max_datagram_size,
    ));
}

/// Loss marks do not move any range.
proof fn lemma_marked_ranges(m: RecoveryModel, holes: Seq<TcpScoreboardHole>)
    ensures
        same_ranges(m.samples, model::samples_marked(m.samples, holes, 0)),
{
}

/// A state whose samples cover the same ranges, with the same account and
/// scoreboard, is as good as the other.
proof fn lemma_transfer(base: TcpSeq, a: RecoveryModel, b: RecoveryModel)
    requires
        same_ranges(a.samples, b.samples),
        a.ack_floor == b.ack_floor,
        a.bytes_in_flight == b.bytes_in_flight,
        a.holes == b.holes,
        a.high_sacked == b.high_sacked,
        a.reorder == b.reorder,
    ensures
        accounted(base, a) ==> accounted(base, b),
        board_current(base, a) ==> board_current(base, b),
{
    lemma_same_ranges(base, a.samples, b.samples);
    lemma_same_gaps(a.samples, b.samples, a.ack_floor, a.ack_floor, a.high_sacked);
}

proof fn lemma_rebuilt_current(
    base: TcpSeq,
    m: RecoveryModel,
    high_sacked: TcpSeq,
    max_datagram_size: u32,
)
    requires
        accounted(base, m),
        near(base, high_sacked),
    ensures
        accounted(base, m.rebuilt(m.ack_floor, high_sacked, max_datagram_size)),
        board_current(base, m.rebuilt(m.ack_floor, high_sacked, max_datagram_size)),
{
    let r = m.rebuilt(m.ack_floor, high_sacked, max_datagram_size);
    sequence::order_within_half_space(base, high_sacked, m.ack_floor);
    let high = high_sacked.spec_later(m.ack_floor);
    if m.samples.len() == 0 || high.at_or_before(m.ack_floor) {
        lemma_transfer(base, RecoveryModel { samples: m.samples, ..r }, r);
        assert(r.samples == m.samples);
    } else {
        let gaps = model::gaps_from(m.samples, m.ack_floor, m.ack_floor, high);
        lemma_marked_ranges(m, model::holes_decided(gaps, TCP_DUPACK_THRESHOLD, max_datagram_size));
        lemma_same_ranges(base, m.samples, r.samples);
        lemma_same_gaps(m.samples, r.samples, m.ack_floor, m.ack_floor, high);
    }
}

/// A cumulative acknowledgment that does not go back keeps the account of bytes
/// in flight and leaves the scoreboard showing the uncovered ranges.
pub proof fn ack_keeps_account(
    base: TcpSeq,
    m: RecoveryModel,
    ack: TcpSeq,
    max_datagram_size: u32,
)
    requires
        accounted(base, m),
        board_current(base, m),
        near(base, ack),
        offset(base, m.ack_floor) <= offset(base, ack),
    ensures
        accounted(base, m.acked(ack, max_datagram_size)),
        board_current(base, m.acked(ack, max_datagram_size)),
{
    ack_conserves_bytes(base, m.samples, ack);
    incremental_matches_rebuild(base, m, ack, max_datagram_size);
    let taken = after_taking(m, ack);
    model::lemma_total_bytes_nonnegative(taken.samples);
    model::lemma_total_bytes_nonnegative(model::acked_part(m.samples, ack));
    assert(accounted(base, taken));
    lemma_rebuilt_current(base, taken, m.high_sacked, max_datagram_size);
    let advanced = taken.advanced(ack, max_datagram_size);
    lemma_transfer(base, advanced, m.acked(ack, max_datagram_size));
}

/// An acknowledgment with SACK blocks that does not go back keeps the account
/// and leaves the scoreboard showing the uncovered ranges.
#[verifier::spinoff_prover]
#[verifier::rlimit(30)]
pub proof fn sack_keeps_account(
    base: TcpSeq,
    m: RecoveryModel,
    ack: TcpRecoveryAck,
    blocks: Seq<TcpSackBlock>,
    max_datagram_size: u32,
)
    requires
        accounted(base, m),
        near(base, ack.acknowledgment),
        offset(base, m.ack_floor) <= offset(base, ack.acknowledgment),
        forall|i: int| 0 <= i < blocks.len() ==> sound_block(base, #[trigger] blocks[i]),
    ensures
        accounted(base, m.sacked(ack, blocks, max_datagram_size)),
        board_current(base, m.sacked(ack, blocks, max_datagram_size)),
{
    let floor = ack.acknowledgment;
    let count = blocks.len() as int;
    ack_conserves_bytes(base, m.samples, floor);
    let base_samples = model::unacked_part(m.samples, floor);
    sacks_conserve_bytes(base, base_samples, blocks, count);
    let gone = m.sack_taken(floor, blocks);
    model::lemma_total_bytes_concat(
        model::acked_part(m.samples, floor),
        model::all_sacked(base_samples, blocks, count),
    );
    let taken = RecoveryModel { ack_floor: floor, ..m }.taken(
        gone,
        model::all_unsacked(base_samples, blocks, count),
    );
    model::lemma_total_bytes_nonnegative(taken.samples);
    model::lemma_total_bytes_nonnegative(gone);
    assert(accounted(base, taken));
    lemma_highest_near(base, floor, blocks, count);
    let high = model::highest_right_edge(floor, blocks, count);
    lemma_rebuilt_current(base, taken, high, max_datagram_size);
    let rebuilt = taken.rebuilt(floor, high, max_datagram_size);
    let settled = rebuilt.maybe_finished(floor);
    let deadline = Instant { nanos: (ack.now.nanos + ack.reordering_window.nanos) as u128 };
    assert(same_ranges(rebuilt.samples, settled.rack_marked(high, deadline).samples));
    lemma_transfer(base, rebuilt, m.sacked(ack, blocks, max_datagram_size));
}

proof fn lemma_highest_near(base: TcpSeq, floor: TcpSeq, blocks: Seq<TcpSackBlock>, count: int)
    requires
        near(base, floor),
        0 <= count <= blocks.len(),
        forall|i: int| 0 <= i < count ==> sound_block(base, #[trigger] blocks[i]),
    ensures
        near(base, model::highest_right_edge(floor, blocks, count)),
    decreases count,
{
    if count > 0 {
        lemma_highest_near(base, floor, blocks, count - 1);
        assert(sound_block(base, blocks[count - 1]));
    }
}

/// The bytes of ordered samples fit between the base and the end of the last.
proof fn lemma_total_bounded(base: TcpSeq, samples: Seq<TcpSentSample>)
    requires
        sent_in_order(base, samples),
    ensures
        samples.len() > 0 ==> model::total_bytes(samples) <= offset(
            base,
            samples.last().end_sequence,
        ),
        samples.len() == 0 ==> model::total_bytes(samples) == 0,
    decreases samples.len(),
{
    if samples.len() > 0 {
        let front = samples.drop_last();
        let last = samples.len() - 1;
        assert(sent_in_order(base, front)) by {
            assert forall|i: int| 0 <= i < front.len() implies exact(base, #[trigger] front[i]) by {
                assert(front[i] == samples[i]);
            }
            assert forall|i: int, j: int| 0 <= i < j < front.len() implies offset(
                base,
                (#[trigger] front[i]).end_sequence,
            ) <= offset(base, (#[trigger] front[j]).sequence) by {
                assert(front[i] == samples[i] && front[j] == samples[j]);
            }
        }
        lemma_total_bounded(base, front);
        assert(exact(base, samples[last]));
        if front.len() > 0 {
            assert(front.last() == samples[last - 1]);
            assert(offset(base, samples[last - 1].end_sequence) <= offset(
                base,
                samples[last].sequence,
            ));
        }
    }
}

/// New data sent past everything outstanding, and past the highest SACK, keeps
/// the account and the scoreboard.
pub proof fn record_keeps_account(base: TcpSeq, m: RecoveryModel, sample: TcpSentSample)
    requires
        accounted(base, m),
        board_current(base, m),
        exact(base, sample),
        offset(base, m.ack_floor) <= offset(base, sample.sequence),
        offset(base, m.high_sacked) <= offset(base, sample.sequence),
        forall|i: int|
            0 <= i < m.samples.len() ==> offset(base, (#[trigger] m.samples[i]).end_sequence)
                <= offset(base, sample.sequence),
    ensures
        accounted(base, m.recorded(sample)),
        board_current(base, m.recorded(sample)),
{
    let r = m.recorded(sample);
    let whole = m.samples.push(sample);
    assert forall|i: int| 0 <= i < whole.len() implies exact(base, #[trigger] whole[i]) && offset(
        base,
        m.ack_floor,
    ) <= offset(base, whole[i].sequence) by {
        if i < m.samples.len() {
            assert(whole[i] == m.samples[i]);
        }
    }
    assert forall|i: int, j: int| 0 <= i < j < whole.len() implies offset(
        base,
        (#[trigger] whole[i]).end_sequence,
    ) <= offset(base, (#[trigger] whole[j]).sequence) by {
        assert(whole[i] == m.samples[i]);
        if j < m.samples.len() {
            assert(whole[j] == m.samples[j]);
        }
    }
    model::lemma_total_bytes_push(m.samples, sample);
    lemma_total_bounded(base, whole);
    sequence::order_within_half_space(base, m.high_sacked, m.ack_floor);
    if m.samples.len() > 0 && !m.high_sacked.at_or_before(m.ack_floor) {
        lemma_gaps_push(base, m.samples, sample, m.ack_floor, m.ack_floor, m.high_sacked);
    }
    if !same_holes(m.holes, uncovered(m)) || m.samples.len() == 0 {
        assert forall|i: int| 0 <= i < whole.len() implies offset(base, m.high_sacked) <= offset(
            base,
            (#[trigger] whole[i]).sequence,
        ) by {
            if i < m.samples.len() {
                assert(whole[i] == m.samples[i]);
            }
        }
    }
}

proof fn lemma_gaps_push(
    base: TcpSeq,
    samples: Seq<TcpSentSample>,
    sample: TcpSentSample,
    start: TcpSeq,
    ack: TcpSeq,
    high: TcpSeq,
)
    requires
        sent_in_order(base, samples),
        exact(base, sample),
        above(base, samples, start),
        above(base, samples, ack),
        near(base, start),
        near(base, ack),
        near(base, high),
        offset(base, ack) <= offset(base, sample.sequence),
        offset(base, start) <= offset(base, sample.sequence),
        offset(base, start) < offset(base, high),
        offset(base, high) <= offset(base, sample.sequence),
        forall|i: int|
            0 <= i < samples.len() ==> offset(base, (#[trigger] samples[i]).end_sequence) <= offset(
                base,
                sample.sequence,
            ),
    ensures
        model::gaps_from(samples.push(sample), start, ack, high) =~= model::gaps_from(
            samples,
            start,
            ack,
            high,
        ),
    decreases samples.len(),
{
    let whole = samples.push(sample);
    sequence::order_within_half_space(base, start, high);
    if samples.len() == 0 {
        assert(whole[0] == sample);
        assert(whole.drop_first() =~= samples);
        sequence::order_within_half_space(base, sample.end_sequence, ack);
        sequence::order_within_half_space(base, sample.sequence, high);
        sequence::order_within_half_space(base, sample.sequence, start);
        sequence::order_within_half_space(base, start, sample.end_sequence);
        sequence::order_within_half_space(base, sample.end_sequence, high);
        sequence::order_within_half_space(base, high, start);
        assert(sample.sequence.spec_earlier(high) == high);
    } else {
        let first = samples[0];
        let rest = samples.drop_first();
        lemma_rest_in_order(base, samples);
        lemma_above_rest(base, samples, start);
        lemma_above_rest(base, samples, ack);
        assert(exact(base, first));
        assert(whole[0] == first);
        assert(whole.drop_first() =~= rest.push(sample));
        sequence::order_within_half_space(base, first.end_sequence, ack);
        sequence::order_within_half_space(base, start, first.end_sequence);
        sequence::order_within_half_space(base, first.end_sequence, high);
        let next = start.spec_later(first.end_sequence);
        assert(next == first.end_sequence);
        assert forall|i: int| 0 <= i < rest.len() implies offset(
            base,
            (#[trigger] rest[i]).end_sequence,
        ) <= offset(base, sample.sequence) by {
            assert(rest[i] == samples[i + 1]);
        }
        if !next.at_or_after(high) {
            assert(offset(base, samples[0].end_sequence) <= offset(base, sample.sequence));
            lemma_gaps_push(base, rest, sample, next, ack, high);
        }
    }
}

/// Timers and retransmissions only change marks: they keep the account and the
/// scoreboard.
pub proof fn timers_keep_account(
    base: TcpSeq,
    m: RecoveryModel,
    now: Instant,
    snd_nxt: TcpSeq,
    window_before: u32,
    window_after: u32,
)
    requires
        accounted(base, m),
        board_current(base, m),
    ensures
        accounted(base, m.rack_timed_out(now, snd_nxt, window_before, window_after)),
        board_current(base, m.rack_timed_out(now, snd_nxt, window_before, window_after)),
        accounted(base, m.retransmit_taken()),
        board_current(base, m.retransmit_taken()),
        accounted(base, m.probe_taken()),
        board_current(base, m.probe_taken()),
        m.samples.len() > 0 ==> accounted(
            base,
            m.retransmission_timed_out(snd_nxt, window_before, window_after),
        ) && board_current(
            base,
            m.retransmission_timed_out(snd_nxt, window_before, window_after),
        ),
{
    lemma_first_lost_bound(m.samples);
    lemma_transfer(base, m, m.rack_timed_out(now, snd_nxt, window_before, window_after));
    lemma_transfer(base, m, m.retransmit_taken());
    lemma_transfer(base, m, m.probe_taken());
    if m.samples.len() > 0 {
        lemma_transfer(
            base,
            m,
            m.retransmission_timed_out(snd_nxt, window_before, window_after),
        );
    }
}

proof fn lemma_first_lost_bound(samples: Seq<TcpSentSample>)
    ensures
        0 <= model::first_lost(samples) <= samples.len(),
    decreases samples.len(),
{
    if samples.len() > 0 {
        lemma_first_lost_bound(samples.drop_first());
    }
}

/// The range that is retransmitted next is the lowest one that is lost and was
/// not retransmitted yet.
pub proof fn lowest_lost_goes_first(base: TcpSeq, samples: Seq<TcpSentSample>, other: int)
    requires
        sent_in_order(base, samples),
        0 <= other < samples.len(),
        samples[other].lost && !samples[other].retransmitted,
    ensures
        ({
            let index = model::first_lost(samples);
            &&& 0 <= index <= other
            &&& samples[index].lost && !samples[index].retransmitted
            &&& samples[index].sequence.at_or_before(samples[other].sequence)
        }),
    decreases samples.len(),
{
    lemma_first_lost_is_lost(samples, other);
    let index = model::first_lost(samples);
    assert(exact(base, samples[index]));
    assert(exact(base, samples[other]));
    sequence::order_within_half_space(base, samples[index].sequence, samples[other].sequence);
    if index < other {
        assert(offset(base, samples[index].end_sequence) <= offset(base, samples[other].sequence));
    }
}

proof fn lemma_first_lost_is_lost(samples: Seq<TcpSentSample>, other: int)
    requires
        0 <= other < samples.len(),
        samples[other].lost && !samples[other].retransmitted,
    ensures
        0 <= model::first_lost(samples) <= other,
        samples[model::first_lost(samples)].lost && !samples[model::first_lost(
            samples,
        )].retransmitted,
    decreases samples.len(),
{
    if !(samples[0].lost && !samples[0].retransmitted) {
        let rest = samples.drop_first();
        assert(rest[other - 1] == samples[other]);
        lemma_first_lost_is_lost(rest, other - 1);
        let index = model::first_lost(rest);
        assert(rest[index] == samples[index + 1]);
    }
}

/// Sending within the space that proportional rate reduction grants never takes
/// what is in flight past the episode's window, except for the one datagram that
/// every episode may send at its start.
pub proof fn send_space_within_window(
    m: RecoveryModel,
    bytes_in_flight: u32,
    max_datagram_size: u32,
)
    requires
        m.episode.active,
        bytes_in_flight <= m.episode.window,
        m.episode.retransmitted + m.episode.new_data > 0,
    ensures
        m.send_space(bytes_in_flight, max_datagram_size) matches Some(space) && bytes_in_flight
            + space <= m.episode.window,
{
}

// Every state that the calls reach

/// The outstanding ranges lie in order within half the sequence space, and their
/// bytes are what is in flight.
pub open spec fn counted(m: RecoveryModel) -> bool {
    &&& m.bytes_in_flight == model::total_bytes(m.samples)
    &&& exists|base: TcpSeq| placed(base, m.samples)
}

/// `sample` goes on where the outstanding ranges end, and all of them together
/// still lie within half the sequence space and can be counted.
pub open spec fn continues(m: RecoveryModel, sample: TcpSentSample) -> bool {
    let base = if m.samples.len() == 0 {
        sample.sequence
    } else {
        m.samples[0].sequence
    };
    &&& fits(base, sample)
    &&& m.samples.len() > 0 ==> offset(base, m.samples.last().end_sequence) <= offset(
        base,
        sample.sequence,
    )
    &&& m.bytes_in_flight + sample.bytes <= u32::MAX
}

/// One call of loss recovery: a send that continues what is outstanding, any
/// cumulative acknowledgment, one with any SACK blocks that are not inverted, a
/// timer, a retransmission, a new scoreboard, or one that only counts.
pub open spec fn called(before: RecoveryModel, after: RecoveryModel) -> bool {
    ||| exists|sample: TcpSentSample|
        continues(before, sample) && after == #[trigger] before.recorded(sample)
    ||| exists|ack: TcpSeq, max_datagram_size: u32|
        after == #[trigger] before.acked(ack, max_datagram_size)
    ||| exists|ack: TcpRecoveryAck, blocks: Seq<TcpSackBlock>, max_datagram_size: u32|
        forward_blocks(blocks) && after == #[trigger] before.sacked(ack, blocks, max_datagram_size)
    ||| exists|now: Instant, snd_nxt: TcpSeq, window_before: u32, window_after: u32|
        after == #[trigger] before.rack_timed_out(now, snd_nxt, window_before, window_after)
    ||| exists|snd_nxt: TcpSeq, window_before: u32, window_after: u32|
        before.samples.len() > 0 && after == #[trigger] before.retransmission_timed_out(
            snd_nxt,
            window_before,
            window_after,
        )
    ||| after == before.retransmit_taken()
    ||| after == before.probe_taken()
    ||| exists|ack: TcpSeq, high_sacked: TcpSeq, max_datagram_size: u32|
        after == #[trigger] before.rebuilt(ack, high_sacked, max_datagram_size)
    ||| after.samples == before.samples && after.bytes_in_flight == before.bytes_in_flight
}

/// None of the blocks is inverted.
pub open spec fn forward_blocks(blocks: Seq<TcpSackBlock>) -> bool {
    forall|i: int|
        0 <= i < blocks.len() ==> (#[trigger] blocks[i]).left_edge.before(blocks[i].right_edge)
}

/// Seen from the first of them, the samples lie in order too.
proof fn lemma_rebased(base: TcpSeq, samples: Seq<TcpSentSample>)
    requires
        placed(base, samples),
        samples.len() > 0,
    ensures
        placed(samples[0].sequence, samples),
{
    let first = samples[0].sequence;
    assert forall|i: int| 0 <= i < samples.len() implies offset(base, first) <= offset(
        base,
        (#[trigger] samples[i]).sequence,
    ) && fits(first, samples[i]) && offset(first, samples[i].sequence) == offset(
        base,
        samples[i].sequence,
    ) - offset(base, first) && offset(first, samples[i].end_sequence) == offset(
        base,
        samples[i].end_sequence,
    ) - offset(base, first) by {
        assert(fits(base, samples[i]));
        assert(fits(base, samples[0]));
        if i > 0 {
            assert(offset(base, samples[0].end_sequence) <= offset(base, samples[i].sequence));
        }
    }
    assert forall|i: int, j: int| 0 <= i < j < samples.len() implies offset(
        first,
        (#[trigger] samples[i]).end_sequence,
    ) <= offset(first, (#[trigger] samples[j]).sequence) by {
        assert(offset(base, samples[i].end_sequence) <= offset(base, samples[j].sequence));
    }
}

/// Marks on the samples change nothing of the account.
proof fn lemma_marks_counted(a: RecoveryModel, b: RecoveryModel)
    requires
        counted(a),
        same_ranges(a.samples, b.samples),
        a.bytes_in_flight == b.bytes_in_flight,
    ensures
        counted(b),
{
    let base = choose|base: TcpSeq| placed(base, a.samples);
    lemma_same_ranges(base, a.samples, b.samples);
}

proof fn lemma_taken_counted(m: RecoveryModel, taken: Seq<TcpSentSample>, rest: Seq<TcpSentSample>)
    requires
        counted(m),
        model::total_bytes(taken) + model::total_bytes(rest) == model::total_bytes(m.samples),
        exists|base: TcpSeq| placed(base, rest),
    ensures
        counted(m.taken(taken, rest)),
        m.taken(taken, rest).bytes_in_flight == m.bytes_in_flight - model::total_bytes(taken),
{
    model::lemma_total_bytes_nonnegative(taken);
    model::lemma_total_bytes_nonnegative(rest);
}

proof fn lemma_record_counted(m: RecoveryModel, sample: TcpSentSample)
    requires
        counted(m),
        continues(m, sample),
    ensures
        counted(m.recorded(sample)),
{
    let whole = m.samples.push(sample);
    model::lemma_total_bytes_push(m.samples, sample);
    if m.samples.len() == 0 {
        assert(whole =~= seq![sample]);
        lemma_single(sample.sequence, sample);
    } else {
        let found = choose|base: TcpSeq| placed(base, m.samples);
        lemma_rebased(found, m.samples);
        let base = m.samples[0].sequence;
        let last = m.samples.len() - 1;
        assert forall|i: int| 0 <= i < whole.len() implies fits(base, #[trigger] whole[i]) by {
            if i <= last {
                assert(whole[i] == m.samples[i]);
            }
        }
        assert forall|i: int, j: int| 0 <= i < j < whole.len() implies offset(
            base,
            (#[trigger] whole[i]).end_sequence,
        ) <= offset(base, (#[trigger] whole[j]).sequence) by {
            assert(whole[i] == m.samples[i]);
            if j <= last {
                assert(whole[j] == m.samples[j]);
            } else if i < last {
                assert(offset(base, m.samples[i].end_sequence) <= offset(
                    base,
                    m.samples[last].sequence,
                ));
                assert(fits(base, m.samples[last]));
            }
        }
        assert(placed(base, whole));
    }
    assert(m.recorded(sample).samples == whole);
}

proof fn lemma_ack_counted(m: RecoveryModel, ack: TcpSeq, max_datagram_size: u32)
    requires
        counted(m),
    ensures
        counted(m.acked(ack, max_datagram_size)),
        m.acked(ack, max_datagram_size).bytes_in_flight == m.bytes_in_flight - model::total_bytes(
            model::acked_part(m.samples, ack),
        ),
{
    let base = choose|base: TcpSeq| placed(base, m.samples);
    ack_conserves_bytes(base, m.samples, ack);
    let moved = RecoveryModel { ack_floor: ack, ..m };
    let taken = model::acked_part(m.samples, ack);
    let rest = model::unacked_part(m.samples, ack);
    assert(placed(base, moved.samples));
    lemma_taken_counted(moved, taken, rest);
    lemma_marks_counted(moved.taken(taken, rest), m.acked(ack, max_datagram_size));
}

proof fn lemma_sack_counted(
    m: RecoveryModel,
    ack: TcpRecoveryAck,
    blocks: Seq<TcpSackBlock>,
    max_datagram_size: u32,
)
    requires
        counted(m),
        forward_blocks(blocks),
    ensures
        counted(m.sacked(ack, blocks, max_datagram_size)),
{
    let base = choose|base: TcpSeq| placed(base, m.samples);
    let floor = ack.acknowledgment;
    let count = blocks.len() as int;
    ack_conserves_bytes(base, m.samples, floor);
    let kept = model::unacked_part(m.samples, floor);
    sacks_conserve_bytes(base, kept, blocks, count);
    model::lemma_total_bytes_concat(
        model::acked_part(m.samples, floor),
        model::all_sacked(kept, blocks, count),
    );
    let moved = RecoveryModel { ack_floor: floor, ..m };
    let taken = m.sack_taken(floor, blocks);
    let rest = model::all_unsacked(kept, blocks, count);
    assert(placed(base, moved.samples));
    lemma_taken_counted(moved, taken, rest);
    let settled = moved.taken(taken, rest);
    let high = model::highest_right_edge(floor, blocks, count);
    let rebuilt = settled.rebuilt(floor, high, max_datagram_size);
    lemma_rebuilt_ranges(settled, floor, high, max_datagram_size);
    lemma_marks_counted(settled, rebuilt);
    let finished = rebuilt.maybe_finished(floor);
    let deadline = Instant { nanos: (ack.now.nanos + ack.reordering_window.nanos) as u128 };
    lemma_rack_ranges(finished, high, deadline);
    lemma_marks_counted(rebuilt, finished);
    lemma_marks_counted(finished, finished.rack_marked(high, deadline));
    let marked = if high != floor {
        finished.rack_marked(high, deadline)
    } else {
        finished
    };
    assert(m.sacked(ack, blocks, max_datagram_size) == marked.tlp_refreshed());
    assert(marked.tlp_refreshed().samples == marked.samples);
}

/// A new scoreboard moves no range.
proof fn lemma_rebuilt_ranges(
    m: RecoveryModel,
    ack: TcpSeq,
    high_sacked: TcpSeq,
    max_datagram_size: u32,
)
    ensures
        same_ranges(m.samples, m.rebuilt(ack, high_sacked, max_datagram_size).samples),
        m.rebuilt(ack, high_sacked, max_datagram_size).bytes_in_flight == m.bytes_in_flight,
{
}

/// Deadlines move no range.
proof fn lemma_rack_ranges(m: RecoveryModel, high: TcpSeq, deadline: Instant)
    ensures
        same_ranges(m.samples, m.rack_marked(high, deadline).samples),
        m.rack_marked(high, deadline).bytes_in_flight == m.bytes_in_flight,
{
}

/// Whatever is called, and in whatever order, the bytes in flight are those of the
/// ranges that are outstanding, and these lie in order.
pub proof fn calls_keep_count(states: Seq<RecoveryModel>, last: int)
    requires
        0 <= last < states.len(),
        states[0].samples.len() == 0,
        states[0].bytes_in_flight == 0,
        forall|i: int| 0 <= i < last ==> called(#[trigger] states[i], states[i + 1]),
    ensures
        counted(states[last]),
    decreases last,
{
    if last == 0 {
        assert(placed(TcpSeq { value: 0 }, states[0].samples));
    } else {
        calls_keep_count(states, last - 1);
        assert(called(states[last - 1], states[last - 1 + 1]));
        lemma_call_counted(states[last - 1], states[last]);
    }
}

proof fn lemma_call_counted(before: RecoveryModel, after: RecoveryModel)
    requires
        counted(before),
        called(before, after),
    ensures
        counted(after),
{
    lemma_first_lost_bound(before.samples);
    if exists|sample: TcpSentSample|
        continues(before, sample) && after == #[trigger] before.recorded(sample) {
        let sample = choose|sample: TcpSentSample|
            continues(before, sample) && after == #[trigger] before.recorded(sample);
        lemma_record_counted(before, sample);
    } else if exists|ack: TcpSeq, max_datagram_size: u32|
        after == #[trigger] before.acked(ack, max_datagram_size) {
        let (ack, max_datagram_size) = choose|ack: TcpSeq, max_datagram_size: u32|
            after == #[trigger] before.acked(ack, max_datagram_size);
        lemma_ack_counted(before, ack, max_datagram_size);
    } else if exists|ack: TcpRecoveryAck, blocks: Seq<TcpSackBlock>, max_datagram_size: u32|
        forward_blocks(blocks) && after == #[trigger] before.sacked(
            ack,
            blocks,
            max_datagram_size,
        ) {
        let (ack, blocks, max_datagram_size) = choose|
            ack: TcpRecoveryAck,
            blocks: Seq<TcpSackBlock>,
            max_datagram_size: u32,
        |
            forward_blocks(blocks) && after == #[trigger] before.sacked(
                ack,
                blocks,
                max_datagram_size,
            );
        lemma_sack_counted(before, ack, blocks, max_datagram_size);
    } else if exists|ack: TcpSeq, high_sacked: TcpSeq, max_datagram_size: u32|
        after == #[trigger] before.rebuilt(ack, high_sacked, max_datagram_size) {
        let (ack, high_sacked, max_datagram_size) = choose|
            ack: TcpSeq,
            high_sacked: TcpSeq,
            max_datagram_size: u32,
        |
            after == #[trigger] before.rebuilt(ack, high_sacked, max_datagram_size);
        lemma_rebuilt_ranges(before, ack, high_sacked, max_datagram_size);
        lemma_marks_counted(before, after);
    } else {
        assert(same_ranges(before.samples, after.samples));
        lemma_marks_counted(before, after);
    }
}

/// The controller once the first `count` of `taken` have been reported.
pub open spec fn told<C: CongestionController>(
    controller: C,
    taken: Seq<TcpSentSample>,
    count: int,
    bytes_before: int,
    ack: TcpRecoveryAck,
) -> C {
    model::delivered_to(controller, taken.take(count), bytes_before, ack)
}

/// `segment` is what the controller hears of at `index`, with what is in flight
/// without it and those before it.
pub open spec fn reported<C: CongestionController>(
    controller: C,
    segment: TcpSentSample,
    taken: Seq<TcpSentSample>,
    index: int,
    bytes_before: int,
    ack: TcpRecoveryAck,
) -> bool {
    let left = bytes_before - model::total_bytes(taken.take(index + 1));
    &&& 0 <= left <= u32::MAX
    &&& told(controller, taken, index + 1, bytes_before, ack) == told(
        controller,
        taken,
        index,
        bytes_before,
        ack,
    ).after_ack(
        ack.now,
        model::acked_packet(segment, ack),
        model::rtt_sample(segment, ack.now),
        left as u32,
    )
}

proof fn lemma_reported<C: CongestionController>(
    controller: C,
    taken: Seq<TcpSentSample>,
    index: int,
    bytes_before: int,
    ack: TcpRecoveryAck,
)
    requires
        0 <= index < taken.len(),
        model::total_bytes(taken) <= bytes_before <= u32::MAX,
    ensures
        reported(controller, taken[index], taken, index, bytes_before, ack),
{
    let first = taken.take(index + 1);
    assert(first.drop_last() =~= taken.take(index));
    assert(first.last() == taken[index]);
    assert(taken =~= first + taken.skip(index + 1));
    model::lemma_total_bytes_concat(first, taken.skip(index + 1));
    model::lemma_total_bytes_nonnegative(first);
    model::lemma_total_bytes_nonnegative(taken.skip(index + 1));
}

/// A cumulative acknowledgment, wherever it lies, in any state that the calls
/// reach. It takes a run of whole ranges from the front, and at most a prefix of
/// the one after them. Each is reported to the controller once, in sequence order,
/// with what is in flight without it and those before it; one end mark follows
/// if any was taken, and nothing is reported if none was. In flight stays what was
/// not taken. The round trip is that of the last range taken that was not
/// retransmitted.
pub proof fn ack_reports_in_order<C: CongestionController>(
    m: RecoveryModel,
    controller: C,
    ack: TcpRecoveryAck,
    max_datagram_size: u32,
)
    requires
        counted(m),
    ensures
        ({
            let taken = model::acked_part(m.samples, ack.acknowledgment);
            let before = m.bytes_in_flight as int;
            let after = m.acked(ack.acknowledgment, max_datagram_size).bytes_in_flight;
            let notified = model::controller_after_ack(controller, taken, before, after, ack);
            &&& taken.len() <= m.samples.len()
            &&& forall|i: int|
                0 <= i < taken.len() ==> #[trigger] taken[i] == m.samples[i] || (i + 1
                    == taken.len() && taken[i] == m.samples[i].prefix(ack.acknowledgment))
            &&& forall|i: int, j: int|
                0 <= i < j < taken.len() ==> (#[trigger] taken[i]).sequence.at_or_before(
                    (#[trigger] taken[j]).sequence,
                )
            &&& told(controller, taken, 0, before, ack) == controller
            &&& forall|i: int|
                0 <= i < taken.len() ==> reported(controller, #[trigger] taken[i], taken, i, before, ack)
            &&& after == before - model::total_bytes(taken)
            &&& taken.len() == 0 ==> notified == controller
            &&& taken.len() > 0 ==> notified == told(
                controller,
                taken,
                taken.len() as int,
                before,
                ack,
            ).after_end_acks(ack.now, after, ack.app_limited, model::largest_packet(taken))
            &&& match model::latest_round_trip(taken, ack.now) {
                Some(rtt) => exists|i: int|
                    {
                        &&& 0 <= i < taken.len()
                        &&& !(#[trigger] taken[i]).retransmitted
                        &&& rtt == model::round_trip(taken[i], ack.now)
                        &&& forall|j: int|
                            i < j < taken.len() ==> (#[trigger] taken[j]).retransmitted
                    },
                None => forall|i: int|
                    0 <= i < taken.len() ==> (#[trigger] taken[i]).retransmitted,
            }
        }),
{
    let taken = model::acked_part(m.samples, ack.acknowledgment);
    let before = m.bytes_in_flight as int;
    let base = choose|base: TcpSeq| placed(base, m.samples);
    lemma_ack_counted(m, ack.acknowledgment, max_datagram_size);
    ack_conserves_bytes(base, m.samples, ack.acknowledgment);
    lemma_taken_prefix(m.samples, ack.acknowledgment);
    model::lemma_total_bytes_nonnegative(
        model::unacked_part(m.samples, ack.acknowledgment),
    );
    assert(taken.take(0) =~= seq![]);
    assert(taken.take(taken.len() as int) =~= taken);
    assert forall|i: int| 0 <= i < taken.len() implies reported(
        controller,
        #[trigger] taken[i],
        taken,
        i,
        before,
        ack,
    ) by {
        lemma_reported(controller, taken, i, before, ack);
    }
    assert forall|i: int, j: int| 0 <= i < j < taken.len() implies (
    #[trigger] taken[i]).sequence.at_or_before((#[trigger] taken[j]).sequence) by {
        assert(fits(base, m.samples[i]) && fits(base, m.samples[j]));
        assert(offset(base, m.samples[i].end_sequence) <= offset(base, m.samples[j].sequence));
        sequence::order_within_half_space(base, m.samples[i].sequence, m.samples[j].sequence);
    }
    lemma_latest(taken, ack.now);
}

/// What an acknowledgment takes are the first samples, the last of them whole or
/// in part.
proof fn lemma_taken_prefix(samples: Seq<TcpSentSample>, ack: TcpSeq)
    ensures
        model::acked_part(samples, ack).len() <= samples.len(),
        forall|i: int|
            0 <= i < model::acked_part(samples, ack).len() ==> #[trigger] model::acked_part(
                samples,
                ack,
            )[i] == samples[i] || (i + 1 == model::acked_part(samples, ack).len()
                && model::acked_part(samples, ack)[i] == samples[i].prefix(ack)),
    decreases samples.len(),
{
    let taken = model::acked_part(samples, ack);
    if samples.len() > 0 && !ack.at_or_before(samples[0].sequence) && ack.at_or_after(
        samples[0].end_sequence,
    ) {
        let rest = samples.drop_first();
        lemma_taken_prefix(rest, ack);
        let later = model::acked_part(rest, ack);
        assert forall|i: int| 0 <= i < taken.len() implies #[trigger] taken[i] == samples[i] || (i
            + 1 == taken.len() && taken[i] == samples[i].prefix(ack)) by {
            if i > 0 {
                assert(taken[i] == later[i - 1]);
                assert(rest[i - 1] == samples[i]);
            }
        }
    }
}

proof fn lemma_latest(taken: Seq<TcpSentSample>, now: Instant)
    ensures
        match model::latest_round_trip(taken, now) {
            Some(rtt) => exists|i: int|
                {
                    &&& 0 <= i < taken.len()
                    &&& !(#[trigger] taken[i]).retransmitted
                    &&& rtt == model::round_trip(taken[i], now)
                    &&& forall|j: int| i < j < taken.len() ==> (#[trigger] taken[j]).retransmitted
                },
            None => forall|i: int| 0 <= i < taken.len() ==> (#[trigger] taken[i]).retransmitted,
        },
    decreases taken.len(),
{
    if taken.len() > 0 {
        let last = taken.len() - 1;
        assert(taken.last() == taken[last]);
        if taken.last().retransmitted {
            let front = taken.drop_last();
            lemma_latest(front, now);
            assert forall|i: int| 0 <= i < front.len() implies front[i] == taken[i] by {}
            match model::latest_round_trip(front, now) {
                Some(rtt) => {
                    let i = choose|i: int|
                        {
                            &&& 0 <= i < front.len()
                            &&& !(#[trigger] front[i]).retransmitted
                            &&& rtt == model::round_trip(front[i], now)
                            &&& forall|j: int|
                                i < j < front.len() ==> (#[trigger] front[j]).retransmitted
                        };
                    assert(!taken[i].retransmitted);
                    assert forall|j: int| i < j < taken.len() implies (
                    #[trigger] taken[j]).retransmitted by {
                        if j < last {
                            assert(front[j].retransmitted);
                        }
                    }
                },
                None => {
                    assert forall|i: int| 0 <= i < taken.len() implies (
                    #[trigger] taken[i]).retransmitted by {
                        if i < last {
                            assert(front[i].retransmitted);
                        }
                    }
                },
            }
        } else {
            assert(!taken[last].retransmitted);
        }
    }
}

} // verus!
