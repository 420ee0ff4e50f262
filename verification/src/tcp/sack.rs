//! The SACK blocks that a receiver owes its peer.
use vstd::prelude::*;

use crate::tcp::recovery_model::TcpSackBlock;
use crate::tcp::sequence::TcpSeq;
use crate::tcp::types::{TcpSackList, TcpSegmentFlags};

verus! {

/// An empty list.
pub open spec fn no_blocks() -> TcpSackList {
    TcpSackList { first: None, second: None, third: None, fourth: None }
}

impl TcpSackList {
    /// The list with `block` in its first free place, or unchanged if it is full.
    pub open spec fn spec_push(self, block: TcpSackBlock) -> TcpSackList {
        if self.first is None {
            TcpSackList { first: Some(block), ..self }
        } else if self.second is None {
            TcpSackList { second: Some(block), ..self }
        } else if self.third is None {
            TcpSackList { third: Some(block), ..self }
        } else if self.fourth is None {
            TcpSackList { fourth: Some(block), ..self }
        } else {
            self
        }
    }

    pub open spec fn spec_push_some(self, block: Option<TcpSackBlock>) -> TcpSackList {
        match block {
            Some(block) => self.spec_push(block),
            None => self,
        }
    }

    /// The filled places come first.
    pub open spec fn well_formed(self) -> bool {
        &&& self.second is Some ==> self.first is Some
        &&& self.third is Some ==> self.second is Some
        &&& self.fourth is Some ==> self.third is Some
    }

    /// One of the places holds `block`.
    pub open spec fn holds(self, block: TcpSackBlock) -> bool {
        ||| self.first == Some(block)
        ||| self.second == Some(block)
        ||| self.third == Some(block)
        ||| self.fourth == Some(block)
    }

    pub fn empty() -> (r: TcpSackList)
        ensures
            r == no_blocks(),
    {
        TcpSackList { first: None, second: None, third: None, fourth: None }
    }

    pub fn is_empty(&self) -> (r: bool)
        ensures
            r == (self.first is None),
    {
        self.first.is_none()
    }

    fn push_some(&mut self, block: Option<TcpSackBlock>)
        ensures
            *final(self) == old(self).spec_push_some(block),
    {
        if let Some(block) = block {
            if self.first.is_none() {
                self.first = Some(block);
            } else if self.second.is_none() {
                self.second = Some(block);
            } else if self.third.is_none() {
                self.third = Some(block);
            } else if self.fourth.is_none() {
                self.fourth = Some(block);
            }
        }
    }
}

/// The out-of-order ranges that were received, newest first, and a range that
/// arrived twice.
#[derive(Clone, Copy, Debug, PartialEq, Eq, Structural)]
pub struct TcpSackState {
    pub duplicate: Option<TcpSackBlock>,
    pub ranges: TcpSackList,
}

/// Two ranges overlap or touch.
pub open spec fn touching(a: TcpSackBlock, b: TcpSackBlock) -> bool {
    a.right_edge.at_or_after(b.left_edge) && a.left_edge.at_or_before(b.right_edge)
}

/// The smallest range that holds both.
pub open spec fn spanning(a: TcpSackBlock, b: TcpSackBlock) -> TcpSackBlock {
    TcpSackBlock {
        left_edge: if b.left_edge.before(a.left_edge) {
            b.left_edge
        } else {
            a.left_edge
        },
        right_edge: if a.right_edge.before(b.right_edge) {
            b.right_edge
        } else {
            a.right_edge
        },
    }
}

/// `old` still lies ahead of `rcv_nxt`.
pub open spec fn ahead(old: Option<TcpSackBlock>, rcv_nxt: TcpSeq) -> bool {
    old matches Some(block) && block.left_edge.after(rcv_nxt)
}

/// The newest range once `old` was folded into it where the two touch.
pub open spec fn grown(
    newest: Option<TcpSackBlock>,
    old: Option<TcpSackBlock>,
    rcv_nxt: TcpSeq,
) -> Option<TcpSackBlock> {
    match (newest, old) {
        (Some(newest), Some(block)) => if ahead(old, rcv_nxt) && touching(block, newest) {
            Some(spanning(newest, block))
        } else {
            Some(newest)
        },
        _ => newest,
    }
}

/// `old` where it stays a range of its own.
pub open spec fn kept(
    newest: Option<TcpSackBlock>,
    old: Option<TcpSackBlock>,
    rcv_nxt: TcpSeq,
) -> Option<TcpSackBlock> {
    if !ahead(old, rcv_nxt) {
        None
    } else if newest matches Some(newest) && touching(old->0, newest) {
        None
    } else {
        old
    }
}

impl TcpSackState {
    pub open spec fn initial() -> Self {
        TcpSackState { duplicate: None, ranges: no_blocks() }
    }

    /// The ranges after one more arrived: the newest first, merged with those it
    /// touches; those that `rcv_nxt` reached are gone.
    pub open spec fn updated_ranges(
        self,
        rcv_nxt: TcpSeq,
        newest: Option<TcpSackBlock>,
    ) -> TcpSackList {
        let n1 = grown(newest, self.ranges.first, rcv_nxt);
        let n2 = grown(n1, self.ranges.second, rcv_nxt);
        let n3 = grown(n2, self.ranges.third, rcv_nxt);
        let n4 = grown(n3, self.ranges.fourth, rcv_nxt);
        no_blocks().spec_push_some(n4).spec_push_some(
            kept(newest, self.ranges.first, rcv_nxt),
        ).spec_push_some(kept(n1, self.ranges.second, rcv_nxt)).spec_push_some(
            kept(n2, self.ranges.third, rcv_nxt),
        ).spec_push_some(kept(n3, self.ranges.fourth, rcv_nxt))
    }

    pub open spec fn range_updated(
        self,
        enabled: bool,
        rcv_nxt: TcpSeq,
        left: TcpSeq,
        right: TcpSeq,
    ) -> Self {
        if enabled {
            let newest = if left == right {
                None
            } else {
                Some(TcpSackBlock { left_edge: left, right_edge: right })
            };
            TcpSackState { ranges: self.updated_ranges(rcv_nxt, newest), ..self }
        } else {
            self
        }
    }

    pub open spec fn with_duplicate(self, enabled: bool, left: TcpSeq, right: TcpSeq) -> Self {
        if enabled {
            TcpSackState {
                duplicate: Some(TcpSackBlock { left_edge: left, right_edge: right }),
                ..self
            }
        } else {
            self
        }
    }

    /// What a segment with `flags` reports: a duplicate first, then the ranges.
    pub open spec fn report(self, enabled: bool, flags: TcpSegmentFlags) -> TcpSackList {
        if enabled && flags.ack {
            no_blocks().spec_push_some(self.duplicate).spec_push_some(
                self.ranges.first,
            ).spec_push_some(self.ranges.second).spec_push_some(self.ranges.third).spec_push_some(
                self.ranges.fourth,
            )
        } else {
            no_blocks()
        }
    }

    /// The state once a segment with `flags` has reported: a duplicate is
    /// reported once.
    pub open spec fn reported(self, enabled: bool, flags: TcpSegmentFlags) -> Self {
        if enabled && flags.ack {
            TcpSackState { duplicate: None, ..self }
        } else {
            self
        }
    }

    pub fn new() -> (r: Self)
        ensures
            r == TcpSackState::initial(),
    {
        TcpSackState { duplicate: None, ranges: TcpSackList::empty() }
    }

    /// Whether there is anything to report.
    pub fn has_output(&self) -> (r: bool)
        ensures
            r == (self.duplicate is Some || self.ranges.first is Some),
    {
        self.duplicate.is_some() || self.ranges.first.is_some()
    }

    /// The blocks for a segment with `flags`.
    pub fn take_output(&mut self, enabled: bool, flags: TcpSegmentFlags) -> (r: TcpSackList)
        ensures
            *final(self) == old(self).reported(enabled, flags),
            r == old(self).report(enabled, flags),
    {
        let mut list = TcpSackList::empty();
        if enabled && flags.ack {
            list.push_some(self.duplicate);
            list.push_some(self.ranges.first);
            list.push_some(self.ranges.second);
            list.push_some(self.ranges.third);
            list.push_some(self.ranges.fourth);
            self.duplicate = None;
        }
        list
    }

    /// Notes a range that arrived although it had been received before.
    pub fn set_duplicate(&mut self, enabled: bool, left: TcpSeq, right: TcpSeq)
        ensures
            *final(self) == old(self).with_duplicate(enabled, left, right),
    {
        if enabled {
            self.duplicate = Some(TcpSackBlock { left_edge: left, right_edge: right });
        }
    }

    /// Notes that `rcv_nxt` moved and that `left..right`, if not empty, arrived
    /// out of order.
    pub fn update_range(&mut self, enabled: bool, rcv_nxt: TcpSeq, left: TcpSeq, right: TcpSeq)
        ensures
            *final(self) == old(self).range_updated(enabled, rcv_nxt, left, right),
    {
        if !enabled {
            return;
        }
        let newest: Option<TcpSackBlock> = if left == right {
            None
        } else {
            Some(TcpSackBlock { left_edge: left, right_edge: right })
        };
        let (n1, first) = fold_range(newest, self.ranges.first, rcv_nxt);
        let (n2, second) = fold_range(n1, self.ranges.second, rcv_nxt);
        let (n3, third) = fold_range(n2, self.ranges.third, rcv_nxt);
        let (n4, fourth) = fold_range(n3, self.ranges.fourth, rcv_nxt);
        let mut ranges = TcpSackList::empty();
        ranges.push_some(n4);
        ranges.push_some(first);
        ranges.push_some(second);
        ranges.push_some(third);
        ranges.push_some(fourth);
        self.ranges = ranges;
    }
}

fn fold_range(newest: Option<TcpSackBlock>, old: Option<TcpSackBlock>, rcv_nxt: TcpSeq) -> (r: (
    Option<TcpSackBlock>,
    Option<TcpSackBlock>,
))
    ensures
        r.0 == grown(newest, old, rcv_nxt),
        r.1 == kept(newest, old, rcv_nxt),
{
    let Some(block) = old else {
        return (newest, None);
    };
    if !block.left_edge.is_after(rcv_nxt) {
        return (newest, None);
    }
    match newest {
        Some(range) => {
            if block.right_edge.is_at_or_after(range.left_edge) && block.left_edge.is_at_or_before(
                range.right_edge,
            ) {
                let left_edge = if block.left_edge.is_before(range.left_edge) {
                    block.left_edge
                } else {
                    range.left_edge
                };
                let right_edge = if range.right_edge.is_before(block.right_edge) {
                    block.right_edge
                } else {
                    range.right_edge
                };
                (Some(TcpSackBlock { left_edge, right_edge }), None)
            } else {
                (newest, Some(block))
            }
        },
        None => (None, Some(block)),
    }
}

/// Where nothing new arrived out of order, the ranges that stay are those of
/// before that still lie ahead of `rcv_nxt`.
pub proof fn reached_ranges_go(state: TcpSackState, rcv_nxt: TcpSeq, block: TcpSackBlock)
    requires
        state.range_updated(true, rcv_nxt, rcv_nxt, rcv_nxt).ranges.holds(block),
    ensures
        block.left_edge.after(rcv_nxt),
        state.ranges.holds(block),
{
}

/// A duplicate is reported by one acknowledgment and by no later one.
pub proof fn duplicate_is_reported_once(
    state: TcpSackState,
    left: TcpSeq,
    right: TcpSeq,
    flags: TcpSegmentFlags,
)
    requires
        flags.ack,
    ensures
        ({
            let noted = state.with_duplicate(true, left, right);
            let block = TcpSackBlock { left_edge: left, right_edge: right };
            &&& noted.report(true, flags).first == Some(block)
            &&& noted.reported(true, flags).duplicate is None
        }),
{
}

} // verus!
