//! A short queue of sequence keys that stays on the stack while it is small.
use vstd::prelude::*;

use crate::tcp::sequence::TcpSeq;

verus! {

/// How many keys fit before the collector moves to the heap. A receiver reports
/// few SACK ranges at a time, so the common case never allocates.
pub const SCOREBOARD_KEY_INLINE_CAP: usize = 8;

/// A queue of keys, taken from either end, in the order they were pushed.
pub struct ScoreboardKeyCollector {
    inline: [TcpSeq; 8],
    len: usize,
    overflow: Option<Vec<TcpSeq>>,
}

impl View for ScoreboardKeyCollector {
    type V = Seq<TcpSeq>;

    closed spec fn view(&self) -> Seq<TcpSeq> {
        match self.overflow {
            Some(keys) => keys@,
            None => self.inline@.take(self.len as int),
        }
    }
}

impl ScoreboardKeyCollector {
    /// Once keys have moved to the heap, none remain inline.
    pub closed spec fn well_formed(self) -> bool {
        &&& self.len <= SCOREBOARD_KEY_INLINE_CAP
        &&& self.overflow is Some ==> self.len == 0
    }

    pub fn new() -> (r: ScoreboardKeyCollector)
        ensures
            r.well_formed(),
            r@ == Seq::<TcpSeq>::empty(),
    {
        let r = ScoreboardKeyCollector {
            inline: [TcpSeq { value: 0 };8],
            len: 0,
            overflow: None,
        };
        assert(r@ =~= Seq::<TcpSeq>::empty());
        r
    }

    pub fn push(&mut self, key: TcpSeq)
        requires
            old(self).well_formed(),
        ensures
            final(self).well_formed(),
            final(self)@ == old(self)@.push(key),
    {
        match &mut self.overflow {
            Some(keys) => {
                keys.push(key);
                return;
            },
            None => {},
        }
        if self.len < SCOREBOARD_KEY_INLINE_CAP {
            self.inline[self.len] = key;
            self.len = self.len + 1;
            assert(self@ =~= old(self)@.push(key));
        } else {
            self.spill_to_overflow(key);
        }
    }

    fn spill_to_overflow(&mut self, key: TcpSeq)
        requires
            old(self).well_formed(),
            old(self).overflow is None,
        ensures
            final(self).well_formed(),
            final(self)@ == old(self)@.push(key),
    {
        let mut keys: Vec<TcpSeq> = Vec::with_capacity(self.len + 1);
        let mut i: usize = 0;
        while i < self.len
            invariant
                i <= self.len <= SCOREBOARD_KEY_INLINE_CAP,
                keys@ == self.inline@.take(i as int),
            decreases self.len - i,
        {
            keys.push(self.inline[i]);
            i = i + 1;
            assert(keys@ =~= self.inline@.take(i as int));
        }
        keys.push(key);
        self.len = 0;
        self.overflow = Some(keys);
    }

    pub fn pop_front(&mut self) -> (r: Option<TcpSeq>)
        requires
            old(self).well_formed(),
        ensures
            final(self).well_formed(),
            old(self)@.len() == 0 ==> r is None && final(self)@ == old(self)@,
            old(self)@.len() > 0 ==> r == Some(old(self)@[0]) && final(self)@ == old(
                self,
            )@.drop_first(),
    {
        match &mut self.overflow {
            Some(keys) => {
                if keys.len() == 0 {
                    return None;
                }
                let key = keys.remove(0);
                assert(self@ =~= old(self)@.drop_first());
                return Some(key);
            },
            None => {},
        }
        if self.len == 0 {
            return None;
        }
        let key = self.inline[0];
        let mut index: usize = 1;
        while index < self.len
            invariant
                1 <= index <= self.len <= SCOREBOARD_KEY_INLINE_CAP,
                self.len == old(self).len,
                self.overflow is None,
                forall|i: int| 0 <= i < index - 1 ==> self.inline@[i] == old(self).inline@[i + 1],
                forall|i: int| index - 1 <= i < 8 ==> self.inline@[i] == old(self).inline@[i],
            decreases self.len - index,
        {
            self.inline[index - 1] = self.inline[index];
            index = index + 1;
        }
        self.len = self.len - 1;
        assert(self@ =~= old(self)@.drop_first());
        Some(key)
    }

    pub fn pop_back(&mut self) -> (r: Option<TcpSeq>)
        requires
            old(self).well_formed(),
        ensures
            final(self).well_formed(),
            old(self)@.len() == 0 ==> r is None && final(self)@ == old(self)@,
            old(self)@.len() > 0 ==> r == Some(old(self)@.last()) && final(self)@ == old(
                self,
            )@.drop_last(),
    {
        match &mut self.overflow {
            Some(keys) => {
                let popped = keys.pop();
                assert(popped is Some ==> self@ =~= old(self)@.drop_last());
                return popped;
            },
            None => {},
        }
        if self.len == 0 {
            return None;
        }
        self.len = self.len - 1;
        assert(self@ =~= old(self)@.drop_last());
        Some(self.inline[self.len])
    }
}

} // verus!
