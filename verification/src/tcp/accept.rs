//! The stage that takes what is left over once a connection was accepted.
use vstd::prelude::*;

verus! {

/// Where the stage sends a buffer.
#[derive(Clone, Copy, Debug, PartialEq, Eq, Structural)]
pub enum TcpAcceptNext {
    Drop,
}

/// The stage that takes what is left over once a connection was accepted.
#[derive(Clone, Copy, Debug, PartialEq, Eq, Structural)]
pub struct TcpAcceptNode {}

impl TcpAcceptNode {
    /// Passes nothing of a frame on.
    pub fn process(frame: &mut Vec<u32>) -> (r: TcpAcceptNext)
        ensures
            final(frame)@ == Seq::<u32>::empty(),
            r == TcpAcceptNext::Drop,
    {
        frame.clear();
        TcpAcceptNext::Drop
    }
}

} // verus!
