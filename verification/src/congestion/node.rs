//! The stage that lets segments through to be sent.
use vstd::prelude::*;

use crate::tcp::types::SocketAddress;

verus! {

/// Where the stage sends a buffer.
#[derive(Clone, Copy, Debug, PartialEq, Eq, Structural)]
pub enum CongestionControlNext {
    Transmit,
    Defer,
    Drop,
}

/// The stage that lets segments through to be sent.
#[derive(Clone, Copy, Debug, PartialEq, Eq, Structural)]
pub struct CongestionControlNode {}

impl CongestionControlNode {
    /// Lets a buffer through if it says where it comes from and where it goes.
    pub fn next(source: Option<SocketAddress>, destination: Option<SocketAddress>) -> (r:
        CongestionControlNext)
        ensures
            r == (if source is Some && destination is Some {
                CongestionControlNext::Transmit
            } else {
                CongestionControlNext::Drop
            }),
    {
        if source.is_none() || destination.is_none() {
            CongestionControlNext::Drop
        } else {
            CongestionControlNext::Transmit
        }
    }
}

} // verus!
