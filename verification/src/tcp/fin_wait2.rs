//! The stage for connections that wait for their peer to close its side.
use vstd::prelude::*;

use crate::congestion::CongestionController;
use crate::tcp::connection_model;
use crate::tcp::connection_model::TcpConnection;
use crate::tcp::lookup::TcpLookupState;
use crate::tcp::routes::SessionId;
use crate::tcp::types::{TcpPacket, TcpSegment, TcpState};
use crate::time::Instant;

verus! {

/// Where the stage sends a buffer.
#[derive(Clone, Copy, Debug, PartialEq, Eq, Structural)]
pub enum TcpFinWait2Next {
    Congestion,
    Drop,
}

/// Why the stage does not handle a segment.
#[derive(Clone, Copy, Debug, PartialEq, Eq, Structural)]
pub enum TcpFinWait2Error {
    QueueMissing,
    SessionMissing,
    WrongState,
}

impl TcpFinWait2Error {
    pub fn message(self) -> (r: &'static str)
        ensures
            r@ == match self {
                TcpFinWait2Error::QueueMissing => "tcp fin-wait2 node missing session queue"@,
                TcpFinWait2Error::SessionMissing => "tcp fin-wait2 session is missing"@,
                TcpFinWait2Error::WrongState => "tcp fin-wait2 connection is in another state"@,
            },
    {
        match self {
            TcpFinWait2Error::QueueMissing => "tcp fin-wait2 node missing session queue",
            TcpFinWait2Error::SessionMissing => "tcp fin-wait2 session is missing",
            TcpFinWait2Error::WrongState => "tcp fin-wait2 connection is in another state",
        }
    }
}

/// The number under which a session queue is found.
#[derive(Clone, Copy, Debug, PartialEq, Eq, Structural)]
pub struct SessionQueueHandle {
    pub slot: u64,
}

/// The stage for connections that wait for their peer to close its side.
#[derive(Clone, Copy, Debug, PartialEq, Eq, Structural)]
pub struct TcpFinWait2Node {
    pub session_queue: Option<SessionQueueHandle>,
}

impl TcpFinWait2Node {
    /// A stage that has no queue yet.
    pub fn new() -> (r: Self)
        ensures
            r.session_queue is None,
    {
        TcpFinWait2Node { session_queue: None }
    }

    pub fn with_session_queue(self, handle: SessionQueueHandle) -> (r: Self)
        ensures
            r.session_queue == Some(handle),
    {
        TcpFinWait2Node { session_queue: Some(handle) }
    }

    /// The queue that the stage works on.
    pub fn queue(&self) -> (r: Result<SessionQueueHandle, TcpFinWait2Error>)
        ensures
            r == (match self.session_queue {
                Some(handle) => Ok::<SessionQueueHandle, TcpFinWait2Error>(handle),
                None => Err::<SessionQueueHandle, TcpFinWait2Error>(TcpFinWait2Error::QueueMissing),
            }),
    {
        match self.session_queue {
            Some(handle) => Ok(handle),
            None => Err(TcpFinWait2Error::QueueMissing),
        }
    }

    /// The session that a segment belongs to.
    pub fn session(lookup: &TcpLookupState, packet: &TcpPacket) -> (r: Result<
        SessionId,
        TcpFinWait2Error,
    >)
        requires
            lookup.well_formed(),
        ensures
            r == (match lookup.connection_route_of(packet.local, packet.remote) {
                Some(route) => Ok::<SessionId, TcpFinWait2Error>(route.session_id),
                None => Err::<SessionId, TcpFinWait2Error>(TcpFinWait2Error::SessionMissing),
            }),
    {
        match lookup.session_route_by_tuple(packet.local, packet.remote) {
            Some(route) => Ok(route.session_id),
            None => Err(TcpFinWait2Error::SessionMissing),
        }
    }

    /// Takes in a segment. The answer, if there is one, goes to the congestion
    /// stage.
    pub fn receive<C: CongestionController>(
        connection: &mut TcpConnection<C>,
        packet: &TcpPacket,
        now: Instant,
    ) -> (r: Result<Option<TcpSegment>, TcpFinWait2Error>)
        requires
            old(connection).well_formed(),
            connection_model::readable(now),
        ensures
            final(connection).well_formed(),
            (r is Err) == (old(connection).state != TcpState::FinWait2),
            match r {
                Err(error) => {
                    &&& error == TcpFinWait2Error::WrongState
                    &&& *final(connection) == *old(connection)
                },
                Ok(control) => old(connection).close_side_received(
                    *final(connection),
                    control,
                    *packet,
                    now,
                ),
            },
    {
        if connection.state() != TcpState::FinWait2 {
            return Err(TcpFinWait2Error::WrongState);
        }
        Ok(connection.receive_close_side(packet, now))
    }
}

} // verus!
