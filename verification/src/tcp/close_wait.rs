//! The stage for connections whose peer has closed its side.
use vstd::prelude::*;

use crate::congestion::CongestionController;
use crate::tcp::connection_model;
use crate::tcp::connection_model::TcpConnection;
use crate::tcp::lookup::TcpLookupState;
use crate::tcp::routes::SessionId;
use crate::tcp::types::{TcpPacket, TcpSegment, TcpState};
use crate::time::Instant;

verus! {

/// Where the stage sends a buffer.
#[derive(Clone, Copy, Debug, PartialEq, Eq, Structural)]
pub enum TcpCloseWaitNext {
    Output,
    Drop,
}

/// Why the stage drops a segment.
#[derive(Clone, Copy, Debug, PartialEq, Eq, Structural)]
pub enum TcpCloseWaitError {
    SessionMissing,
    WrongState,
}

impl TcpCloseWaitError {
    pub fn message(self) -> (r: &'static str)
        ensures
            r@ == match self {
                TcpCloseWaitError::SessionMissing => "tcp close-wait session is missing"@,
                TcpCloseWaitError::WrongState => "tcp close-wait connection is in another state"@,
            },
    {
        match self {
            TcpCloseWaitError::SessionMissing => "tcp close-wait session is missing",
            TcpCloseWaitError::WrongState => "tcp close-wait connection is in another state",
        }
    }
}

/// The stage for connections whose peer has closed its side.
#[derive(Clone, Copy, Debug, PartialEq, Eq, Structural)]
pub struct TcpCloseWaitNode {}

impl TcpCloseWaitNode {
    /// The session that a segment belongs to.
    pub fn session(lookup: &TcpLookupState, packet: &TcpPacket) -> (r: Result<
        SessionId,
        TcpCloseWaitError,
    >)
        requires
            lookup.well_formed(),
        ensures
            r == (match lookup.connection_route_of(packet.local, packet.remote) {
                Some(route) => Ok::<SessionId, TcpCloseWaitError>(route.session_id),
                None => Err::<SessionId, TcpCloseWaitError>(TcpCloseWaitError::SessionMissing),
            }),
    {
        match lookup.session_route_by_tuple(packet.local, packet.remote) {
            Some(route) => Ok(route.session_id),
            None => Err(TcpCloseWaitError::SessionMissing),
        }
    }

    /// Takes in a segment. The answer, if there is one, goes to the output stage.
    pub fn receive<C: CongestionController>(
        connection: &mut TcpConnection<C>,
        packet: &TcpPacket,
        now: Instant,
    ) -> (r: Result<Option<TcpSegment>, TcpCloseWaitError>)
        requires
            old(connection).well_formed(),
            connection_model::readable(now),
        ensures
            final(connection).well_formed(),
            (r is Err) == (old(connection).state != TcpState::CloseWait),
            match r {
                Err(error) => {
                    &&& error == TcpCloseWaitError::WrongState
                    &&& *final(connection) == *old(connection)
                },
                Ok(control) => old(connection).close_side_received(
                    *final(connection),
                    control,
                    *packet,
                    now,
                ),
            },
    {
        if connection.state() != TcpState::CloseWait {
            return Err(TcpCloseWaitError::WrongState);
        }
        Ok(connection.receive_close_side(packet, now))
    }
}

} // verus!
